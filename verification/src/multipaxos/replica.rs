//! The Multi-Paxos replica: it records chosen values in its log, executes the
//! log in slot order, answers the client for the batches it executes while it
//! is the leader, and tells the leaders how far it has executed.
use vstd::prelude::*;
use crate::random::random_in_range;
use crate::abcast::messages::{ProposalResp, RespView, resps_view};
use crate::multipaxos::buffer_map::{BufferMap, BufferMapView};
use crate::multipaxos::messages::{Chosen, CommandBatchOrNoop, CommandView, Recover};
use crate::wire::put_slice;

verus! {

/// Tuning of a replica; the recovery periods are in milliseconds.
pub struct ReplicaOptions {
    pub log_grow_size: usize,
    pub send_chosen_watermark_every_n_entries: u64,
    pub recover_log_entry_min_period: u64,
    pub recover_log_entry_max_period: u64,
}

impl ReplicaOptions {
    /// A random period of the recovery timer, in
    /// `recover_log_entry_min_period .. recover_log_entry_max_period`.
    pub fn get_random_timeout_period(&self) -> (ms: u64)
        requires
            self.recover_log_entry_min_period < self.recover_log_entry_max_period,
        ensures
            self.recover_log_entry_min_period <= ms < self.recover_log_entry_max_period,
    {
        random_in_range(self.recover_log_entry_min_period, self.recover_log_entry_max_period)
    }
}

/// What to do with the timer that asks the leaders to resend missing slots.
#[derive(PartialEq, Eq, Structural, Clone, Copy)]
pub enum TimerAction {
    Keep,
    Start,
    Stop,
    Reset,
}

/// The state of a replica.
pub struct Replica {
    pub index: u64,
    pub log: BufferMap,
    pub executed_watermark: u64,
    pub num_chosen: u64,
    pub options: ReplicaOptions,
    pub num_replicas: u64,
    pub current_leader: u64,
    pub current_round: u64,
}

/// What handling a `Chosen` message gives: the answers for the client, the
/// executed watermarks to announce to every leader, and the recovery timer's fate.
pub struct ChosenOutcome {
    pub replies: Vec<ProposalResp>,
    pub chosen_watermarks: Vec<u64>,
    pub timer: TimerAction,
}

/// Whether slot `s` of the log holds a value.
pub open spec fn filled(m: BufferMapView, s: int) -> bool {
    &&& m.watermark <= s < m.watermark + m.entries.len()
    &&& m.entries[s - m.watermark] is Some
}

/// The slots of the log that hold a value.
pub open spec fn chosen_slots(m: BufferMapView) -> Set<int> {
    Set::new(|k: int| filled(m, k))
}

/// The chosen slots are finitely many: they lie within the buffer.
proof fn lemma_chosen_slots_finite(m: BufferMapView)
    ensures
        chosen_slots(m).finite(),
{
    let r = vstd::set_lib::set_int_range(m.watermark as int, m.watermark + m.entries.len());
    vstd::set_lib::lemma_int_range(m.watermark as int, m.watermark + m.entries.len());
    assert(chosen_slots(m).subset_of(r));
    vstd::set_lib::lemma_len_subset(chosen_slots(m), r);
}

/// Writing a value to an empty slot adds exactly that slot to the chosen ones.
proof fn lemma_put_chooses(m: BufferMapView, key: u64, v: CommandView)
    requires
        m.watermark == 0,
        !filled(m, key as int),
    ensures
        chosen_slots(m.put(key, v)) == chosen_slots(m).insert(key as int),
        m.put(key, v).watermark == 0,
{
    let m2 = m.put(key, v);
    assert forall|k: int| filled(m2, k) <==> (filled(m, k) || k == key) by {
        if 0 <= k < m.entries.len() {
            if k != key {
                assert(m2.entries[k] == m.entries[k]);
            }
        }
    }
    assert(chosen_slots(m2) =~= chosen_slots(m).insert(key as int));
}

/// The first empty slot at or after `w`: where executing the log from `w` stops.
pub open spec fn first_gap(m: BufferMapView, w: int) -> int
    decreases m.watermark + m.entries.len() - w,
{
    if filled(m, w) {
        first_gap(m, w + 1)
    } else {
        w
    }
}

/// The answers for one executed slot: one per command of a batch, none for a no-op.
pub open spec fn slot_replies(c: CommandView, leader: u64, round: u64) -> Seq<RespView> {
    match c {
        CommandView::Batch(cs) => cs.map_values(
            |d: Seq<u8>| RespView { data: d, latest_leader: leader, leader_round: round },
        ),
        CommandView::Noop => Seq::empty(),
    }
}

/// The answers for the slots `from .. to`, in slot order.
pub open spec fn replies_between(
    m: BufferMapView,
    from: int,
    to: int,
    leader: u64,
    round: u64,
) -> Seq<RespView>
    decreases to - from,
{
    if to <= from {
        Seq::empty()
    } else {
        replies_between(m, from, to - 1, leader, round) + slot_replies(
            m.entries[to - 1 - m.watermark]->0,
            leader,
            round,
        )
    }
}

/// Whether replica `idx` of `k` announces the executed watermark `s` to the
/// leaders, taking turns every `n` slots.
pub open spec fn announces(s: int, n: u64, k: u64, idx: u64) -> bool {
    s % (n as int) == 0 && (s / (n as int)) % (k as int) == idx
}

/// The watermarks announced while executing from `from` up to `to`: each value
/// the watermark takes in `from + 1 ..= to` that this replica announces.
pub open spec fn announcements(from: int, to: int, n: u64, k: u64, idx: u64) -> Seq<u64>
    decreases to - from,
{
    if to <= from {
        Seq::empty()
    } else {
        let prev = announcements(from, to - 1, n, k, idx);
        if announces(to, n, k, idx) {
            prev.push(to as u64)
        } else {
            prev
        }
    }
}

/// Exactly the watermarks `w` in `from + 1 ..= to` that are multiples of `n`
/// whose turn `(w / n) % k` is `idx` are announced, in increasing order.
pub proof fn lemma_announcements_exact(from: int, to: int, n: u64, k: u64, idx: u64)
    requires
        n > 0,
        k > 0,
        0 <= from,
        to <= u64::MAX,
    ensures
        forall|j: int| 0 <= j < announcements(from, to, n, k, idx).len() ==> {
            let w = #[trigger] announcements(from, to, n, k, idx)[j];
            &&& from < w <= to
            &&& w % n == 0
            &&& (w / n) % k == idx
        },
        forall|j1: int, j2: int|
            0 <= j1 < j2 < announcements(from, to, n, k, idx).len() ==> #[trigger] announcements(
                from,
                to,
                n,
                k,
                idx,
            )[j1] < #[trigger] announcements(from, to, n, k, idx)[j2],
        forall|w: u64|
            from < w <= to && w % n == 0 && (w / n) % k == idx ==> #[trigger] announcements(
                from,
                to,
                n,
                k,
                idx,
            ).contains(w),
    decreases to - from,
{
    if to > from {
        lemma_announcements_exact(from, to - 1, n, k, idx);
        let prev = announcements(from, to - 1, n, k, idx);
        let a = announcements(from, to, n, k, idx);
        assert forall|j: int| 0 <= j < a.len() implies {
            let w = #[trigger] a[j];
            &&& from < w <= to
            &&& w % n == 0
            &&& (w / n) % k == idx
        } by {
            if j < prev.len() {
                assert(a[j] == prev[j]);
            }
        }
        assert forall|j1: int, j2: int| 0 <= j1 < j2 < a.len() implies #[trigger] a[j1] < #[trigger] a[j2] by {
            assert(a[j1] == prev[j1]);
            if j2 < prev.len() {
                assert(a[j2] == prev[j2]);
            }
        }
        assert forall|w: u64| from < w <= to && w % n == 0 && (w / n) % k == idx implies #[trigger] a.contains(w) by {
            if w < to {
                assert(prev.contains(w));
                let j = choose|j: int| 0 <= j < prev.len() && prev[j] == w;
                assert(a[j] == w);
            } else {
                assert(announces(to, n, k, idx));
                assert(a[prev.len() as int] == w);
            }
        }
    }
}

/// The recovery timer runs while some chosen slot waits behind a gap: it
/// starts when a slot starts waiting, stops when none waits any more, and
/// is reset when the log advanced while a slot still waits.
pub proof fn lemma_timer_decision(running: bool, should_run: bool, should_reset: bool)
    ensures
        running && !should_run ==> timer_decision(running, should_run, should_reset)
            == TimerAction::Stop,
        running && should_run && should_reset ==> timer_decision(running, should_run, should_reset)
            == TimerAction::Reset,
        running && should_run && !should_reset ==> timer_decision(running, should_run, should_reset)
            == TimerAction::Keep,
        !running && should_run ==> timer_decision(running, should_run, should_reset)
            == TimerAction::Start,
        !running && !should_run ==> timer_decision(running, should_run, should_reset)
            == TimerAction::Keep,
{
}

/// The recovery timer runs while some chosen slot waits behind a gap.
pub open spec fn timer_decision(
    running: bool,
    should_run: bool,
    should_reset: bool,
) -> TimerAction {
    if running {
        if !should_run {
            TimerAction::Stop
        } else if should_reset {
            TimerAction::Reset
        } else {
            TimerAction::Keep
        }
    } else if should_run {
        TimerAction::Start
    } else {
        TimerAction::Keep
    }
}

impl Replica {
    /// The recovery timer fired: ask every leader for the slot the log is
    /// executed up to.
    pub fn recover(&self) -> (r: Recover)
        ensures
            r.slot == self.executed_watermark,
    {
        Recover { slot: self.executed_watermark }
    }

    pub open spec fn wf(&self) -> bool {
        &&& self.log@.watermark == 0
        &&& self.log@.grow_size == self.options.log_grow_size
        &&& self.options.send_chosen_watermark_every_n_entries > 0
        &&& self.num_replicas > 0
        &&& self.num_chosen == chosen_slots(self.log@).len()
        &&& forall|k: int| 0 <= k < self.executed_watermark ==> #[trigger] filled(self.log@, k)
    }

    /// A replica never executes past what was chosen: every executed slot
    /// holds a value, and each value was counted once when it was chosen.
    pub proof fn lemma_executed_within_chosen(&self)
        requires
            self.wf(),
        ensures
            self.executed_watermark <= self.num_chosen,
    {
        let r = vstd::set_lib::set_int_range(0, self.executed_watermark as int);
        vstd::set_lib::lemma_int_range(0, self.executed_watermark as int);
        lemma_chosen_slots_finite(self.log@);
        assert forall|k: int| r.contains(k) implies chosen_slots(self.log@).contains(k) by {
            assert(filled(self.log@, k));
        }
        vstd::set_lib::lemma_len_subset(r, chosen_slots(self.log@));
    }

    /// A replica with an empty log; until told otherwise it takes the last of
    /// the `num_leaders` leaders to lead.
    pub fn with(pid: u64, options: ReplicaOptions, num_replicas: u64, num_leaders: u64) -> (r: Replica)
        requires
            options.send_chosen_watermark_every_n_entries > 0,
            num_replicas > 0,
        ensures
            r.wf(),
            r.index == pid,
            r.log@.entries.len() == 0,
            r.executed_watermark == 0,
            r.num_chosen == 0,
            r.options == options,
            r.num_replicas == num_replicas,
            r.current_leader == num_leaders,
            r.current_round == 0,
    {
        let log = BufferMap::with(options.log_grow_size);
        assert(chosen_slots(log@) =~= Set::<int>::empty());
        Replica {
            index: pid,
            log,
            executed_watermark: 0,
            num_chosen: 0,
            options,
            num_replicas,
            current_leader: num_leaders,
            current_round: 0,
        }
    }

    /// Executes the log from the executed watermark up to the first empty slot.
    /// The leader answers the client for each command; every replica announces
    /// the watermarks that fall to it.
    pub fn execute_log(&mut self) -> (out: (Vec<ProposalResp>, Vec<u64>))
        requires
            old(self).wf(),
        ensures
            final(self).wf(),
            final(self).executed_watermark == first_gap(
                old(self).log@,
                old(self).executed_watermark as int,
            ),
            final(self).log@ == old(self).log@,
            final(self).index == old(self).index,
            final(self).num_chosen == old(self).num_chosen,
            final(self).options == old(self).options,
            final(self).num_replicas == old(self).num_replicas,
            final(self).current_leader == old(self).current_leader,
            final(self).current_round == old(self).current_round,
            resps_view(out.0@) == (if old(self).index == old(self).current_leader {
                replies_between(
                    old(self).log@,
                    old(self).executed_watermark as int,
                    final(self).executed_watermark as int,
                    old(self).current_leader,
                    old(self).current_round,
                )
            } else {
                Seq::empty()
            }),
            out.1@ == announcements(
                old(self).executed_watermark as int,
                final(self).executed_watermark as int,
                old(self).options.send_chosen_watermark_every_n_entries,
                old(self).num_replicas,
                old(self).index,
            ),
            forall|j: int| 0 <= j < out.1@.len() ==> {
                let w = #[trigger] out.1@[j];
                &&& old(self).executed_watermark < w <= final(self).executed_watermark
                &&& w % old(self).options.send_chosen_watermark_every_n_entries == 0
                &&& (w / old(self).options.send_chosen_watermark_every_n_entries) % old(
                    self,
                ).num_replicas == old(self).index
            },
    {
        let ghost m = self.log@;
        let ghost start = self.executed_watermark as int;
        let ghost is_leader = self.index == self.current_leader;
        let n = self.options.send_chosen_watermark_every_n_entries;
        let mut client_replies: Vec<ProposalResp> = Vec::new();
        let mut watermarks: Vec<u64> = Vec::new();
        proof {
            self.log.lemma_len_fits();
        }
        loop
            invariant
                self.wf(),
                self.log@ == m,
                m == old(self).log@,
                m.entries.len() <= usize::MAX,
                n == self.options.send_chosen_watermark_every_n_entries,
                self.index == old(self).index,
                self.num_chosen == old(self).num_chosen,
                self.options == old(self).options,
                self.num_replicas == old(self).num_replicas,
                self.current_leader == old(self).current_leader,
                self.current_round == old(self).current_round,
                is_leader == (self.index == self.current_leader),
                start == old(self).executed_watermark as int,
                start <= self.executed_watermark,
                first_gap(m, self.executed_watermark as int) == first_gap(m, start),
                resps_view(client_replies@) == (if is_leader {
                    replies_between(
                        m,
                        start,
                        self.executed_watermark as int,
                        self.current_leader,
                        self.current_round,
                    )
                } else {
                    Seq::empty()
                }),
                watermarks@ == announcements(
                    start,
                    self.executed_watermark as int,
                    n,
                    self.num_replicas,
                    self.index,
                ),
            ensures
                self.wf(),
                self.log@ == m,
                self.index == old(self).index,
                self.num_chosen == old(self).num_chosen,
                self.options == old(self).options,
                self.num_replicas == old(self).num_replicas,
                self.current_leader == old(self).current_leader,
                self.current_round == old(self).current_round,
                self.executed_watermark == first_gap(m, start),
                resps_view(client_replies@) == (if is_leader {
                    replies_between(
                        m,
                        start,
                        self.executed_watermark as int,
                        self.current_leader,
                        self.current_round,
                    )
                } else {
                    Seq::empty()
                }),
                watermarks@ == announcements(
                    start,
                    self.executed_watermark as int,
                    n,
                    self.num_replicas,
                    self.index,
                ),
            decreases m.entries.len() - self.executed_watermark,
        {
            let w = self.executed_watermark;
            match self.log.get(w) {
                None => {
                    proof {
                        assert(!filled(m, w as int));
                        assert(first_gap(m, w as int) == w as int);
                        lemma_announcements_exact(start, w as int, n, self.num_replicas, self.index);
                    }
                    return (client_replies, watermarks);
                },
                Some(command_batch_or_noop) => {
                    proof {
                        assert(filled(m, w as int));
                        assert(first_gap(m, w as int) == first_gap(m, w + 1));
                        assert(m.entries[w as int]->0 == command_batch_or_noop@);
                    }
                    if self.index == self.current_leader {
                        match command_batch_or_noop {
                            CommandBatchOrNoop::CommandBatch(command_batch) => {
                                let ghost before = client_replies@;
                                let ghost cs = command_batch@;
                                let mut j: usize = 0;
                                while j < command_batch.len()
                                    invariant
                                        j <= command_batch@.len(),
                                        cs == command_batch@,
                                        resps_view(client_replies@) == resps_view(before)
                                            + slot_replies(
                                            CommandView::Batch(
                                                cs.map_values(|c: Vec<u8>| c@),
                                            ),
                                            self.current_leader,
                                            self.current_round,
                                        ).take(j as int),
                                    decreases command_batch@.len() - j,
                                {
                                    let mut data: Vec<u8> = Vec::new();
                                    put_slice(&mut data, command_batch[j].as_slice());
                                    let r = ProposalResp::with(
                                        data,
                                        self.current_leader,
                                        self.current_round,
                                    );
                                    let ghost prev = client_replies@;
                                    client_replies.push(r);
                                    j = j + 1;
                                    proof {
                                        let full = slot_replies(
                                            CommandView::Batch(cs.map_values(|c: Vec<u8>| c@)),
                                            self.current_leader,
                                            self.current_round,
                                        );
                                        assert(resps_view(client_replies@) =~= resps_view(prev).push(
                                            r@,
                                        ));
                                        assert(full.take(j as int) =~= full.take(j - 1).push(
                                            full[j - 1],
                                        ));
                                    }
                                }
                                proof {
                                    let full = slot_replies(
                                        CommandView::Batch(cs.map_values(|c: Vec<u8>| c@)),
                                        self.current_leader,
                                        self.current_round,
                                    );
                                    assert(full.take(cs.len() as int) =~= full);
                                }
                            },
                            CommandBatchOrNoop::Noop => {
                                proof {
                                    assert(slot_replies(
                                        CommandView::Noop,
                                        self.current_leader,
                                        self.current_round,
                                    ) =~= Seq::<RespView>::empty());
                                    assert(resps_view(client_replies@) =~= resps_view(
                                        client_replies@,
                                    ) + Seq::<RespView>::empty());
                                }
                            },
                        }
                    }
                    self.executed_watermark = w + 1;
                    let modulo = self.executed_watermark % n;
                    let div = self.executed_watermark / n;
                    if modulo == 0 && div % self.num_replicas == self.index {
                        watermarks.push(self.executed_watermark);
                    }
                },
            }
        }
    }

    /// Records a chosen value, executes what it unblocks, and decides the
    /// recovery timer. A slot that already holds a value is left alone and
    /// nothing is sent.
    pub fn handle_chosen(&mut self, chosen: Chosen) -> (out: ChosenOutcome)
        requires
            old(self).wf(),
            old(self).num_chosen < u64::MAX,
            chosen.slot + 1 + old(self).options.log_grow_size <= usize::MAX,
        ensures
            final(self).wf(),
            final(self).index == old(self).index,
            final(self).options == old(self).options,
            final(self).num_replicas == old(self).num_replicas,
            final(self).current_leader == old(self).current_leader,
            final(self).current_round == old(self).current_round,
            final(self).executed_watermark <= final(self).num_chosen,
            old(self).log@.lookup(chosen.slot) is Some ==> {
                &&& final(self).log@ == old(self).log@
                &&& final(self).executed_watermark == old(self).executed_watermark
                &&& final(self).num_chosen == old(self).num_chosen
                &&& out.replies@.len() == 0
                &&& out.chosen_watermarks@.len() == 0
                &&& out.timer == TimerAction::Keep
            },
            old(self).log@.lookup(chosen.slot) is None ==> {
                let m = old(self).log@.put(chosen.slot, chosen.command_batch_or_noop@);
                let w0 = old(self).executed_watermark;
                let w1 = first_gap(m, w0 as int);
                &&& final(self).log@ == m
                &&& final(self).num_chosen == old(self).num_chosen + 1
                &&& final(self).executed_watermark == w1
                &&& resps_view(out.replies@) == (if old(self).index == old(self).current_leader {
                    replies_between(m, w0 as int, w1, old(self).current_leader, old(self).current_round)
                } else {
                    Seq::empty()
                })
                &&& out.chosen_watermarks@ == announcements(
                    w0 as int,
                    w1,
                    old(self).options.send_chosen_watermark_every_n_entries,
                    old(self).num_replicas,
                    old(self).index,
                )
                &&& out.timer == timer_decision(
                    old(self).num_chosen != w0,
                    final(self).num_chosen != w1,
                    w0 != w1,
                )
                &&& (old(self).num_chosen != w0 && final(self).num_chosen != w1 && w0 != w1)
                    ==> out.timer == TimerAction::Reset
                &&& (old(self).num_chosen != w0 && final(self).num_chosen != w1 && w0 == w1)
                    ==> out.timer == TimerAction::Keep
                &&& (old(self).num_chosen != w0 && final(self).num_chosen == w1) ==> out.timer
                    == TimerAction::Stop
                &&& (old(self).num_chosen == w0 && final(self).num_chosen != w1) ==> out.timer
                    == TimerAction::Start
                &&& (old(self).num_chosen == w0 && final(self).num_chosen == w1) ==> out.timer
                    == TimerAction::Keep
            },
            forall|j: int| 0 <= j < out.chosen_watermarks@.len() ==> {
                let w = #[trigger] out.chosen_watermarks@[j];
                &&& old(self).executed_watermark < w <= final(self).executed_watermark
                &&& w % old(self).options.send_chosen_watermark_every_n_entries == 0
                &&& (w / old(self).options.send_chosen_watermark_every_n_entries) % old(
                    self,
                ).num_replicas == old(self).index
            },
    {
        proof {
            self.lemma_executed_within_chosen();
        }
        let is_recover_timer_running = self.num_chosen != self.executed_watermark;
        let old_executed_watermark = self.executed_watermark;
        match self.log.get(chosen.slot) {
            Some(_) => {
                return ChosenOutcome {
                    replies: Vec::new(),
                    chosen_watermarks: Vec::new(),
                    timer: TimerAction::Keep,
                };
            },
            None => {
                let ghost m0 = self.log@;
                proof {
                    lemma_put_chooses(m0, chosen.slot, chosen.command_batch_or_noop@);
                    lemma_chosen_slots_finite(m0);
                }
                self.log.put(chosen.slot, chosen.command_batch_or_noop);
                self.num_chosen = self.num_chosen + 1;
                proof {
                    assert(!chosen_slots(m0).contains(chosen.slot as int));
                    assert(chosen_slots(self.log@).len() == chosen_slots(m0).len() + 1);
                    assert forall|k: int| 0 <= k < self.executed_watermark implies #[trigger] filled(
                        self.log@,
                        k,
                    ) by {
                        assert(filled(m0, k));
                        assert(chosen_slots(m0).contains(k));
                        assert(chosen_slots(self.log@).contains(k));
                    }
                }
            },
        }
        let (replies, chosen_watermarks) = self.execute_log();
        proof {
            self.lemma_executed_within_chosen();
        }
        let should_recover_timer_be_running = self.num_chosen != self.executed_watermark;
        let should_recover_timer_be_reset = old_executed_watermark != self.executed_watermark;
        let timer = if is_recover_timer_running {
            if !should_recover_timer_be_running {
                TimerAction::Stop
            } else if should_recover_timer_be_reset {
                TimerAction::Reset
            } else {
                TimerAction::Keep
            }
        } else if should_recover_timer_be_running {
            TimerAction::Start
        } else {
            TimerAction::Keep
        };
        ChosenOutcome { replies, chosen_watermarks, timer }
    }

    /// The leader election names a new leader.
    pub fn handle_leader(&mut self, leader: u64)
        ensures
            final(self).current_leader == leader,
            final(self).index == old(self).index,
            final(self).log@ == old(self).log@,
            final(self).executed_watermark == old(self).executed_watermark,
            final(self).num_chosen == old(self).num_chosen,
            final(self).options == old(self).options,
            final(self).num_replicas == old(self).num_replicas,
            final(self).current_round == old(self).current_round,
    {
        self.current_leader = leader;
    }
}

} // verus!
