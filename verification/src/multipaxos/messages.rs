//! The messages of the Multi-Paxos roles and their abstract values.
use vstd::prelude::*;
use crate::abcast::messages::{Proposal, proposals_view};
use crate::multipaxos::round_robin::Round;
use crate::wire::{blobs_view, put_slice};

verus! {

/// The payload of one client command.
pub type ProposalType = Vec<u8>;

#[derive(Clone, Copy)]
pub struct Phase1a {
    pub src: u64,
    pub round: u64,
    pub chosen_watermark: u64,
}

/// What a slot of the log holds: a batch of client commands or a no-op.
pub enum CommandBatchOrNoop {
    CommandBatch(Vec<ProposalType>),
    Noop,
}

/// Abstract value of a [`CommandBatchOrNoop`].
pub enum CommandView {
    Batch(Seq<Seq<u8>>),
    Noop,
}

impl View for CommandBatchOrNoop {
    type V = CommandView;

    open spec fn view(&self) -> CommandView {
        match self {
            CommandBatchOrNoop::CommandBatch(v) => CommandView::Batch(blobs_view(v@)),
            CommandBatchOrNoop::Noop => CommandView::Noop,
        }
    }
}

impl CommandBatchOrNoop {
    /// A copy with the same commands.
    pub fn copy(&self) -> (c: CommandBatchOrNoop)
        ensures
            c@ == self@,
    {
        match self {
            CommandBatchOrNoop::CommandBatch(v) => {
                let mut out: Vec<Vec<u8>> = Vec::new();
                let mut i: usize = 0;
                while i < v.len()
                    invariant
                        i <= v@.len(),
                        blobs_view(out@) =~= blobs_view(v@).take(i as int),
                    decreases v@.len() - i,
                {
                    let mut c: Vec<u8> = Vec::new();
                    put_slice(&mut c, v[i].as_slice());
                    let ghost old_out = out@;
                    out.push(c);
                    i = i + 1;
                    proof {
                        assert(blobs_view(out@) =~= blobs_view(old_out).push(c@));
                        assert(blobs_view(out@) =~= blobs_view(v@).take(i as int));
                    }
                }
                proof {
                    assert(blobs_view(v@).take(v@.len() as int) =~= blobs_view(v@));
                }
                CommandBatchOrNoop::CommandBatch(out)
            },
            CommandBatchOrNoop::Noop => CommandBatchOrNoop::Noop,
        }
    }
}

pub struct Phase1bSlotInfo {
    pub slot: u64,
    pub vote_round: u64,
    pub vote_value: CommandBatchOrNoop,
}

/// Abstract value of a [`Phase1bSlotInfo`].
pub struct SlotInfoView {
    pub slot: u64,
    pub vote_round: u64,
    pub vote_value: CommandView,
}

impl View for Phase1bSlotInfo {
    type V = SlotInfoView;

    open spec fn view(&self) -> SlotInfoView {
        SlotInfoView { slot: self.slot, vote_round: self.vote_round, vote_value: self.vote_value@ }
    }
}

impl Phase1bSlotInfo {
    pub fn copy(&self) -> (c: Phase1bSlotInfo)
        ensures
            c@ == self@,
    {
        Phase1bSlotInfo {
            slot: self.slot,
            vote_round: self.vote_round,
            vote_value: self.vote_value.copy(),
        }
    }
}

/// The abstract values of a sequence of slot infos.
pub open spec fn infos_view(v: Seq<Phase1bSlotInfo>) -> Seq<SlotInfoView> {
    v.map_values(|x: Phase1bSlotInfo| x@)
}

pub struct Phase1b {
    pub acceptor_index: u64,
    pub round: u64,
    pub info: Vec<Phase1bSlotInfo>,
}

/// Abstract value of a [`Phase1b`].
pub struct Phase1bView {
    pub acceptor_index: u64,
    pub round: u64,
    pub info: Seq<SlotInfoView>,
}

impl View for Phase1b {
    type V = Phase1bView;

    open spec fn view(&self) -> Phase1bView {
        Phase1bView {
            acceptor_index: self.acceptor_index,
            round: self.round,
            info: infos_view(self.info@),
        }
    }
}

impl Phase1b {
    /// A copy reporting the same votes.
    pub fn copy(&self) -> (c: Phase1b)
        ensures
            c@ == self@,
    {
        let mut info: Vec<Phase1bSlotInfo> = Vec::new();
        let mut i: usize = 0;
        while i < self.info.len()
            invariant
                i <= self.info@.len(),
                infos_view(info@) =~= infos_view(self.info@).take(i as int),
            decreases self.info@.len() - i,
        {
            let x = self.info[i].copy();
            let ghost before = info@;
            info.push(x);
            i = i + 1;
            proof {
                assert(infos_view(info@) =~= infos_view(before).push(x@));
            }
        }
        proof {
            assert(infos_view(self.info@).take(self.info@.len() as int) =~= infos_view(self.info@));
        }
        Phase1b { acceptor_index: self.acceptor_index, round: self.round, info }
    }
}

pub struct Phase2a {
    pub src: u64,
    pub slot: u64,
    pub round: u64,
    pub command_batch_or_noop: CommandBatchOrNoop,
}

/// Abstract value of a [`Phase2a`].
pub struct Phase2aView {
    pub src: u64,
    pub slot: u64,
    pub round: u64,
    pub value: CommandView,
}

impl View for Phase2a {
    type V = Phase2aView;

    open spec fn view(&self) -> Phase2aView {
        Phase2aView {
            src: self.src,
            slot: self.slot,
            round: self.round,
            value: self.command_batch_or_noop@,
        }
    }
}

impl Phase2a {
    pub fn copy(&self) -> (c: Phase2a)
        ensures
            c@ == self@,
    {
        Phase2a {
            src: self.src,
            slot: self.slot,
            round: self.round,
            command_batch_or_noop: self.command_batch_or_noop.copy(),
        }
    }
}

#[derive(Clone, Copy)]
pub struct Phase2b {
    pub acceptor_index: u64,
    pub slot: u64,
    pub round: u64,
}

pub struct Chosen {
    pub slot: u64,
    pub command_batch_or_noop: CommandBatchOrNoop,
}

/// Abstract value of a [`Chosen`].
pub struct ChosenView {
    pub slot: u64,
    pub value: CommandView,
}

impl View for Chosen {
    type V = ChosenView;

    open spec fn view(&self) -> ChosenView {
        ChosenView { slot: self.slot, value: self.command_batch_or_noop@ }
    }
}

#[derive(Clone, Copy)]
pub struct Nack {
    pub round: u64,
}

#[derive(Clone, Copy)]
pub struct ChosenWatermark {
    pub slot: u64,
}

#[derive(Clone, Copy)]
pub struct Recover {
    pub slot: u64,
}

pub enum ProxyLeaderInbound {
    Phase2a(Phase2a),
    Phase2b(Phase2b),
}

pub enum ProxyLeaderInboundView {
    Phase2a(Phase2aView),
    Phase2b(Phase2b),
}

impl View for ProxyLeaderInbound {
    type V = ProxyLeaderInboundView;

    open spec fn view(&self) -> ProxyLeaderInboundView {
        match self {
            ProxyLeaderInbound::Phase2a(p) => ProxyLeaderInboundView::Phase2a(p@),
            ProxyLeaderInbound::Phase2b(p) => ProxyLeaderInboundView::Phase2b(*p),
        }
    }
}

pub enum LeaderInbound {
    Phase1b(Phase1b),
    Nack(Nack),
    ChosenWatermark(ChosenWatermark),
    Recover(Recover),
    ClientRequestBatch(Vec<Proposal>),
    LeaderInfoRequestBatcher(u64),
}

pub enum LeaderInboundView {
    Phase1b(Phase1bView),
    Nack(Nack),
    ChosenWatermark(ChosenWatermark),
    Recover(Recover),
    ClientRequestBatch(Seq<Seq<u8>>),
    LeaderInfoRequestBatcher(u64),
}

impl View for LeaderInbound {
    type V = LeaderInboundView;

    open spec fn view(&self) -> LeaderInboundView {
        match self {
            LeaderInbound::Phase1b(p) => LeaderInboundView::Phase1b(p@),
            LeaderInbound::Nack(n) => LeaderInboundView::Nack(*n),
            LeaderInbound::ChosenWatermark(c) => LeaderInboundView::ChosenWatermark(*c),
            LeaderInbound::Recover(r) => LeaderInboundView::Recover(*r),
            LeaderInbound::ClientRequestBatch(ps) => LeaderInboundView::ClientRequestBatch(
                proposals_view(ps@),
            ),
            LeaderInbound::LeaderInfoRequestBatcher(src) => LeaderInboundView::LeaderInfoRequestBatcher(
                *src,
            ),
        }
    }
}

pub enum AcceptorInbound {
    Phase1a(Phase1a),
    Phase2a(Phase2a),
}

pub enum AcceptorInboundView {
    Phase1a(Phase1a),
    Phase2a(Phase2aView),
}

impl View for AcceptorInbound {
    type V = AcceptorInboundView;

    open spec fn view(&self) -> AcceptorInboundView {
        match self {
            AcceptorInbound::Phase1a(p) => AcceptorInboundView::Phase1a(*p),
            AcceptorInbound::Phase2a(p) => AcceptorInboundView::Phase2a(p@),
        }
    }
}

pub enum ReplicaInbound {
    Chosen(Chosen),
}

pub enum ReplicaInboundView {
    Chosen(ChosenView),
}

impl View for ReplicaInbound {
    type V = ReplicaInboundView;

    open spec fn view(&self) -> ReplicaInboundView {
        match self {
            ReplicaInbound::Chosen(c) => ReplicaInboundView::Chosen(c@),
        }
    }
}

pub enum BatcherInbound {
    NotLeaderBatcher(Vec<Proposal>),
    LeaderInfoReplyBatcher(Round),
}

pub enum BatcherInboundView {
    NotLeaderBatcher(Seq<Seq<u8>>),
    LeaderInfoReplyBatcher(u64),
}

impl View for BatcherInbound {
    type V = BatcherInboundView;

    open spec fn view(&self) -> BatcherInboundView {
        match self {
            BatcherInbound::NotLeaderBatcher(ps) => BatcherInboundView::NotLeaderBatcher(
                proposals_view(ps@),
            ),
            BatcherInbound::LeaderInfoReplyBatcher(r) => BatcherInboundView::LeaderInfoReplyBatcher(
                *r,
            ),
        }
    }
}

} // verus!
