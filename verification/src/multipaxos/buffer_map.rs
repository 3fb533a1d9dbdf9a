//! A log of slots kept in a growable buffer: slot `k` lives at index
//! `k - watermark`, and unwritten slots hold nothing.
use vstd::prelude::*;
use crate::multipaxos::messages::{CommandBatchOrNoop, CommandView};

verus! {

pub struct BufferMap {
    grow_size: usize,
    buffer: Vec<Option<CommandBatchOrNoop>>,
    watermark: u64,
    largest_key: Option<u64>,
}

/// Abstract value of a [`BufferMap`]: the buffer's entries by index.
pub struct BufferMapView {
    pub grow_size: nat,
    pub watermark: u64,
    pub largest_key: Option<u64>,
    pub entries: Seq<Option<CommandView>>,
}

impl BufferMapView {
    /// What the log holds in slot `key`.
    pub open spec fn lookup(self, key: u64) -> Option<CommandView> {
        if key >= self.watermark && key - self.watermark < self.entries.len() {
            self.entries[key - self.watermark]
        } else {
            None
        }
    }

    /// The buffer padded with empty entries up to `len`.
    pub open spec fn padded(self, len: nat) -> BufferMapView {
        let entries = if len <= self.entries.len() {
            self.entries
        } else {
            self.entries + Seq::new((len - self.entries.len()) as nat, |i: int| None::<CommandView>)
        };
        BufferMapView { entries, ..self }
    }

    /// The buffer after writing `value` to slot `key`: a slot past the end first
    /// pads the buffer to `grow_size` entries beyond the slot.
    pub open spec fn put(self, key: u64, value: CommandView) -> BufferMapView {
        let largest = if self.largest_key is Some && self.largest_key->0 > key {
            self.largest_key->0
        } else {
            key
        };
        let entries = if key < self.watermark {
            self.entries
        } else {
            let n = key - self.watermark;
            let padded = if n < self.entries.len() {
                self.entries
            } else {
                self.entries + Seq::new(
                    (n + 1 + self.grow_size - self.entries.len()) as nat,
                    |i: int| None::<CommandView>,
                )
            };
            padded.update(n, Some(value))
        };
        BufferMapView { largest_key: Some(largest), entries, ..self }
    }
}

pub open spec fn entry_view(e: Option<CommandBatchOrNoop>) -> Option<CommandView> {
    match e {
        Some(c) => Some(c@),
        None => None,
    }
}

impl View for BufferMap {
    type V = BufferMapView;

    closed spec fn view(&self) -> BufferMapView {
        BufferMapView {
            grow_size: self.grow_size as nat,
            watermark: self.watermark,
            largest_key: self.largest_key,
            entries: self.buffer@.map_values(|e: Option<CommandBatchOrNoop>| entry_view(e)),
        }
    }
}

impl BufferMap {
    /// An empty log that grows `grow_size` slots past each write beyond its end.
    pub fn with(grow_size: usize) -> (b: Self)
        ensures
            b@.grow_size == grow_size,
            b@.watermark == 0,
            b@.largest_key is None,
            b@.entries.len() == 0,
    {
        let b = BufferMap { grow_size, buffer: Vec::new(), watermark: 0, largest_key: None };
        assert(b@.entries =~= Seq::<Option<CommandView>>::empty());
        b
    }

    /// The buffer index of slot `key`, or `None` below the watermark.
    pub fn normalize(&self, key: u64) -> (n: Option<u64>)
        ensures
            key >= self@.watermark ==> n == Some((key - self@.watermark) as u64),
            key < self@.watermark ==> n is None,
    {
        if key >= self.watermark {
            Some(key - self.watermark)
        } else {
            None
        }
    }

    /// Fills the buffer with empty entries up to `len`.
    pub fn pad(&mut self, len: usize)
        ensures
            final(self)@.grow_size == old(self)@.grow_size,
            final(self)@.watermark == old(self)@.watermark,
            final(self)@.largest_key == old(self)@.largest_key,
            final(self)@.entries.len() >= len,
            final(self)@ == old(self)@.padded(len as nat),
            final(self)@.entries == (if len <= old(self)@.entries.len() {
                old(self)@.entries
            } else {
                old(self)@.entries + Seq::new(
                    (len - old(self)@.entries.len()) as nat,
                    |i: int| None::<CommandView>,
                )
            }),
    {
        let ghost f = |e: Option<CommandBatchOrNoop>| entry_view(e);
        let ghost start = self.buffer@.map_values(f);
        while self.buffer.len() < len
            invariant
                self.grow_size == old(self).grow_size,
                self.watermark == old(self).watermark,
                self.largest_key == old(self).largest_key,
                f == (|e: Option<CommandBatchOrNoop>| entry_view(e)),
                start == old(self).buffer@.map_values(f),
                old(self).buffer@.len() <= self.buffer@.len(),
                len > old(self).buffer@.len() ==> self.buffer@.len() <= len,
                len <= old(self).buffer@.len() ==> self.buffer@.len() == old(self).buffer@.len(),
                self.buffer@.map_values(f) == start + Seq::new(
                    (self.buffer@.len() - old(self).buffer@.len()) as nat,
                    |i: int| None::<CommandView>,
                ),
            decreases len - self.buffer@.len(),
        {
            let ghost before = self.buffer@;
            self.buffer.push(None);
            proof {
                assert(self.buffer@.map_values(f) =~= before.map_values(f).push(None));
                assert(self.buffer@.map_values(f) =~= start + Seq::new(
                    (self.buffer@.len() - old(self).buffer@.len()) as nat,
                    |i: int| None::<CommandView>,
                ));
            }
        }
        proof {
            if len <= old(self).buffer@.len() {
                assert(start + Seq::new(0, |i: int| None::<CommandView>) =~= start);
            }
        }
    }

    /// The buffer never holds more entries than a `usize` counts.
    pub proof fn lemma_len_fits(&self)
        ensures
            self@.entries.len() <= usize::MAX,
    {
        assert(self.buffer.len() == self.buffer@.len());
    }

    /// What the log holds in slot `key`.
    pub fn get(&self, key: u64) -> (v: Option<CommandBatchOrNoop>)
        ensures
            entry_view(v) == self@.lookup(key),
    {
        match self.normalize(key) {
            Some(normalized) => {
                if normalized >= self.buffer.len() as u64 {
                    None
                } else {
                    let i = normalized as usize;
                    proof {
                        assert(self@.entries[i as int] == entry_view(self.buffer@[i as int]));
                    }
                    match &self.buffer[i] {
                        Some(c) => Some(c.copy()),
                        None => None,
                    }
                }
            },
            None => None,
        }
    }

    /// Writes `value` to slot `key`, growing the buffer where the slot lies past
    /// its end; a slot below the watermark is not written.
    pub fn put(&mut self, key: u64, value: CommandBatchOrNoop)
        requires
            key >= old(self)@.watermark ==> key - old(self)@.watermark + 1 + old(self)@.grow_size
                <= usize::MAX,
        ensures
            final(self)@ == old(self)@.put(key, value@),
    {
        let prev = match self.largest_key {
            Some(l) => l,
            None => 0,
        };
        self.largest_key = Some(if prev > key { prev } else { key });
        let ghost f = |e: Option<CommandBatchOrNoop>| entry_view(e);
        let ghost vv = value@;
        match self.normalize(key) {
            Some(normalized) => {
                if normalized >= self.buffer.len() as u64 {
                    let target = normalized as usize + 1 + self.grow_size;
                    self.pad(target);
                }
                assert(self@.entries.len() == self.buffer@.len());
                let i = normalized as usize;
                let ghost before = self.buffer@;
                self.buffer.set(i, Some(value));
                proof {
                    assert(self.buffer@ == before.update(i as int, Some(value)));
                    assert(self.buffer@.map_values(f) =~= before.map_values(f).update(
                        i as int,
                        Some(vv),
                    ));
                }
            },
            None => {},
        }
    }
}

/// Reading a slot at or above the watermark gives what was last written to it,
/// and writing one slot leaves every other slot as it was.
pub proof fn lemma_get_after_put(m: BufferMapView, key: u64, value: CommandView, other: u64)
    ensures
        key >= m.watermark ==> m.put(key, value).lookup(key) == Some(value),
        key < m.watermark ==> m.put(key, value).lookup(key) == m.lookup(key),
        other != key ==> m.put(key, value).lookup(other) == m.lookup(other),
{
}

/// A log of grow size `g` that nothing was written to yet.
pub open spec fn empty_log(g: nat) -> BufferMapView {
    BufferMapView { grow_size: g, watermark: 0, largest_key: None, entries: Seq::empty() }
}

/// A call that changes a log: a write of a value to a slot, or padding the
/// buffer to a length.
pub enum LogOp {
    Put(u64, CommandView),
    Pad(nat),
}

/// The log after one call.
pub open spec fn apply_op(m: BufferMapView, op: LogOp) -> BufferMapView {
    match op {
        LogOp::Put(k, v) => m.put(k, v),
        LogOp::Pad(len) => m.padded(len),
    }
}

/// The log after the calls `ops`, in their order.
pub open spec fn apply_all(m: BufferMapView, ops: Seq<LogOp>) -> BufferMapView
    decreases ops.len(),
{
    if ops.len() == 0 {
        m
    } else {
        apply_op(apply_all(m, ops.drop_last()), ops.last())
    }
}

/// The value last written to slot `key` by the calls `ops`.
pub open spec fn last_write(ops: Seq<LogOp>, key: u64) -> Option<CommandView>
    decreases ops.len(),
{
    if ops.len() == 0 {
        None
    } else {
        match ops.last() {
            LogOp::Put(k, v) => if k == key {
                Some(v)
            } else {
                last_write(ops.drop_last(), key)
            },
            LogOp::Pad(_) => last_write(ops.drop_last(), key),
        }
    }
}

/// No call moves the watermark: a log made by `with` keeps watermark 0
/// through any writes and paddings, so every slot is its own buffer index,
/// and every slot reads what was last written to it (nothing where it was
/// never written).
pub proof fn lemma_log_reads_last_write(g: nat, ops: Seq<LogOp>)
    ensures
        apply_all(empty_log(g), ops).watermark == 0,
        forall|key: u64| #[trigger] apply_all(empty_log(g), ops).lookup(key) == last_write(ops, key),
    decreases ops.len(),
{
    if ops.len() > 0 {
        lemma_log_reads_last_write(g, ops.drop_last());
        let m = apply_all(empty_log(g), ops.drop_last());
        assert forall|key: u64| #[trigger] apply_all(empty_log(g), ops).lookup(key) == last_write(ops, key) by {
            match ops.last() {
                LogOp::Put(k, v) => {
                    lemma_get_after_put(m, k, v, key);
                },
                LogOp::Pad(len) => {
                    let m2 = m.padded(len);
                    if key < m.entries.len() {
                        assert(m2.entries[key as int] == m.entries[key as int]);
                    }
                },
            }
        }
    }
}

} // verus!
