//! Big-endian wire primitives shared by every message format: the bytes that
//! a value becomes, a reader over a received buffer, and the list framing.
use vstd::prelude::*;

verus! {

broadcast use vstd::seq::Seq::lemma_flatten_push;

/// A received message that could not be read.
#[derive(Debug)]
pub enum SerError {
    /// The message tag (or a tag inside it) names no known variant.
    InvalidType(u8),
}

/// The four bytes of `x`, most significant first.
pub open spec fn u32_bytes(x: u32) -> Seq<u8> {
    seq![(x >> 24u32) as u8, (x >> 16u32) as u8, (x >> 8u32) as u8, x as u8]
}

/// The eight bytes of `x`, most significant first.
pub open spec fn u64_bytes(x: u64) -> Seq<u8> {
    seq![
        (x >> 56u64) as u8,
        (x >> 48u64) as u8,
        (x >> 40u64) as u8,
        (x >> 32u64) as u8,
        (x >> 24u64) as u8,
        (x >> 16u64) as u8,
        (x >> 8u64) as u8,
        x as u8,
    ]
}

/// The `u32` whose big-endian bytes are `b0 b1 b2 b3`.
pub open spec fn u32_of(b0: u8, b1: u8, b2: u8, b3: u8) -> u32 {
    ((b0 as u32) << 24u32) | ((b1 as u32) << 16u32) | ((b2 as u32) << 8u32) | (b3 as u32)
}

/// The `u64` whose big-endian bytes are `b0 .. b7`.
pub open spec fn u64_of(b0: u8, b1: u8, b2: u8, b3: u8, b4: u8, b5: u8, b6: u8, b7: u8) -> u64 {
    ((b0 as u64) << 56u64) | ((b1 as u64) << 48u64) | ((b2 as u64) << 40u64) | ((b3 as u64)
        << 32u64) | ((b4 as u64) << 24u64) | ((b5 as u64) << 16u64) | ((b6 as u64) << 8u64) | (
    b7 as u64)
}

/// Reads one byte from the front of `s`.
pub open spec fn take_u8(s: Seq<u8>) -> Option<(u8, Seq<u8>)> {
    if s.len() >= 1 {
        Some((s[0], s.skip(1)))
    } else {
        None
    }
}

/// Reads a big-endian `u32` from the front of `s`.
pub open spec fn take_u32(s: Seq<u8>) -> Option<(u32, Seq<u8>)> {
    if s.len() >= 4 {
        Some((u32_of(s[0], s[1], s[2], s[3]), s.skip(4)))
    } else {
        None
    }
}

/// Reads a big-endian `u64` from the front of `s`.
pub open spec fn take_u64(s: Seq<u8>) -> Option<(u64, Seq<u8>)> {
    if s.len() >= 8 {
        Some((u64_of(s[0], s[1], s[2], s[3], s[4], s[5], s[6], s[7]), s.skip(8)))
    } else {
        None
    }
}

/// Reads `n` raw bytes from the front of `s`.
pub open spec fn take_bytes(s: Seq<u8>, n: nat) -> Option<(Seq<u8>, Seq<u8>)> {
    if s.len() >= n {
        Some((s.take(n as int), s.skip(n as int)))
    } else {
        None
    }
}

/// A length-prefixed byte string: its length as a `u32`, then its bytes.
pub open spec fn blob_bytes(b: Seq<u8>) -> Seq<u8> {
    u32_bytes(b.len() as u32) + b
}

/// Reads a length-prefixed byte string.
pub open spec fn take_blob(s: Seq<u8>) -> Option<(Seq<u8>, Seq<u8>)> {
    match take_u32(s) {
        Some((n, s1)) => take_bytes(s1, n as nat),
        None => None,
    }
}

/// The bytes of the items of `xs` one after another, each written by `f`.
pub open spec fn concat_map<T>(xs: Seq<T>, f: spec_fn(T) -> Seq<u8>) -> Seq<u8> {
    xs.map_values(f).flatten()
}

/// Reads `n` items one after another with the item reader `p`.
pub open spec fn take_many<T>(
    n: nat,
    s: Seq<u8>,
    p: spec_fn(Seq<u8>) -> Option<(T, Seq<u8>)>,
) -> Option<(Seq<T>, Seq<u8>)>
    decreases n,
{
    if n == 0 {
        Some((Seq::empty(), s))
    } else {
        match p(s) {
            Some((x, s1)) => match take_many((n - 1) as nat, s1, p) {
                Some((xs, s2)) => Some((seq![x] + xs, s2)),
                None => None,
            },
            None => None,
        }
    }
}

/// A list of items: its length as a `u32`, then each item written by `f`.
pub open spec fn list_bytes<T>(xs: Seq<T>, f: spec_fn(T) -> Seq<u8>) -> Seq<u8> {
    u32_bytes(xs.len() as u32) + concat_map(xs, f)
}

/// Reads a `u32`-counted list of items with the item reader `p`.
pub open spec fn take_list<T>(s: Seq<u8>, p: spec_fn(Seq<u8>) -> Option<(T, Seq<u8>)>) -> Option<
    (Seq<T>, Seq<u8>),
> {
    match take_u32(s) {
        Some((n, s1)) => take_many(n as nat, s1, p),
        None => None,
    }
}

pub open spec fn u64_item(x: u64) -> Seq<u8> {
    u64_bytes(x)
}

pub open spec fn take_u64_item(s: Seq<u8>) -> Option<(u64, Seq<u8>)> {
    take_u64(s)
}

pub open spec fn blob_item(b: Seq<u8>) -> Seq<u8> {
    blob_bytes(b)
}

pub open spec fn take_blob_item(s: Seq<u8>) -> Option<(Seq<u8>, Seq<u8>)> {
    take_blob(s)
}

pub proof fn lemma_u32_of_bytes(x: u32)
    ensures
        u32_of((x >> 24u32) as u8, (x >> 16u32) as u8, (x >> 8u32) as u8, x as u8) == x,
{
    assert(u32_of((x >> 24u32) as u8, (x >> 16u32) as u8, (x >> 8u32) as u8, x as u8) == x)
        by (bit_vector);
}

pub proof fn lemma_u64_of_bytes(x: u64)
    ensures
        u64_of(
            (x >> 56u64) as u8,
            (x >> 48u64) as u8,
            (x >> 40u64) as u8,
            (x >> 32u64) as u8,
            (x >> 24u64) as u8,
            (x >> 16u64) as u8,
            (x >> 8u64) as u8,
            x as u8,
        ) == x,
{
    assert(u64_of(
        (x >> 56u64) as u8,
        (x >> 48u64) as u8,
        (x >> 40u64) as u8,
        (x >> 32u64) as u8,
        (x >> 24u64) as u8,
        (x >> 16u64) as u8,
        (x >> 8u64) as u8,
        x as u8,
    ) == x) by (bit_vector);
}

pub proof fn lemma_take_u8(x: u8, rest: Seq<u8>)
    ensures
        take_u8(seq![x] + rest) == Some((x, rest)),
{
    assert((seq![x] + rest).skip(1) =~= rest);
}

pub proof fn lemma_take_u32(x: u32, rest: Seq<u8>)
    ensures
        take_u32(u32_bytes(x) + rest) == Some((x, rest)),
{
    lemma_u32_of_bytes(x);
    assert((u32_bytes(x) + rest).skip(4) =~= rest);
}

pub proof fn lemma_take_u64(x: u64, rest: Seq<u8>)
    ensures
        take_u64(u64_bytes(x) + rest) == Some((x, rest)),
{
    lemma_u64_of_bytes(x);
    assert((u64_bytes(x) + rest).skip(8) =~= rest);
}

pub proof fn lemma_take_blob(b: Seq<u8>, rest: Seq<u8>)
    requires
        b.len() <= u32::MAX,
    ensures
        take_blob(blob_bytes(b) + rest) == Some((b, rest)),
{
    assert(blob_bytes(b) + rest =~= u32_bytes(b.len() as u32) + (b + rest));
    lemma_take_u32(b.len() as u32, b + rest);
    assert((b + rest).take(b.len() as int) =~= b);
    assert((b + rest).skip(b.len() as int) =~= rest);
}

/// Reading `n` items back from the bytes written for them gives the items.
pub proof fn lemma_take_many<T>(
    xs: Seq<T>,
    rest: Seq<u8>,
    f: spec_fn(T) -> Seq<u8>,
    p: spec_fn(Seq<u8>) -> Option<(T, Seq<u8>)>,
)
    requires
        forall|i: int, r: Seq<u8>| 0 <= i < xs.len() ==> #[trigger] p(f(xs[i]) + r) == Some((xs[i], r)),
    ensures
        take_many(xs.len(), concat_map(xs, f) + rest, p) == Some((xs, rest)),
    decreases xs.len(),
{
    if xs.len() == 0 {
        assert(concat_map(xs, f) + rest =~= rest);
    } else {
        let tail = xs.drop_first();
        assert(xs.map_values(f).drop_first() =~= tail.map_values(f));
        assert(concat_map(xs, f) == f(xs[0]) + concat_map(tail, f));
        assert(concat_map(xs, f) + rest =~= f(xs[0]) + (concat_map(tail, f) + rest));
        assert(p(f(xs[0]) + (concat_map(tail, f) + rest)) == Some((xs[0], concat_map(tail, f) + rest)));
        assert forall|i: int, r: Seq<u8>| 0 <= i < tail.len() implies #[trigger] p(f(tail[i]) + r) == Some((tail[i], r)) by {
            assert(tail[i] == xs[i + 1]);
        }
        lemma_take_many(tail, rest, f, p);
        assert(seq![xs[0]] + tail =~= xs);
    }
}

/// A `u32`-counted list reads back as itself.
pub proof fn lemma_take_list<T>(
    xs: Seq<T>,
    rest: Seq<u8>,
    f: spec_fn(T) -> Seq<u8>,
    p: spec_fn(Seq<u8>) -> Option<(T, Seq<u8>)>,
)
    requires
        xs.len() <= u32::MAX,
        forall|i: int, r: Seq<u8>| 0 <= i < xs.len() ==> #[trigger] p(f(xs[i]) + r) == Some((xs[i], r)),
    ensures
        take_list(list_bytes(xs, f) + rest, p) == Some((xs, rest)),
{
    assert(list_bytes(xs, f) + rest =~= u32_bytes(xs.len() as u32) + (concat_map(xs, f) + rest));
    lemma_take_u32(xs.len() as u32, concat_map(xs, f) + rest);
    lemma_take_many(xs, rest, f, p);
}

/// Unfolds one step of `take_many`.
pub proof fn lemma_take_many_step<T>(
    n: nat,
    s: Seq<u8>,
    p: spec_fn(Seq<u8>) -> Option<(T, Seq<u8>)>,
)
    requires
        n > 0,
        take_many(n, s, p) is Some,
    ensures
        p(s) is Some,
        take_many((n - 1) as nat, p(s).unwrap().1, p) is Some,
        take_many(n, s, p).unwrap().0 == seq![p(s).unwrap().0] + take_many((n - 1) as nat, p(s).unwrap().1, p).unwrap().0,
        take_many(n, s, p).unwrap().1 == take_many((n - 1) as nat, p(s).unwrap().1, p).unwrap().1,
        take_many(n, s, p).unwrap().0.len() == n,
{
    lemma_take_many_len(n, s, p);
}

pub proof fn lemma_take_many_len<T>(
    n: nat,
    s: Seq<u8>,
    p: spec_fn(Seq<u8>) -> Option<(T, Seq<u8>)>,
)
    requires
        take_many(n, s, p) is Some,
    ensures
        take_many(n, s, p).unwrap().0.len() == n,
    decreases n,
{
    if n > 0 {
        let s1 = p(s).unwrap().1;
        lemma_take_many_len((n - 1) as nat, s1, p);
    }
}

/// `concat_map` over a sequence extended by one item.
pub proof fn lemma_concat_map_push<T>(xs: Seq<T>, x: T, f: spec_fn(T) -> Seq<u8>)
    ensures
        concat_map(xs.push(x), f) == concat_map(xs, f) + f(x),
{
    assert(xs.push(x).map_values(f) =~= xs.map_values(f).push(f(x)));
}

/// A reader over a received buffer: `data[pos..]` is what is left to read.
pub struct Reader<'a> {
    pub data: &'a [u8],
    pub pos: usize,
}

impl<'a> Reader<'a> {
    pub open spec fn wf(&self) -> bool {
        self.pos <= self.data@.len()
    }

    /// The bytes not yet read.
    pub open spec fn rest(&self) -> Seq<u8> {
        self.data@.skip(self.pos as int)
    }

    /// A reader positioned at the start of `data`.
    pub fn new(data: &'a [u8]) -> (r: Self)
        ensures
            r.wf(),
            r.rest() == data@,
            r.data == data,
    {
        let r = Reader { data, pos: 0 };
        assert(r.rest() =~= data@);
        r
    }

    /// Number of bytes left.
    pub fn remaining(&self) -> (n: usize)
        requires
            self.wf(),
        ensures
            n == self.rest().len(),
    {
        self.data.len() - self.pos
    }

    pub fn get_u8(&mut self) -> (x: u8)
        requires
            old(self).wf(),
            old(self).rest().len() >= 1,
        ensures
            final(self).wf(),
            final(self).data == old(self).data,
            take_u8(old(self).rest()) == Some((x, final(self).rest())),
    {
        let x = self.data[self.pos];
        self.pos = self.pos + 1;
        assert(old(self).rest().skip(1) =~= self.rest());
        x
    }

    pub fn get_u32(&mut self) -> (x: u32)
        requires
            old(self).wf(),
            old(self).rest().len() >= 4,
        ensures
            final(self).wf(),
            final(self).data == old(self).data,
            take_u32(old(self).rest()) == Some((x, final(self).rest())),
    {
        let p = self.pos;
        let b0 = self.data[p];
        let b1 = self.data[p + 1];
        let b2 = self.data[p + 2];
        let b3 = self.data[p + 3];
        self.pos = p + 4;
        assert(old(self).rest().skip(4) =~= self.rest());
        ((b0 as u32) << 24u32) | ((b1 as u32) << 16u32) | ((b2 as u32) << 8u32) | (b3 as u32)
    }

    pub fn get_u64(&mut self) -> (x: u64)
        requires
            old(self).wf(),
            old(self).rest().len() >= 8,
        ensures
            final(self).wf(),
            final(self).data == old(self).data,
            take_u64(old(self).rest()) == Some((x, final(self).rest())),
    {
        let p = self.pos;
        let b0 = self.data[p];
        let b1 = self.data[p + 1];
        let b2 = self.data[p + 2];
        let b3 = self.data[p + 3];
        let b4 = self.data[p + 4];
        let b5 = self.data[p + 5];
        let b6 = self.data[p + 6];
        let b7 = self.data[p + 7];
        self.pos = p + 8;
        assert(old(self).rest().skip(8) =~= self.rest());
        ((b0 as u64) << 56u64) | ((b1 as u64) << 48u64) | ((b2 as u64) << 40u64) | ((b3 as u64)
            << 32u64) | ((b4 as u64) << 24u64) | ((b5 as u64) << 16u64) | ((b6 as u64) << 8u64)
            | (b7 as u64)
    }

    /// Copies the next `n` bytes out.
    pub fn get_bytes(&mut self, n: usize) -> (v: Vec<u8>)
        requires
            old(self).wf(),
            old(self).rest().len() >= n,
        ensures
            final(self).wf(),
            final(self).data == old(self).data,
            take_bytes(old(self).rest(), n as nat) == Some((v@, final(self).rest())),
    {
        let mut v: Vec<u8> = Vec::new();
        let start = self.pos;
        assert(old(self).rest().len() == self.data@.len() - start);
        let len = self.data.len();
        let mut i: usize = 0;
        while i < n
            invariant
                self.data == old(self).data,
                self.pos == start,
                start == old(self).pos,
                old(self).wf(),
                old(self).rest().len() >= n,
                start + n <= self.data@.len(),
                len == self.data@.len(),
                i <= n,
                v@ =~= old(self).rest().take(i as int),
            decreases n - i,
        {
            v.push(self.data[start + i]);
            i = i + 1;
        }
        self.pos = start + n;
        assert(old(self).rest().skip(n as int) =~= self.rest());
        v
    }

    /// Reads a length-prefixed byte string.
    pub fn get_blob(&mut self) -> (v: Vec<u8>)
        requires
            old(self).wf(),
            take_blob(old(self).rest()) is Some,
        ensures
            final(self).wf(),
            final(self).data == old(self).data,
            take_blob(old(self).rest()) == Some((v@, final(self).rest())),
    {
        let n = self.get_u32();
        self.get_bytes(n as usize)
    }
}

/// Appends one byte.
pub fn put_u8(buf: &mut Vec<u8>, x: u8)
    ensures
        final(buf)@ == old(buf)@ + seq![x],
{
    buf.push(x);
}

/// Appends a big-endian `u32`.
pub fn put_u32(buf: &mut Vec<u8>, x: u32)
    ensures
        final(buf)@ == old(buf)@ + u32_bytes(x),
{
    buf.push((x >> 24u32) as u8);
    buf.push((x >> 16u32) as u8);
    buf.push((x >> 8u32) as u8);
    buf.push(x as u8);
    assert(buf@ =~= old(buf)@ + u32_bytes(x));
}

/// Appends a big-endian `u64`.
pub fn put_u64(buf: &mut Vec<u8>, x: u64)
    ensures
        final(buf)@ == old(buf)@ + u64_bytes(x),
{
    buf.push((x >> 56u64) as u8);
    buf.push((x >> 48u64) as u8);
    buf.push((x >> 40u64) as u8);
    buf.push((x >> 32u64) as u8);
    buf.push((x >> 24u64) as u8);
    buf.push((x >> 16u64) as u8);
    buf.push((x >> 8u64) as u8);
    buf.push(x as u8);
    assert(buf@ =~= old(buf)@ + u64_bytes(x));
}

/// Appends raw bytes.
pub fn put_slice(buf: &mut Vec<u8>, data: &[u8])
    ensures
        final(buf)@ == old(buf)@ + data@,
{
    let mut i: usize = 0;
    while i < data.len()
        invariant
            i <= data@.len(),
            buf@ =~= old(buf)@ + data@.take(i as int),
        decreases data@.len() - i,
    {
        buf.push(data[i]);
        i = i + 1;
    }
    assert(data@.take(data@.len() as int) =~= data@);
}

/// Appends a length-prefixed byte string.
pub fn put_blob(buf: &mut Vec<u8>, data: &[u8])
    requires
        data@.len() <= u32::MAX,
    ensures
        final(buf)@ == old(buf)@ + blob_bytes(data@),
{
    put_u32(buf, data.len() as u32);
    put_slice(buf, data);
    assert(buf@ =~= old(buf)@ + blob_bytes(data@));
}

/// Appends a `u32`-counted list of `u64`s.
pub fn put_u64_list(buf: &mut Vec<u8>, xs: &Vec<u64>)
    requires
        xs@.len() <= u32::MAX,
    ensures
        final(buf)@ == old(buf)@ + list_bytes(xs@, |x: u64| u64_item(x)),
{
    let ghost f = |x: u64| u64_item(x);
    put_u32(buf, xs.len() as u32);
    let ghost start = buf@;
    let mut i: usize = 0;
    while i < xs.len()
        invariant
            i <= xs@.len(),
            f == (|x: u64| u64_item(x)),
            buf@ == start + concat_map(xs@.take(i as int), f),
        decreases xs@.len() - i,
    {
        proof {
            lemma_concat_map_push(xs@.take(i as int), xs@[i as int], f);
            assert(xs@.take(i as int).push(xs@[i as int]) =~= xs@.take(i + 1));
        }
        put_u64(buf, xs[i]);
        i = i + 1;
        proof {
            assert(start + concat_map(xs@.take(i as int), f) =~= buf@);
        }
    }
    assert(xs@.take(xs@.len() as int) =~= xs@);
    assert(buf@ =~= old(buf)@ + list_bytes(xs@, f));
}

/// Reads a `u32`-counted list of `u64`s.
pub fn get_u64_list(r: &mut Reader) -> (xs: Vec<u64>)
    requires
        old(r).wf(),
        take_list(old(r).rest(), |s: Seq<u8>| take_u64_item(s)) is Some,
    ensures
        final(r).wf(),
        final(r).data == old(r).data,
        take_list(old(r).rest(), |s: Seq<u8>| take_u64_item(s)) == Some((xs@, final(r).rest())),
{
    let ghost p = |s: Seq<u8>| take_u64_item(s);
    let n = r.get_u32();
    let ghost all = take_many(n as nat, r.rest(), p).unwrap().0;
    let ghost end = take_many(n as nat, r.rest(), p).unwrap().1;
    proof {
        lemma_take_many_len(n as nat, r.rest(), p);
    }
    let mut xs: Vec<u64> = Vec::new();
    let mut i: u32 = 0;
    while i < n
        invariant
            r.wf(),
            r.data == old(r).data,
            p == (|s: Seq<u8>| take_u64_item(s)),
            i <= n,
            all.len() == n,
            xs@ == all.take(i as int),
            take_many((n - i) as nat, r.rest(), p) == Some((all.skip(i as int), end)),
        decreases n - i,
    {
        proof {
            lemma_take_many_step((n - i) as nat, r.rest(), p);
            assert(all.skip(i as int)[0] == all[i as int]);
            assert(all.skip(i as int).skip(1) =~= all.skip(i + 1));
            assert(seq![all[i as int]] + take_many((n - i - 1) as nat, p(r.rest()).unwrap().1, p).unwrap().0
                == all.skip(i as int));
            assert(take_many((n - i - 1) as nat, p(r.rest()).unwrap().1, p).unwrap().0 =~= all.skip(i + 1));
        }
        let x = r.get_u64();
        xs.push(x);
        i = i + 1;
        proof {
            assert(xs@ =~= all.take(i as int));
        }
    }
    assert(all.take(n as int) =~= all);
    assert(all.skip(n as int) =~= Seq::<u64>::empty());
    xs
}

/// The byte strings held by a vector of byte vectors.
pub open spec fn blobs_view(v: Seq<Vec<u8>>) -> Seq<Seq<u8>> {
    v.map_values(|c: Vec<u8>| c@)
}

/// Every byte string, and the number of them, fits a `u32` length prefix.
pub open spec fn blobs_fit(bs: Seq<Seq<u8>>) -> bool {
    &&& bs.len() <= u32::MAX
    &&& forall|i: int| 0 <= i < bs.len() ==> #[trigger] bs[i].len() <= u32::MAX
}

/// Reading back a `u32`-counted list of byte strings gives the list.
pub proof fn lemma_take_blob_list(bs: Seq<Seq<u8>>, rest: Seq<u8>)
    requires
        blobs_fit(bs),
    ensures
        take_list(list_bytes(bs, |b: Seq<u8>| blob_item(b)) + rest, |s: Seq<u8>| take_blob_item(s))
            == Some((bs, rest)),
{
    let f = |b: Seq<u8>| blob_item(b);
    let p = |s: Seq<u8>| take_blob_item(s);
    assert forall|i: int, r: Seq<u8>| 0 <= i < bs.len() implies #[trigger] p(f(bs[i]) + r) == Some(
        (bs[i], r),
    ) by {
        lemma_take_blob(bs[i], r);
    }
    lemma_take_list(bs, rest, f, p);
}

/// Appends a `u32`-counted list of length-prefixed byte strings.
pub fn put_blob_list(buf: &mut Vec<u8>, v: &Vec<Vec<u8>>)
    requires
        blobs_fit(blobs_view(v@)),
    ensures
        final(buf)@ == old(buf)@ + list_bytes(blobs_view(v@), |b: Seq<u8>| blob_item(b)),
{
    let ghost f = |b: Seq<u8>| blob_item(b);
    let ghost bs = blobs_view(v@);
    put_u32(buf, v.len() as u32);
    let ghost start = buf@;
    let mut i: usize = 0;
    while i < v.len()
        invariant
            i <= v@.len(),
            bs == blobs_view(v@),
            blobs_fit(bs),
            f == (|b: Seq<u8>| blob_item(b)),
            buf@ == start + concat_map(bs.take(i as int), f),
        decreases v@.len() - i,
    {
        proof {
            lemma_concat_map_push(bs.take(i as int), bs[i as int], f);
            assert(bs.take(i as int).push(bs[i as int]) =~= bs.take(i + 1));
            assert(bs[i as int] == v@[i as int]@);
        }
        put_blob(buf, v[i].as_slice());
        i = i + 1;
        proof {
            assert(start + concat_map(bs.take(i as int), f) =~= buf@);
        }
    }
    assert(bs.take(v@.len() as int) =~= bs);
    assert(buf@ =~= old(buf)@ + list_bytes(bs, f));
}

/// Reads a `u32`-counted list of length-prefixed byte strings.
pub fn get_blob_list(r: &mut Reader) -> (v: Vec<Vec<u8>>)
    requires
        old(r).wf(),
        take_list(old(r).rest(), |s: Seq<u8>| take_blob_item(s)) is Some,
    ensures
        final(r).wf(),
        final(r).data == old(r).data,
        take_list(old(r).rest(), |s: Seq<u8>| take_blob_item(s)) == Some(
            (blobs_view(v@), final(r).rest()),
        ),
{
    let ghost p = |s: Seq<u8>| take_blob_item(s);
    let n = r.get_u32();
    let ghost all = take_many(n as nat, r.rest(), p).unwrap().0;
    let ghost end = take_many(n as nat, r.rest(), p).unwrap().1;
    proof {
        lemma_take_many_len(n as nat, r.rest(), p);
    }
    let mut v: Vec<Vec<u8>> = Vec::new();
    let mut i: u32 = 0;
    while i < n
        invariant
            r.wf(),
            r.data == old(r).data,
            p == (|s: Seq<u8>| take_blob_item(s)),
            i <= n,
            all.len() == n,
            blobs_view(v@) == all.take(i as int),
            take_many((n - i) as nat, r.rest(), p) == Some((all.skip(i as int), end)),
        decreases n - i,
    {
        proof {
            lemma_take_many_step((n - i) as nat, r.rest(), p);
            assert(all.skip(i as int)[0] == all[i as int]);
            assert(all.skip(i as int).skip(1) =~= all.skip(i + 1));
            assert(seq![all[i as int]] + take_many((n - i - 1) as nat, p(r.rest()).unwrap().1, p).unwrap().0
                == all.skip(i as int));
            assert(take_many((n - i - 1) as nat, p(r.rest()).unwrap().1, p).unwrap().0 =~= all.skip(i + 1));
        }
        let ghost before = r.rest();
        let b = r.get_blob();
        proof {
            assert(p(before) == take_blob_item(before));
            assert(b@ == all[i as int]);
        }
        let ghost old_v = v@;
        v.push(b);
        i = i + 1;
        proof {
            assert(blobs_view(v@) =~= blobs_view(old_v).push(b@));
            assert(blobs_view(v@) =~= all.take(i as int));
        }
    }
    assert(all.take(n as int) =~= all);
    v
}

} // verus!
