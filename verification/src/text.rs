//! Text handling for experiment descriptions: decimal numbers, splitting on
//! a separator, and comparing words, all over the characters of a string.
use vstd::prelude::*;

verus! {

/// The character of the decimal digit `d`.
pub open spec fn digit_char(d: nat) -> char {
    ((48 + d) as u8) as char
}

/// The decimal digits of `n`, without leading zeros ("0" for zero).
pub open spec fn decimal(n: nat) -> Seq<char>
    decreases n,
{
    if n < 10 {
        seq![digit_char(n)]
    } else {
        decimal(n / 10).push(digit_char(n % 10))
    }
}

/// The value of the decimal digits `ds`, where every one is a digit.
pub open spec fn digits_value(ds: Seq<char>) -> nat
    decreases ds.len(),
{
    if ds.len() == 0 {
        0
    } else {
        digits_value(ds.drop_last()) * 10 + ((ds.last() as u8) - 48) as nat
    }
}

pub open spec fn is_digit(c: char) -> bool {
    '0' <= c <= '9'
}

pub open spec fn all_digits(ds: Seq<char>) -> bool {
    forall|i: int| 0 <= i < ds.len() ==> is_digit(#[trigger] ds[i])
}

/// The digits of an unsigned number: what follows an optional `+`.
pub open spec fn unsigned_digits(s: Seq<char>) -> Seq<char> {
    if s.len() > 0 && s[0] == '+' {
        s.skip(1)
    } else {
        s
    }
}

/// What parsing `s` as a `u64` gives: an optional `+`, then one or more
/// decimal digits whose value fits a `u64`.
pub open spec fn parse_u64_spec(s: Seq<char>) -> Option<u64> {
    let ds = unsigned_digits(s);
    if ds.len() > 0 && all_digits(ds) && digits_value(ds) <= u64::MAX {
        Some(digits_value(ds) as u64)
    } else {
        None
    }
}

/// The pieces of `s` between the occurrences of `sep`, empty pieces included.
pub open spec fn split_spec(s: Seq<char>, sep: char) -> Seq<Seq<char>>
    decreases s.len(),
{
    if s.len() == 0 {
        seq![Seq::empty()]
    } else {
        let r = split_spec(s.drop_last(), sep);
        if s.last() == sep {
            r.push(Seq::empty())
        } else {
            r.update(r.len() - 1, r.last().push(s.last()))
        }
    }
}

proof fn lemma_split_nonempty(s: Seq<char>, sep: char)
    ensures
        split_spec(s, sep).len() > 0,
    decreases s.len(),
{
    if s.len() > 0 {
        lemma_split_nonempty(s.drop_last(), sep);
    }
}

/// Where `"ms"` first occurs in `s` from `i` on, or the end of `s`.
pub open spec fn first_ms(s: Seq<char>, i: int) -> int
    decreases s.len() - i,
{
    if i < 0 || i + 1 >= s.len() {
        s.len() as int
    } else if s[i] == 'm' && s[i + 1] == 's' {
        i
    } else {
        first_ms(s, i + 1)
    }
}

/// The part of `s` before its first `"ms"`.
pub open spec fn before_ms(s: Seq<char>) -> Seq<char> {
    s.take(first_ms(s, 0))
}

/// Whether `c` occurs nowhere in `s`.
pub open spec fn lacks(s: Seq<char>, c: char) -> bool {
    forall|i: int| 0 <= i < s.len() ==> #[trigger] s[i] != c
}

/// Without `"ms"` in it, the part of `s` before it is `s` itself.
pub proof fn lemma_before_ms_without_m(s: Seq<char>)
    requires
        lacks(s, 'm'),
    ensures
        before_ms(s) == s,
{
    assert forall|i: int| 0 <= i <= s.len() implies #[trigger] first_ms(s, i) == s.len() by {
        lemma_first_ms_without_m(s, i);
    }
    assert(s.take(s.len() as int) =~= s);
}

proof fn lemma_first_ms_without_m(s: Seq<char>, i: int)
    requires
        lacks(s, 'm'),
        0 <= i <= s.len(),
    ensures
        first_ms(s, i) == s.len(),
    decreases s.len() - i,
{
    if i + 1 < s.len() {
        assert(s[i] != 'm');
        lemma_first_ms_without_m(s, i + 1);
    }
}

/// The decimal digits of a number are digits, begin the number, and read
/// back as it.
pub proof fn lemma_decimal_digits(n: nat)
    ensures
        decimal(n).len() > 0,
        all_digits(decimal(n)),
        digits_value(decimal(n)) == n,
    decreases n,
{
    let c = digit_char(n % 10);
    assert(c as int == 48 + n % 10);
    assert((c as u8) - 48 == n % 10);
    if n >= 10 {
        lemma_decimal_digits(n / 10);
        lemma_digits_value_push(decimal(n / 10), c);
        assert(decimal(n) == decimal(n / 10).push(c));
        assert((n / 10) * 10 + n % 10 == n) by (nonlinear_arith);
        let d = decimal(n);
        assert forall|i: int| 0 <= i < d.len() implies is_digit(#[trigger] d[i]) by {
            if i < d.len() - 1 {
                assert(d[i] == decimal(n / 10)[i]);
            }
        }
    } else {
        lemma_digits_value_push(Seq::<char>::empty(), c);
        assert(Seq::<char>::empty().push(c) =~= seq![c]);
        assert(decimal(n) == seq![c]);
    }
}

/// A `u64` written in decimal parses back as itself.
pub proof fn lemma_parse_decimal(n: u64)
    ensures
        parse_u64_spec(decimal(n as nat)) == Some(n),
{
    lemma_decimal_digits(n as nat);
    assert(is_digit(decimal(n as nat)[0]));
}

/// A piece without the separator splits into itself.
pub proof fn lemma_split_single(x: Seq<char>, sep: char)
    requires
        lacks(x, sep),
    ensures
        split_spec(x, sep) == seq![x],
    decreases x.len(),
{
    if x.len() > 0 {
        lemma_split_single(x.drop_last(), sep);
        assert(x.drop_last().push(x.last()) =~= x);
        assert(x[x.len() - 1] != sep);
        assert(split_spec(x, sep) =~= seq![x]);
    } else {
        assert(x =~= Seq::<char>::empty());
    }
}

/// Appending the separator and a piece without it appends that piece.
pub proof fn lemma_split_append(p: Seq<char>, b: Seq<char>, sep: char)
    requires
        lacks(b, sep),
    ensures
        split_spec(p + seq![sep] + b, sep) == split_spec(p, sep).push(b),
    decreases b.len(),
{
    if b.len() == 0 {
        assert(p + seq![sep] + b =~= p.push(sep));
        assert((p.push(sep)).drop_last() =~= p);
        assert(b =~= Seq::<char>::empty());
    } else {
        let b0 = b.drop_last();
        assert forall|i: int| 0 <= i < b0.len() implies #[trigger] b0[i] != sep by {
            assert(b0[i] == b[i]);
        }
        lemma_split_append(p, b0, sep);
        let whole = p + seq![sep] + b;
        assert(whole.drop_last() =~= p + seq![sep] + b0);
        assert(whole.last() == b.last());
        assert(b[b.len() - 1] != sep);
        assert(b0.push(b.last()) =~= b);
        assert(split_spec(whole, sep) =~= split_spec(p, sep).push(b));
    }
}

/// The characters of `s`, in order.
pub(crate) fn chars_of(s: &str) -> (v: Vec<char>)
    ensures
        v@ == s@,
{
    broadcast use vstd::string::axiom_spec_iter;
    let mut v: Vec<char> = Vec::new();
    for c in it: s.chars()
        invariant
            it.seq() == s@,
            v@ == it.seq().take(it.index() as int),
    {
        v.push(c);
        proof {
            assert(v@ =~= it.seq().take(it.index() + 1));
        }
    }
    assert(v@ =~= s@);
    v
}

/// Calls `String::from_iter` on the characters.
#[verifier::external_body]
pub(crate) fn string_of(v: &[char]) -> (s: String)
    ensures
        s@ == v@,
{
    v.iter().collect()
}

/// What `str::to_lowercase` gives for a string.
pub uninterp spec fn lowercase(s: Seq<char>) -> Seq<char>;

/// Whether every character is ASCII.
pub open spec fn is_ascii_chars(s: Seq<char>) -> bool {
    forall|i: int| 0 <= i < s.len() ==> (#[trigger] s[i] as int) < 128
}

/// An ASCII upper-case letter maps to its lower-case letter; any other
/// character stays as it is.
pub open spec fn ascii_lower_char(c: char) -> char {
    if 65 <= c as int <= 90 {
        ((c as int) + 32) as char
    } else {
        c
    }
}

/// The string with every ASCII upper-case letter lowered.
pub open spec fn ascii_lower(s: Seq<char>) -> Seq<char> {
    s.map_values(|c: char| ascii_lower_char(c))
}

/// What `str::to_lowercase` gives, as far as it is known here: on an ASCII
/// string the upper-case letters lowered, else [`lowercase`].
pub open spec fn lowered(s: Seq<char>) -> Seq<char> {
    if is_ascii_chars(s) {
        ascii_lower(s)
    } else {
        lowercase(s)
    }
}

/// Calls `str::to_lowercase`, which maps every character to its Unicode
/// lowercase form; the result is named by [`lowercase`]. On an ASCII string
/// that form lowers `A`..`Z` to `a`..`z` and keeps every other character.
#[verifier::external_body]
pub(crate) fn to_lowercase(s: &str) -> (r: String)
    ensures
        r@ == lowercase(s@),
        is_ascii_chars(s@) ==> r@ == ascii_lower(s@),
{
    s.to_lowercase()
}

/// Appends the decimal digits of `n`.
pub fn push_decimal(out: &mut Vec<char>, n: u64)
    ensures
        final(out)@ == old(out)@ + decimal(n as nat),
    decreases n,
{
    if n >= 10 {
        push_decimal(out, n / 10);
    }
    let d: u8 = (n % 10) as u8;
    let c: char = (48u8 + d) as char;
    out.push(c);
    proof {
        if n >= 10 {
            assert(decimal(n as nat) == decimal((n / 10) as nat).push(digit_char((n % 10) as nat)));
        }
        assert(c == digit_char((n % 10) as nat));
    }
    assert(out@ =~= old(out)@ + decimal(n as nat));
}

/// Appends the characters of `s`.
pub fn push_chars(out: &mut Vec<char>, s: &[char])
    ensures
        final(out)@ == old(out)@ + s@,
{
    let mut i: usize = 0;
    while i < s.len()
        invariant
            i <= s@.len(),
            out@ == old(out)@ + s@.take(i as int),
        decreases s@.len() - i,
    {
        out.push(s[i]);
        i = i + 1;
        assert(out@ =~= old(out)@ + s@.take(i as int));
    }
    assert(s@.take(s@.len() as int) =~= s@);
}

/// Whether two character sequences are equal.
pub fn chars_eq(a: &[char], b: &[char]) -> (r: bool)
    ensures
        r == (a@ == b@),
{
    if a.len() != b.len() {
        return false;
    }
    let mut i: usize = 0;
    while i < a.len()
        invariant
            a@.len() == b@.len(),
            i <= a@.len(),
            forall|k: int| 0 <= k < i ==> a@[k] == b@[k],
        decreases a@.len() - i,
    {
        if a[i] != b[i] {
            return false;
        }
        i = i + 1;
    }
    assert(a@ =~= b@);
    true
}

/// Whether the string holds exactly the characters of the word.
pub fn is_word(s: &[char], word: &str) -> (r: bool)
    ensures
        r == (s@ == word@),
{
    let w = chars_of(word);
    chars_eq(s, w.as_slice())
}

proof fn lemma_digits_value_push(ds: Seq<char>, c: char)
    ensures
        digits_value(ds.push(c)) == digits_value(ds) * 10 + ((c as u8) - 48) as nat,
{
    assert(ds.push(c).drop_last() =~= ds);
}

/// Parses a `u64` as `str::parse` does: an optional `+`, then decimal digits,
/// with `None` for anything else or a value that does not fit.
pub fn parse_u64(s: &[char]) -> (r: Option<u64>)
    ensures
        r == parse_u64_spec(s@),
{
    let start: usize = if s.len() > 0 && s[0] == '+' {
        1
    } else {
        0
    };
    let ghost ds = unsigned_digits(s@);
    assert(ds =~= s@.skip(start as int));
    if start >= s.len() {
        return None;
    }
    let mut value: u64 = 0;
    let mut i: usize = start;
    while i < s.len()
        invariant
            start <= i <= s@.len(),
            ds == s@.skip(start as int),
            ds == unsigned_digits(s@),
            ds.len() > 0,
            forall|k: int| 0 <= k < i - start ==> is_digit(#[trigger] ds[k]),
            value == digits_value(ds.take(i - start)),
        decreases s@.len() - i,
    {
        let c = s[i];
        if !('0' <= c && c <= '9') {
            assert(!is_digit(ds[i - start]));
            assert(!all_digits(ds));
            return None;
        }
        let d = (c as u8 - 48u8) as u64;
        proof {
            assert(ds.take(i - start + 1) =~= ds.take(i - start).push(c));
            lemma_digits_value_push(ds.take(i - start), c);
        }
        if value > (u64::MAX - d) / 10 {
            proof {
                assert(digits_value(ds.take(i - start + 1)) > u64::MAX) by (nonlinear_arith)
                    requires
                        digits_value(ds.take(i - start + 1)) == value * 10 + d,
                        value > (u64::MAX - d) / 10,
                        d <= 9,
                ;
                if all_digits(ds) {
                    lemma_digits_value_prefix(ds, i - start + 1);
                }
            }
            return None;
        }
        proof {
            assert(value * 10 + d <= u64::MAX) by (nonlinear_arith)
                requires
                    value <= (u64::MAX - d) / 10,
                    d <= 9,
            ;
        }
        value = value * 10 + d;
        i = i + 1;
    }
    assert(ds.take(ds.len() as int) =~= ds);
    Some(value)
}

/// A prefix of digits is worth no more than the whole.
proof fn lemma_digits_value_prefix(ds: Seq<char>, n: int)
    requires
        0 <= n <= ds.len(),
        forall|k: int| 0 <= k < ds.len() ==> is_digit(#[trigger] ds[k]),
    ensures
        digits_value(ds.take(n)) <= digits_value(ds),
    decreases ds.len() - n,
{
    if n < ds.len() {
        lemma_digits_value_prefix(ds, n + 1);
        assert(ds.take(n + 1).drop_last() =~= ds.take(n));
        assert(is_digit(ds[n]));
    } else {
        assert(ds.take(n) =~= ds);
    }
}

/// Splits `s` at every occurrence of `sep`, as `str::split` does with a character.
pub fn split_chars(s: &[char], sep: char) -> (pieces: Vec<Vec<char>>)
    ensures
        pieces@.len() == split_spec(s@, sep).len(),
        forall|i: int| 0 <= i < pieces@.len() ==> (#[trigger] pieces@[i])@ == split_spec(s@, sep)[i],
{
    let mut pieces: Vec<Vec<char>> = Vec::new();
    pieces.push(Vec::new());
    let mut i: usize = 0;
    while i < s.len()
        invariant
            i <= s@.len(),
            pieces@.len() == split_spec(s@.take(i as int), sep).len(),
            forall|k: int|
                0 <= k < pieces@.len() ==> (#[trigger] pieces@[k])@ == split_spec(
                    s@.take(i as int),
                    sep,
                )[k],
        decreases s@.len() - i,
    {
        proof {
            assert(s@.take(i + 1).drop_last() =~= s@.take(i as int));
            lemma_split_nonempty(s@.take(i as int), sep);
        }
        if s[i] == sep {
            pieces.push(Vec::new());
        } else {
            let last = pieces.len() - 1;
            let mut piece = pieces.remove(last);
            piece.push(s[i]);
            pieces.push(piece);
        }
        i = i + 1;
        proof {
            let r = split_spec(s@.take(i as int), sep);
            assert forall|k: int| 0 <= k < pieces@.len() implies (#[trigger] pieces@[k])@ == r[k] by {
            }
        }
    }
    assert(s@.take(s@.len() as int) =~= s@);
    pieces
}

/// The part of `s` before its first `"ms"`, as the first piece of `str::split("ms")`.
pub fn take_before_ms(s: &[char]) -> (r: Vec<char>)
    ensures
        r@ == before_ms(s@),
{
    let mut i: usize = 0;
    while s.len() > 0 && i < s.len() - 1 && !(s[i] == 'm' && s[i + 1] == 's')
        invariant
            i < s@.len() || i == 0,
            first_ms(s@, 0) == first_ms(s@, i as int),
        decreases s@.len() - i,
    {
        i = i + 1;
    }
    let end: usize = if s.len() > 0 && i < s.len() - 1 {
        i
    } else {
        s.len()
    };
    assert(end == first_ms(s@, i as int));
    let mut r: Vec<char> = Vec::new();
    push_chars(&mut r, &s[0..end]);
    assert(r@ =~= before_ms(s@));
    r
}

} // verus!
