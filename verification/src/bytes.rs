//! Byte-string helpers: prefix tests, equality, searching, and the decimal
//! and hexadecimal digit conversions used when rendering tracing scripts and
//! parsing the child tracer's output.

use vstd::prelude::*;

use vstd::string::StringSliceAdditionalSpecFns;
use vstd::utf8::{is_ascii_chars, is_ascii_chars_encode_utf8};

verus! {

/// The bytes of an ASCII character sequence, one byte per character.
pub open spec fn ascii_bytes(s: Seq<char>) -> Seq<u8> {
    Seq::new(s.len(), |i: int| s[i] as u8)
}

/// The bytes of an ASCII string slice.
pub(crate) fn ascii_slice(s: &str) -> (r: &[u8])
    requires
        is_ascii_chars(s@),
    ensures
        r@ == ascii_bytes(s@),
{
    proof {
        is_ascii_chars_encode_utf8(s@);
        assert(s.spec_bytes() =~= ascii_bytes(s@));
    }
    s.as_bytes()
}

/// Append the bytes of an ASCII string slice to `out`.
pub(crate) fn push_ascii(s: &str, out: &mut Vec<u8>)
    requires
        is_ascii_chars(s@),
    ensures
        final(out)@ == old(out)@ + ascii_bytes(s@),
{
    proof {
        is_ascii_chars_encode_utf8(s@);
        assert(s.spec_bytes() =~= ascii_bytes(s@));
    }
    push_bytes(s.as_bytes(), out);
}


/// `p` is a prefix of `v`.
pub open spec fn is_prefix_of(p: Seq<u8>, v: Seq<u8>) -> bool {
    p.len() <= v.len() && forall|i: int| 0 <= i < p.len() ==> v[i] == p[i]
}

/// Whether `v` starts with `p`.
pub fn starts_with(v: &[u8], p: &[u8]) -> (r: bool)
    ensures
        r == is_prefix_of(p@, v@),
{
    if p.len() > v.len() {
        return false;
    }
    let mut i: usize = 0;
    while i < p.len()
        invariant
            0 <= i <= p@.len(),
            p@.len() <= v@.len(),
            forall|j: int| 0 <= j < i ==> v@[j] == p@[j],
        decreases p@.len() - i,
    {
        if v[i] != p[i] {
            return false;
        }
        i = i + 1;
    }
    true
}

/// Whether two byte strings hold the same bytes.
pub fn bytes_eq(a: &[u8], b: &[u8]) -> (r: bool)
    ensures
        r == (a@ == b@),
{
    if a.len() != b.len() {
        return false;
    }
    let mut i: usize = 0;
    while i < a.len()
        invariant
            0 <= i <= a@.len(),
            a@.len() == b@.len(),
            forall|j: int| 0 <= j < i ==> a@[j] == b@[j],
        decreases a@.len() - i,
    {
        if a[i] != b[i] {
            return false;
        }
        i = i + 1;
    }
    proof {
        assert(a@ =~= b@);
    }
    true
}

/// The pair `(x, y)` occurs at position `i` of `v`.
pub open spec fn pair_at(v: Seq<u8>, x: u8, y: u8, i: int) -> bool {
    0 <= i && i + 1 < v.len() && v[i] == x && v[i + 1] == y
}

/// First position where the byte pair `(x, y)` occurs, if any.
pub fn find_pair(v: &[u8], x: u8, y: u8) -> (r: Option<usize>)
    ensures
        match r {
            Some(i) => pair_at(v@, x, y, i as int) && forall|j: int|
                0 <= j < i ==> !pair_at(v@, x, y, j),
            None => forall|j: int| !pair_at(v@, x, y, j),
        },
{
    let n = v.len();
    if n < 2 {
        return None;
    }
    let mut i: usize = 0;
    while i < n - 1
        invariant
            0 <= i <= n - 1,
            2 <= n == v@.len(),
            forall|j: int| 0 <= j < i ==> !pair_at(v@, x, y, j),
        decreases n - i,
    {
        if v[i] == x && v[i + 1] == y {
            return Some(i);
        }
        i = i + 1;
    }
    None
}

/// A copy of `v[from..to]`.
pub fn copy_range(v: &[u8], from: usize, to: usize) -> (r: Vec<u8>)
    requires
        from <= to <= v@.len(),
    ensures
        r@ == v@.subrange(from as int, to as int),
{
    let mut out: Vec<u8> = Vec::new();
    let mut i: usize = from;
    while i < to
        invariant
            from <= i <= to <= v@.len(),
            out@ == v@.subrange(from as int, i as int),
        decreases to - i,
    {
        out.push(v[i]);
        proof {
            assert(out@ =~= v@.subrange(from as int, i + 1 as int));
        }
        i = i + 1;
    }
    out
}

/// A byte is an ASCII decimal digit.
pub open spec fn is_dec_digit(b: u8) -> bool {
    48 <= b <= 57
}

/// Numeric value of a digit byte (0 for non-digits).
pub open spec fn dec_val(b: u8) -> nat {
    if is_dec_digit(b) {
        (b - 48) as nat
    } else {
        0
    }
}

/// Every byte of `s` is a decimal digit.
pub open spec fn all_dec_digits(s: Seq<u8>) -> bool {
    forall|i: int| 0 <= i < s.len() ==> is_dec_digit(s[i])
}

/// The number denoted by a string of decimal digit bytes, most significant
/// first.
pub open spec fn seq_dec_value(s: Seq<u8>) -> nat
    decreases s.len(),
{
    if s.len() == 0 {
        0
    } else {
        seq_dec_value(s.drop_last()) * 10 + dec_val(s.last())
    }
}

proof fn lemma_dec_value_step(s: Seq<u8>, i: int)
    requires
        0 <= i < s.len(),
    ensures
        seq_dec_value(s.take(i + 1)) == seq_dec_value(s.take(i)) * 10 + dec_val(s[i]),
{
    assert(s.take(i + 1).drop_last() =~= s.take(i));
    assert(s.take(i + 1).last() == s[i]);
}

proof fn lemma_dec_value_take_ge(s: Seq<u8>, i: int, j: int)
    requires
        0 <= i <= j <= s.len(),
    ensures
        seq_dec_value(s.take(j)) >= seq_dec_value(s.take(i)),
    decreases j - i,
{
    if i < j {
        lemma_dec_value_take_ge(s, i, j - 1);
        lemma_dec_value_step(s, j - 1);
    }
}

/// Parse a whole byte string as an unsigned decimal number. Returns the value
/// exactly when the string is a non-empty run of digits whose value fits in a
/// `u64`.
pub fn parse_u64(s: &[u8]) -> (r: Option<u64>)
    ensures
        r is Some <==> (s@.len() > 0 && all_dec_digits(s@) && seq_dec_value(s@) <= u64::MAX),
        r matches Some(v) ==> v == seq_dec_value(s@),
{
    if s.len() == 0 {
        return None;
    }
    let mut acc: u64 = 0;
    let mut i: usize = 0;
    proof {
        assert(s@.take(0) =~= Seq::<u8>::empty());
    }
    while i < s.len()
        invariant
            0 <= i <= s@.len(),
            all_dec_digits(s@.take(i as int)),
            acc == seq_dec_value(s@.take(i as int)),
        decreases s@.len() - i,
    {
        let b = s[i];
        if b < 48 || b > 57 {
            return None;
        }
        let d: u64 = (b - 48) as u64;
        proof {
            lemma_dec_value_step(s@, i as int);
        }
        if acc > (u64::MAX - d) / 10 {
            proof {
                lemma_dec_value_take_ge(s@, i + 1, s@.len() as int);
                assert(s@.take(s@.len() as int) =~= s@);
            }
            return None;
        }
        acc = acc * 10 + d;
        proof {
            assert(all_dec_digits(s@.take(i + 1)));
        }
        i = i + 1;
    }
    proof {
        assert(s@.take(s@.len() as int) =~= s@);
    }
    Some(acc)
}

/// Decimal digit bytes of `n`, most significant first.
pub open spec fn dec_digits(n: nat) -> Seq<u8>
    decreases n,
{
    if n < 10 {
        seq![(48 + n) as u8]
    } else {
        dec_digits(n / 10).push((48 + n % 10) as u8)
    }
}

/// Append the decimal digits of `n` to `out`.
pub fn push_dec(n: u64, out: &mut Vec<u8>)
    ensures
        final(out)@ == old(out)@ + dec_digits(n as nat),
    decreases n,
{
    if n >= 10 {
        push_dec(n / 10, out);
    }
    out.push(48 + (n % 10) as u8);
}

/// Value of a hexadecimal digit byte: `0`-`9` then lowercase `a`-`f`.
pub open spec fn hex_digit(d: nat) -> u8
    recommends
        d < 16,
{
    if d < 10 {
        (48 + d) as u8
    } else {
        (97 + (d - 10)) as u8
    }
}

/// Lowercase hexadecimal digit bytes of `n`, most significant first.
pub open spec fn hex_digits(n: nat) -> Seq<u8>
    decreases n,
{
    if n < 16 {
        seq![hex_digit(n)]
    } else {
        hex_digits(n / 16).push(hex_digit(n % 16))
    }
}

/// Append the lowercase hexadecimal digits of `n` to `out`.
pub fn push_hex(n: u64, out: &mut Vec<u8>)
    ensures
        final(out)@ == old(out)@ + hex_digits(n as nat),
    decreases n,
{
    if n >= 16 {
        push_hex(n / 16, out);
    }
    let d: u64 = n % 16;
    if d < 10 {
        out.push(48 + d as u8);
    } else {
        out.push(97 + (d - 10) as u8);
    }
}

/// Append all of `src` to `out`.
pub fn push_bytes(src: &[u8], out: &mut Vec<u8>)
    ensures
        final(out)@ == old(out)@ + src@,
{
    let mut i: usize = 0;
    while i < src.len()
        invariant
            0 <= i <= src@.len(),
            out@ == old(out)@ + src@.take(i as int),
        decreases src@.len() - i,
    {
        out.push(src[i]);
        proof {
            assert(old(out)@ + src@.take(i + 1) =~= (old(out)@ + src@.take(i as int)).push(
                src@[i as int],
            ));
        }
        i = i + 1;
    }
    proof {
        assert(src@.take(src@.len() as int) =~= src@);
    }
}

/// `tag` occurs in `v` at position `pos`.
pub open spec fn tag_at(v: Seq<u8>, pos: int, tag: Seq<u8>) -> bool {
    0 <= pos && pos + tag.len() <= v.len() && v.subrange(pos, pos + tag.len()) == tag
}

/// Whether `tag` occurs in `v` at position `pos`.
pub fn match_at(v: &[u8], pos: usize, tag: &[u8]) -> (r: bool)
    ensures
        r == tag_at(v@, pos as int, tag@),
{
    let n = v.len();
    let tn = tag.len();
    if pos > n || tn > n - pos {
        return false;
    }
    let mut i: usize = 0;
    while i < tn
        invariant
            0 <= i <= tn,
            pos + tn <= n == v@.len(),
            tn == tag@.len(),
            forall|j: int| 0 <= j < i ==> v@[pos + j] == tag@[j],
        decreases tn - i,
    {
        if v[pos + i] != tag[i] {
            proof {
                if tag_at(v@, pos as int, tag@) {
                    assert(v@.subrange(pos as int, pos + tag@.len())[i as int] == tag@[i as int]);
                }
            }
            return false;
        }
        i = i + 1;
    }
    proof {
        assert(v@.subrange(pos as int, pos + tag@.len()) =~= tag@);
    }
    true
}

/// First position at or after `pos` whose byte is not a decimal digit (or
/// the string's end).
pub fn scan_digits(v: &[u8], pos: usize) -> (r: usize)
    requires
        pos <= v@.len(),
    ensures
        pos <= r <= v@.len(),
        forall|j: int| pos <= j < r ==> is_dec_digit(v@[j]),
        r < v@.len() ==> !is_dec_digit(v@[r as int]),
{
    let n = v.len();
    let mut i: usize = pos;
    while i < n
        invariant
            pos <= i <= n == v@.len(),
            forall|j: int| pos <= j < i ==> is_dec_digit(v@[j]),
        decreases n - i,
    {
        let b = v[i];
        if b < 48 || b > 57 {
            return i;
        }
        i = i + 1;
    }
    n
}

} // verus!

