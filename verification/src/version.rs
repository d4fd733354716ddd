//! Version numbers: `1.2.3` as one number, a byte for each part.
use vstd::prelude::*;
use vstd::string::StringSliceAdditionalSpecFns;
use crate::textutil::{all_digits, digits_value, split_dots, split_on_dots};

verus! {

/// What `str::parse::<usize>` gives for the text with bytes `b`: an optional `+`, then at
/// least one decimal digit, and a value within the range of `usize`.
pub open spec fn parse_usize_spec(b: Seq<u8>) -> Option<usize> {
    let d = if b.len() > 0 && b[0] == 43 { b.drop_first() } else { b };
    if d.len() == 0 || !all_digits(d) {
        None
    } else if digits_value(d) <= usize::MAX {
        Some(digits_value(d) as usize)
    } else {
        None
    }
}

proof fn lemma_digits_value_step(p: Seq<u8>, c: u8)
    requires
        all_digits(p),
        48 <= c <= 57,
    ensures
        all_digits(p.push(c)),
        digits_value(p.push(c)) == digits_value(p) * 10 + (c - 48),
        digits_value(p) >= 0,
    decreases p.len(),
{
    assert(p.push(c).drop_last() =~= p);
    lemma_nonneg(p);
}

proof fn lemma_nonneg(p: Seq<u8>)
    requires
        all_digits(p),
    ensures
        digits_value(p) >= 0,
    decreases p.len(),
{
    if p.len() > 0 {
        lemma_nonneg(p.drop_last());
    }
}

/// Parses the text with bytes `b` as `str::parse::<usize>` does.
pub fn parse_usize(b: &[u8]) -> (r: Option<usize>)
    ensures
        r == parse_usize_spec(b@),
{
    let n = b.len();
    let start: usize = if n > 0 && b[0] == 43u8 { 1 } else { 0 };
    let ghost d = if n > 0 && b@[0] == 43 { b@.drop_first() } else { b@ };
    assert(d =~= b@.subrange(start as int, n as int));
    if start >= n {
        return None;
    }
    let cap: u128 = usize::MAX as u128 + 1;
    let mut acc: u128 = 0;
    let mut i = start;
    assert(b@.subrange(start as int, start as int) =~= Seq::<u8>::empty());
    while i < n
        invariant
            start <= i <= n == b@.len(),
            start < n,
            cap == usize::MAX as u128 + 1,
            d == (if b@.len() > 0 && b@[0] == 43 { b@.drop_first() } else { b@ }),
            d == b@.subrange(start as int, n as int),
            all_digits(b@.subrange(start as int, i as int)),
            acc == (if digits_value(b@.subrange(start as int, i as int)) < cap {
                digits_value(b@.subrange(start as int, i as int))
            } else {
                cap as int
            }),
        decreases n - i,
    {
        let c = b[i];
        if c < 48u8 || c > 57u8 {
            assert(!all_digits(d)) by {
                assert(b@.subrange(start as int, n as int)[i - start] == b@[i as int]);
            }
            return None;
        }
        let ghost p = b@.subrange(start as int, i as int);
        proof {
            assert(b@.subrange(start as int, i + 1) =~= p.push(c));
            lemma_digits_value_step(p, c);
        }
        if acc >= cap {
            acc = cap;
        } else {
            let v = acc * 10 + (c - 48u8) as u128;
            acc = if v >= cap { cap } else { v };
        }
        i = i + 1;
    }
    assert(b@.subrange(start as int, n as int) == d);
    if acc >= cap {
        None
    } else {
        Some(acc as usize)
    }
}

/// The number of the version whose dot-separated parts are `parts`: each part shifts the
/// number so far by eight bits and is or-ed in.
pub open spec fn version_fold(parts: Seq<Seq<char>>) -> usize
    decreases parts.len(),
{
    if parts.len() == 0 {
        0
    } else {
        let u = version_fold(parts.drop_last());
        let uu = parse_usize_spec(vstd::utf8::encode_utf8(parts.last())).unwrap();
        (u << 8usize) | uu
    }
}

/// Every dot-separated part of `ver` parses as a `usize`.
pub open spec fn version_parts_ok(ver: Seq<char>) -> bool {
    forall|i: int| 0 <= i < split_dots(ver).len() ==> #[trigger] parse_usize_spec(
        vstd::utf8::encode_utf8(split_dots(ver)[i]),
    ) is Some
}

/// The number of the version `ver`.
pub fn to_version_number(ver: &str) -> (u: usize)
    requires
        version_parts_ok(ver@),
    ensures
        u == version_fold(split_dots(ver@)),
{
    let vec = split_on_dots(ver);
    let ghost parts = split_dots(ver@);
    let mut u: usize = 0;
    let mut i: usize = 0;
    assert(parts.subrange(0, 0) =~= Seq::<Seq<char>>::empty());
    while i < vec.len()
        invariant
            vec@.map_values(|s: &str| s@) == parts,
            parts == split_dots(ver@),
            version_parts_ok(ver@),
            i <= vec@.len(),
            u == version_fold(parts.subrange(0, i as int)),
        decreases vec@.len() - i,
    {
        let s = vec[i];
        assert(parts[i as int] == s@);
        let uu = parse_usize(s.as_bytes());
        assert(parse_usize_spec(vstd::utf8::encode_utf8(parts[i as int])) is Some);
        let uu = match uu {
            Some(x) => x,
            None => 0,
        };
        proof {
            assert(parts.subrange(0, i + 1).drop_last() =~= parts.subrange(0, i as int));
        }
        u = (u << 8usize) | uu;
        i = i + 1;
    }
    assert(parts.subrange(0, vec@.len() as int) =~= parts);
    u
}

} // verus!
