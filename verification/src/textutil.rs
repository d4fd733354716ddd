//! Byte and text helpers: searching, copying, decimal numbers.
use vstd::prelude::*;
use vstd::string::StringExecFns;

verus! {

/// `n` occurs in `h` at position `i`.
pub open spec fn matches_at(h: Seq<u8>, n: Seq<u8>, i: int) -> bool {
    0 <= i && i + n.len() <= h.len() && h.subrange(i, i + n.len()) == n
}

/// The first position at or after `i` where `n` occurs in `h`.
pub open spec fn find_from(h: Seq<u8>, n: Seq<u8>, i: int) -> Option<int>
    decreases h.len() - i,
{
    if i < 0 || i + n.len() > h.len() {
        None
    } else if matches_at(h, n, i) {
        Some(i)
    } else if i >= h.len() {
        None
    } else {
        find_from(h, n, i + 1)
    }
}

/// The first position where `n` occurs in `h`.
pub open spec fn find_first(h: Seq<u8>, n: Seq<u8>) -> Option<int> {
    find_from(h, n, 0)
}

pub proof fn lemma_find_from(h: Seq<u8>, n: Seq<u8>, i: int)
    requires
        0 <= i,
    ensures
        find_from(h, n, i) matches Some(j) ==> i <= j && matches_at(h, n, j) && forall|k: int|
            i <= k < j ==> !matches_at(h, n, k),
        find_from(h, n, i) is None ==> forall|k: int| i <= k ==> !matches_at(h, n, k),
    decreases h.len() - i,
{
    if i + n.len() <= h.len() && !matches_at(h, n, i) && i < h.len() {
        lemma_find_from(h, n, i + 1);
    }
}

/// Returns the first position where `n` occurs in `h`.
pub fn find_bytes(h: &[u8], n: &[u8]) -> (r: Option<usize>)
    ensures
        match r {
            Some(i) => find_first(h@, n@) == Some(i as int),
            None => find_first(h@, n@) is None,
        },
{
    let hl = h.len();
    let nl = n.len();
    let mut i: usize = 0;
    while nl <= hl && i <= hl - nl
        invariant
            hl == h@.len(),
            nl == n@.len(),
            find_from(h@, n@, 0) == find_from(h@, n@, i as int),
        decreases hl - i,
    {
        let mut j: usize = 0;
        let mut same = true;
        while j < nl
            invariant
                hl == h@.len(),
                nl == n@.len(),
                i + nl <= hl,
                j <= nl,
                same == forall|k: int| 0 <= k < j ==> h@[i + k] == n@[k],
            decreases nl - j,
        {
            if h[i + j] != n[j] {
                same = false;
            }
            j = j + 1;
        }
        proof {
            if same {
                assert(h@.subrange(i as int, i + nl) =~= n@);
            } else {
                assert(!matches_at(h@, n@, i as int)) by {
                    if matches_at(h@, n@, i as int) {
                        assert forall|k: int| 0 <= k < nl implies h@[i + k] == n@[k] by {
                            assert(h@.subrange(i as int, i + nl)[k] == h@[i + k]);
                        }
                    }
                }
            }
        }
        if same {
            return Some(i);
        }
        i = i + 1;
    }
    None
}

/// The bytes `b[from..to]`.
pub fn copy_range(b: &[u8], from: usize, to: usize) -> (r: Vec<u8>)
    requires
        from <= to <= b@.len(),
    ensures
        r@ == b@.subrange(from as int, to as int),
{
    let mut r: Vec<u8> = Vec::new();
    let mut i = from;
    while i < to
        invariant
            from <= i <= to <= b@.len(),
            r@ == b@.subrange(from as int, i as int),
        decreases to - i,
    {
        r.push(b[i]);
        i = i + 1;
        assert(r@ =~= b@.subrange(from as int, i as int));
    }
    r
}

/// `b` consists of ASCII digits.
pub open spec fn all_digits(b: Seq<u8>) -> bool {
    forall|i: int| 0 <= i < b.len() ==> 48 <= #[trigger] b[i] <= 57
}

/// The number that the decimal digits `b` write.
pub open spec fn digits_value(b: Seq<u8>) -> int
    decreases b.len(),
{
    if b.len() == 0 {
        0
    } else {
        digits_value(b.drop_last()) * 10 + (b.last() - 48)
    }
}

proof fn lemma_digits_value_nonneg(b: Seq<u8>)
    requires
        all_digits(b),
    ensures
        digits_value(b) >= 0,
    decreases b.len(),
{
    if b.len() > 0 {
        lemma_digits_value_nonneg(b.drop_last());
    }
}

/// What `str::parse::<i32>` gives for the text with bytes `b`: an optional sign, then at
/// least one decimal digit, and a value within the range of `i32`.
pub open spec fn parse_i32_spec(b: Seq<u8>) -> Option<i32> {
    let neg = b.len() > 0 && b[0] == 45;
    let d = if b.len() > 0 && (b[0] == 43 || b[0] == 45) { b.drop_first() } else { b };
    if d.len() == 0 || !all_digits(d) {
        None
    } else {
        let v = if neg { -digits_value(d) } else { digits_value(d) };
        if i32::MIN <= v <= i32::MAX { Some(v as i32) } else { None }
    }
}

/// Parses the text with bytes `b` as `str::parse::<i32>` does.
pub fn parse_i32(b: &[u8]) -> (r: Option<i32>)
    ensures
        r == parse_i32_spec(b@),
{
    let n = b.len();
    let neg = n > 0 && b[0] == 45u8;
    let start: usize = if n > 0 && (b[0] == 43u8 || b[0] == 45u8) { 1 } else { 0 };
    let ghost d = if n > 0 && (b@[0] == 43 || b@[0] == 45) { b@.drop_first() } else { b@ };
    assert(d =~= b@.subrange(start as int, n as int));
    if start >= n {
        return None;
    }
    // values at or above the cap are all out of range
    let cap: u64 = 0x1_0000_0000;
    let mut acc: u64 = 0;
    let mut i = start;
    while i < n
        invariant
            start <= i <= n == b@.len(),
            cap == 0x1_0000_0000u64,
            d == (if b@.len() > 0 && (b@[0] == 43 || b@[0] == 45) { b@.drop_first() } else { b@ }),
            d.len() > 0,
            neg == (b@.len() > 0 && b@[0] == 45),
            d == b@.subrange(start as int, n as int),
            all_digits(b@.subrange(start as int, i as int)),
            acc == (if digits_value(b@.subrange(start as int, i as int)) < cap {
                digits_value(b@.subrange(start as int, i as int))
            } else {
                cap as int
            }),
        decreases n - i,
    {
        let c = b[i];
        if c < 48u8 || c > 57u8 {
            assert(!all_digits(d)) by {
                assert(b@.subrange(start as int, n as int)[i - start] == b@[i as int]);
                assert(d[i - start] == c);
            }
            return None;
        }
        let ghost p = b@.subrange(start as int, i as int);
        let ghost p1 = b@.subrange(start as int, i + 1);
        proof {
            assert(p1.drop_last() =~= p);
            assert(p1.last() == c);
            lemma_digits_value_nonneg(p);
        }
        if acc >= cap {
            acc = cap;
        } else {
            let v = acc * 10 + (c - 48u8) as u64;
            acc = if v >= cap { cap } else { v };
        }
        i = i + 1;
    }
    assert(b@.subrange(start as int, n as int) == d);
    proof {
        lemma_digits_value_nonneg(d);
    }
    if acc >= cap {
        return None;
    }
    let v = acc as i64;
    let v = if neg { -v } else { v };
    if v < -2147483648i64 || v > 2147483647i64 {
        None
    } else {
        Some(v as i32)
    }
}

/// The decimal text of `n`.
pub open spec fn decimal(n: nat) -> Seq<char>
    decreases n,
{
    if n < 10 {
        seq![digit_char(n)]
    } else {
        decimal(n / 10).push(digit_char(n % 10))
    }
}

pub open spec fn digit_char(d: nat) -> char {
    if d == 0 { '0' } else if d == 1 { '1' } else if d == 2 { '2' } else if d == 3 { '3' }
    else if d == 4 { '4' } else if d == 5 { '5' } else if d == 6 { '6' } else if d == 7 { '7' }
    else if d == 8 { '8' } else { '9' }
}

fn digit_str(d: u64) -> (r: &'static str)
    requires
        d < 10,
    ensures
        r@ == seq![digit_char(d as nat)],
{
    if d == 0 { proof { reveal_strlit("0"); } "0" }
    else if d == 1 { proof { reveal_strlit("1"); } "1" }
    else if d == 2 { proof { reveal_strlit("2"); } "2" }
    else if d == 3 { proof { reveal_strlit("3"); } "3" }
    else if d == 4 { proof { reveal_strlit("4"); } "4" }
    else if d == 5 { proof { reveal_strlit("5"); } "5" }
    else if d == 6 { proof { reveal_strlit("6"); } "6" }
    else if d == 7 { proof { reveal_strlit("7"); } "7" }
    else if d == 8 { proof { reveal_strlit("8"); } "8" }
    else { proof { reveal_strlit("9"); } "9" }
}

/// Appends the decimal text of `n` to `s`.
pub fn append_decimal(s: &mut String, n: u64)
    ensures
        final(s)@ == old(s)@ + decimal(n as nat),
    decreases n,
{
    if n < 10 {
        s.append(digit_str(n));
        assert(decimal(n as nat) == seq![digit_char(n as nat)]);
    } else {
        append_decimal(s, n / 10);
        s.append(digit_str(n % 10));
        assert(decimal(n as nat) == decimal((n / 10) as nat).push(digit_char((n % 10) as nat)));
        assert(final(s)@ =~= old(s)@ + decimal(n as nat));
    }
}

/// The pieces of `s` between the dots, as `str::split('.')` cuts them.
pub open spec fn split_dots(s: Seq<char>) -> Seq<Seq<char>>
    decreases s.len(),
{
    if s.len() == 0 {
        seq![Seq::<char>::empty()]
    } else {
        let rest = split_dots(s.drop_last());
        if s.last() == '.' {
            rest.push(Seq::<char>::empty())
        } else {
            rest.update(rest.len() - 1, rest.last().push(s.last()))
        }
    }
}

proof fn lemma_split_dots_len(s: Seq<char>)
    ensures
        split_dots(s).len() >= 1,
    decreases s.len(),
{
    if s.len() > 0 {
        lemma_split_dots_len(s.drop_last());
    }
}

/// Cuts `domain` at its dots, as `str::split('.')` does.
pub fn split_on_dots(domain: &str) -> (r: Vec<&str>)
    ensures
        r@.map_values(|s: &str| s@) == split_dots(domain@),
{
    let n = domain.unicode_len();
    let mut pieces: Vec<&str> = Vec::new();
    let mut start: usize = 0;
    let mut i: usize = 0;
    proof {
        assert(domain@.subrange(0, 0) =~= Seq::<char>::empty());
        assert(pieces@.map_values(|s: &str| s@).push(domain@.subrange(0, 0)) =~= seq![
            Seq::<char>::empty(),
        ]);
    }
    while i < n
        invariant
            n == domain@.len(),
            start <= i <= n,
            pieces@.map_values(|s: &str| s@).push(domain@.subrange(start as int, i as int))
                == split_dots(domain@.subrange(0, i as int)),
        decreases n - i,
    {
        let c = domain.get_char(i);
        let ghost before = domain@.subrange(0, i as int);
        let ghost pm = pieces@.map_values(|s: &str| s@);
        let ghost cur = domain@.subrange(start as int, i as int);
        proof {
            let s1 = domain@.subrange(0, i + 1);
            assert(s1.drop_last() =~= before);
            assert(s1.last() == c);
            lemma_split_dots_len(before);
        }
        if c == '.' {
            let piece = domain.substring_char(start, i);
            pieces.push(piece);
            i = i + 1;
            start = i;
            proof {
                assert(pieces@.map_values(|s: &str| s@) =~= pm.push(cur));
                assert(domain@.subrange(start as int, i as int) =~= Seq::<char>::empty());
                assert(split_dots(domain@.subrange(0, i as int)) == split_dots(before).push(
                    Seq::<char>::empty(),
                ));
                assert(pieces@.map_values(|s: &str| s@).push(domain@.subrange(start as int, i as int))
                    =~= split_dots(domain@.subrange(0, i as int)));
            }
        } else {
            i = i + 1;
            proof {
                let sd = split_dots(before);
                assert(sd == pm.push(cur));
                assert(split_dots(domain@.subrange(0, i as int)) == sd.update(sd.len() - 1, sd.last().push(c)));
                assert(domain@.subrange(start as int, i as int) =~= domain@.subrange(
                    start as int,
                    i - 1,
                ).push(c));
                assert(pieces@.map_values(|s: &str| s@).push(domain@.subrange(start as int, i as int))
                    =~= split_dots(domain@.subrange(0, i as int)));
            }
        }
    }
    let last = domain.substring_char(start, n);
    pieces.push(last);
    proof {
        assert(domain@.subrange(0, n as int) =~= domain@);
        assert(pieces@.map_values(|s: &str| s@) =~= split_dots(domain@));
    }
    pieces
}

} // verus!
