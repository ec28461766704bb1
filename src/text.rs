//! Byte-level text helpers for handshake lines: ASCII whitespace runs,
//! trimming and decimal tokens.

use vstd::prelude::*;

verus! {

/// ASCII whitespace: space, tab, line feed, vertical tab, form feed, return.
pub open spec fn is_space(c: u8) -> bool {
    c == 32 || (9 <= c <= 13)
}

pub fn is_space_byte(c: u8) -> (r: bool)
    ensures
        r == is_space(c),
{
    c == 32 || (9 <= c && c <= 13)
}

/// Length of the leading run of bytes that are whitespace (`ws`) or are not.
pub open spec fn run_len(s: Seq<u8>, ws: bool) -> nat
    decreases s.len(),
{
    if s.len() > 0 && is_space(s[0]) == ws {
        1 + run_len(s.subrange(1, s.len() as int), ws)
    } else {
        0
    }
}

/// Length of the trailing run of whitespace.
pub open spec fn trailing_space_len(s: Seq<u8>) -> nat
    decreases s.len(),
{
    if s.len() > 0 && is_space(s.last()) {
        1 + trailing_space_len(s.drop_last())
    } else {
        0
    }
}

/// `s` without leading and trailing whitespace.
pub open spec fn trim(s: Seq<u8>) -> Seq<u8> {
    let rest = s.subrange(run_len(s, true) as int, s.len() as int);
    rest.subrange(0, rest.len() - trailing_space_len(rest))
}

/// End of the run of `ws`-bytes that starts at `start` within `s[start..end]`.
pub fn run_end(s: &[u8], start: usize, end: usize, ws: bool) -> (r: usize)
    requires
        start <= end <= s@.len(),
    ensures
        r == start + run_len(s@.subrange(start as int, end as int), ws),
        r <= end,
{
    let mut i: usize = start;
    while i < end && is_space_byte(s[i]) == ws
        invariant
            start <= i <= end <= s@.len(),
            run_len(s@.subrange(start as int, end as int), ws) == (i - start) + run_len(
                s@.subrange(i as int, end as int),
                ws,
            ),
        decreases end - i,
    {
        proof {
            let sub = s@.subrange(i as int, end as int);
            assert(sub.subrange(1, sub.len() as int) =~= s@.subrange(i + 1, end as int));
        }
        i = i + 1;
    }
    i
}

/// Start of the trailing whitespace run of `s[start..end]`.
pub fn trailing_start(s: &[u8], start: usize, end: usize) -> (r: usize)
    requires
        start <= end <= s@.len(),
    ensures
        r == end - trailing_space_len(s@.subrange(start as int, end as int)),
        start <= r <= end,
{
    let mut j: usize = end;
    while j > start && is_space_byte(s[j - 1])
        invariant
            start <= j <= end <= s@.len(),
            trailing_space_len(s@.subrange(start as int, end as int)) == (end - j)
                + trailing_space_len(s@.subrange(start as int, j as int)),
        decreases j - start,
    {
        proof {
            let sub = s@.subrange(start as int, j as int);
            assert(sub.drop_last() =~= s@.subrange(start as int, j - 1));
        }
        j = j - 1;
    }
    j
}

/// Bounds `(a, b)` such that `s[a..b]` is `trim(s)`.
pub fn trim_bounds(s: &[u8]) -> (r: (usize, usize))
    ensures
        r.0 <= r.1 <= s@.len(),
        s@.subrange(r.0 as int, r.1 as int) == trim(s@),
{
    let a = run_end(s, 0, s.len(), true);
    let b = trailing_start(s, a, s.len());
    proof {
        assert(s@.subrange(0, s@.len() as int) =~= s@);
        let rest = s@.subrange(a as int, s@.len() as int);
        assert(rest.subrange(0, rest.len() - trailing_space_len(rest)) =~= s@.subrange(
            a as int,
            b as int,
        ));
    }
    (a, b)
}

/// Value of a string of ASCII digits, most significant first.
pub open spec fn decimal_value(s: Seq<u8>) -> nat
    decreases s.len(),
{
    if s.len() == 0 {
        0
    } else {
        decimal_value(s.drop_last()) * 10 + (s.last() - 48) as nat
    }
}

pub open spec fn is_decimal(s: Seq<u8>) -> bool {
    &&& s.len() > 0
    &&& forall|i: int| 0 <= i < s.len() ==> 48 <= #[trigger] s[i] <= 57
}

/// Reads a decimal token, saturating: `Some(v)` where the value fits below
/// `cap`, `None` where the text is not a non-empty run of digits or the value
/// is at least `cap`.
pub fn decimal_below(s: &[u8], cap: u64) -> (r: Option<u64>)
    requires
        cap <= 1_000_000,
    ensures
        r matches Some(v) ==> is_decimal(s@) && v == decimal_value(s@) && v < cap,
        r is None ==> !is_decimal(s@) || decimal_value(s@) >= cap,
{
    if s.len() == 0 || cap == 0 {
        return None;
    }
    let mut v: u64 = 0;
    let mut i: usize = 0;
    while i < s.len()
        invariant
            i <= s@.len(),
            v < cap <= 1_000_000,
            v == decimal_value(s@.subrange(0, i as int)),
            forall|k: int| 0 <= k < i ==> 48 <= #[trigger] s@[k] <= 57,
        decreases s@.len() - i,
    {
        let c = s[i];
        if c < 48 || c > 57 {
            return None;
        }
        proof {
            assert(s@.subrange(0, i + 1).drop_last() =~= s@.subrange(0, i as int));
        }
        let next = v * 10 + (c - 48) as u64;
        if next >= cap {
            proof {
                lemma_decimal_grows(s@, i as int + 1);
            }
            return None;
        }
        v = next;
        i = i + 1;
    }
    proof {
        assert(s@.subrange(0, i as int) =~= s@);
    }
    Some(v)
}

/// Appending digits never lowers the value.
pub proof fn lemma_decimal_grows(s: Seq<u8>, k: int)
    requires
        0 <= k <= s.len(),
    ensures
        decimal_value(s.subrange(0, k)) <= decimal_value(s),
    decreases s.len() - k,
{
    if k < s.len() {
        lemma_decimal_grows(s, k + 1);
        assert(s.subrange(0, k + 1).drop_last() =~= s.subrange(0, k));
    } else {
        assert(s.subrange(0, k) =~= s);
    }
}

} // verus!
