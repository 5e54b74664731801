//! Hexadecimal digits and the number they spell, as `u32::from_str_radix` with radix 16 reads
//! them: an optional `+`, then one or more hexadecimal digits, within `u32`.
use vstd::prelude::*;

verus! {

pub open spec fn hex_val(c: char) -> int {
    if '0' <= c <= '9' {
        (c as int) - ('0' as int)
    } else if 'a' <= c <= 'f' {
        (c as int) - ('a' as int) + 10
    } else if 'A' <= c <= 'F' {
        (c as int) - ('A' as int) + 10
    } else {
        -1
    }
}

/// The number that hexadecimal digits spell.
pub open spec fn hex_value(s: Seq<char>) -> int
    decreases s.len(),
{
    if s.len() == 0 {
        0
    } else {
        hex_value(s.drop_last()) * 16 + hex_val(s.last())
    }
}

pub open spec fn all_hex(s: Seq<char>) -> bool {
    forall|i: int| 0 <= i < s.len() ==> hex_val(#[trigger] s[i]) >= 0
}

pub proof fn lemma_hex_monotone(s: Seq<char>, k: int)
    requires
        all_hex(s),
        0 <= k <= s.len(),
    ensures
        hex_value(s.take(k)) <= hex_value(s),
        hex_value(s.take(k)) >= 0,
    decreases s.len() - k,
{
    if k < s.len() {
        lemma_hex_monotone(s, k + 1);
        assert(s.take(k + 1).drop_last() =~= s.take(k));
        assert(hex_val(s[k]) >= 0);
    } else {
        assert(s.take(k) =~= s);
        lemma_hex_nonneg(s);
    }
}

pub proof fn lemma_hex_nonneg(s: Seq<char>)
    requires
        all_hex(s),
    ensures
        hex_value(s) >= 0,
    decreases s.len(),
{
    if s.len() > 0 {
        assert(hex_val(s[s.len() - 1]) >= 0);
        lemma_hex_nonneg(s.drop_last());
    }
}

/// What `u32::from_str_radix(s, 16)` gives: an optional leading `+`, then at least one
/// hexadecimal digit (either case) and nothing else, spelling a number within `u32`.
pub open spec fn radix16_spec(s: Seq<char>) -> Option<u32> {
    let d = if s.len() > 0 && s[0] == '+' { s.skip(1) } else { s };
    if d.len() == 0 || !all_hex(d) || hex_value(d) > u32::MAX as int {
        None
    } else {
        Some(hex_value(d) as u32)
    }
}

/// Reads a hexadecimal `u32` (see `radix16_spec`).
pub fn parse_radix16(s: &[char]) -> (r: Option<u32>)
    ensures
        r == radix16_spec(s@),
{
    let start: usize = if s.len() > 0 && s[0] == '+' { 1 } else { 0 };
    let ghost d = if s@.len() > 0 && s@[0] == '+' { s@.skip(1) } else { s@ };
    assert(d =~= s@.skip(start as int));
    if start >= s.len() {
        return None;
    }
    let mut v: u64 = 0;
    let mut i: usize = start;
    while i < s.len()
        invariant
            start <= i <= s.len(),
            start < s.len(),
            d == s@.skip(start as int),
            d == (if s@.len() > 0 && s@[0] == '+' { s@.skip(1) } else { s@ }),
            forall|k: int| 0 <= k < i - start ==> hex_val(#[trigger] d[k]) >= 0,
            v == hex_value(d.take(i - start)),
            v <= u32::MAX,
        decreases s.len() - i,
    {
        let c = s[i];
        assert(c == d[i - start]);
        if !(('0' <= c && c <= '9') || ('a' <= c && c <= 'f') || ('A' <= c && c <= 'F')) {
            assert(!all_hex(d));
            return None;
        }
        assert(d.take(i - start + 1).drop_last() =~= d.take(i - start));
        let dv: u64 = if '0' <= c && c <= '9' {
            (c as u64) - ('0' as u64)
        } else if 'a' <= c && c <= 'f' {
            (c as u64) - ('a' as u64) + 10
        } else {
            (c as u64) - ('A' as u64) + 10
        };
        v = v * 16 + dv;
        i = i + 1;
        if v > 0xFFFF_FFFFu64 {
            // the rest may still hold a non-digit; either way there is no number
            let mut j = i;
            while j < s.len()
                invariant
                    start < i <= j <= s.len(),
                    d == s@.skip(start as int),
                    d == (if s@.len() > 0 && s@[0] == '+' { s@.skip(1) } else { s@ }),
                    forall|k: int| 0 <= k < j - start ==> hex_val(#[trigger] d[k]) >= 0,
                    hex_value(d.take(i - start)) > u32::MAX,
                decreases s.len() - j,
            {
                let c2 = s[j];
                assert(c2 == d[j - start]);
                if !(('0' <= c2 && c2 <= '9') || ('a' <= c2 && c2 <= 'f') || ('A' <= c2 && c2 <= 'F')) {
                    assert(!all_hex(d));
                    return None;
                }
                j = j + 1;
            }
            proof {
                assert(all_hex(d));
                lemma_hex_monotone(d, i - start);
            }
            return None;
        }
    }
    assert(d.take(d.len() as int) =~= d);
    assert(all_hex(d));
    Some(v as u32)
}

} // verus!
