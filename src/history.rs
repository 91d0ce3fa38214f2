//! The history of round winners, in the order of the rounds.
use vstd::prelude::*;
use vstd::string::*;
use crate::text::starts_with;

verus! {

pub open spec fn is_digit(c: char) -> bool {
    '0' <= c && c <= '9'
}

/// The value of a string of decimal digits.
pub open spec fn digits_value(s: Seq<char>) -> nat
    decreases s.len(),
{
    if s.len() == 0 {
        0
    } else {
        digits_value(s.drop_last()) * 10 + ((s.last() as u32) - ('0' as u32)) as nat
    }
}

/// A round number written in decimal: one or more digits, of a value that
/// fits in 64 bits.
pub open spec fn parse_round_spec(s: Seq<char>) -> Option<u64> {
    if s.len() > 0 && (forall|i: int| 0 <= i < s.len() ==> is_digit(#[trigger] s[i]))
        && digits_value(s) <= u64::MAX {
        Some(digits_value(s) as u64)
    } else {
        None
    }
}

/// Whether a winning-team label names the counter-terrorists.
pub open spec fn is_ct_label(t: Seq<char>) -> bool {
    3 <= t.len() && t.subrange(0, 3) == "ct_"@
}

proof fn lemma_digits_prefix_le(s: Seq<char>, k: int)
    requires
        0 <= k <= s.len(),
    ensures
        digits_value(s.subrange(0, k)) <= digits_value(s),
    decreases s.len() - k,
{
    if k < s.len() {
        let t = s.subrange(0, k + 1);
        assert(t.drop_last() =~= s.subrange(0, k));
        lemma_digits_prefix_le(s, k + 1);
    } else {
        assert(s.subrange(0, k) =~= s);
    }
}

/// Reads a round number written in decimal.
pub fn parse_round(s: &str) -> (r: Option<u64>)
    ensures
        r == parse_round_spec(s@),
{
    let n = s.unicode_len();
    if n == 0 {
        return None;
    }
    let mut v: u64 = 0;
    let mut i: usize = 0;
    while i < n
        invariant
            n == s@.len(),
            0 < n,
            i <= n,
            forall|j: int| 0 <= j < i ==> is_digit(#[trigger] s@[j]),
            v == digits_value(s@.subrange(0, i as int)),
        decreases n - i,
    {
        let c = s.get_char(i);
        if c < '0' || c > '9' {
            assert(!is_digit(s@[i as int]));
            return None;
        }
        let d: u64 = (c as u32 - '0' as u32) as u64;
        proof {
            let t = s@.subrange(0, i + 1);
            assert(t.drop_last() =~= s@.subrange(0, i as int));
            assert(digits_value(t) == v * 10 + d);
        }
        if v > (u64::MAX - d) / 10 {
            proof {
                assert(v * 10 + d > u64::MAX) by (nonlinear_arith)
                    requires v > (u64::MAX - d) / 10, d <= 9;
                lemma_digits_prefix_le(s@, i + 1);
            }
            return None;
        }
        proof {
            assert(v * 10 + d <= u64::MAX) by (nonlinear_arith)
                requires v <= (u64::MAX - d) / 10, d <= 9;
        }
        v = v * 10 + d;
        i = i + 1;
    }
    assert(s@.subrange(0, n as int) =~= s@);
    Some(v)
}

/// Every key of the history is a round number.
pub open spec fn all_rounds_parse(w: Seq<(String, String)>) -> bool {
    forall|i: int| 0 <= i < w.len() ==> (#[trigger] parse_round_spec(w[i].0@)) is Some
}

/// The history as round numbers and whether the counter-terrorists won.
pub open spec fn history_entries(w: Seq<(String, String)>) -> Seq<(u64, bool)> {
    Seq::new(w.len(), |i: int| (parse_round_spec(w[i].0@).unwrap(), is_ct_label(w[i].1@)))
}

/// The index of the first entry with the smallest round number.
pub open spec fn first_min(s: Seq<(u64, bool)>) -> int
    decreases s.len(),
{
    if s.len() <= 1 {
        0
    } else {
        let m = first_min(s.drop_last());
        if s.last().0 < s[m].0 {
            s.len() - 1
        } else {
            m
        }
    }
}

/// The entries in ascending order of round number, entries with equal
/// numbers in their order of listing.
pub open spec fn sort_by_round(s: Seq<(u64, bool)>) -> Seq<(u64, bool)>
    decreases s.len(),
{
    if s.len() == 0 {
        s
    } else {
        let m = first_min(s);
        let m = if 0 <= m < s.len() {
            m
        } else {
            0
        };
        seq![s[m]] + sort_by_round(s.remove(m))
    }
}

/// The history in the order of the rounds, or `None` where a key is not a
/// round number.
pub open spec fn round_history_spec(w: Seq<(String, String)>) -> Option<Seq<(u64, bool)>> {
    if all_rounds_parse(w) {
        Some(sort_by_round(history_entries(w)))
    } else {
        None
    }
}

fn find_first_min(s: &Vec<(u64, bool)>) -> (m: usize)
    requires
        s@.len() > 0,
    ensures
        m == first_min(s@),
        m < s@.len(),
{
    let mut m: usize = 0;
    let mut j: usize = 1;
    while j < s.len()
        invariant
            1 <= j <= s@.len(),
            m < j,
            m == first_min(s@.subrange(0, j as int)),
        decreases s@.len() - j,
    {
        proof {
            let t = s@.subrange(0, j + 1);
            assert(t.drop_last() =~= s@.subrange(0, j as int));
        }
        if s[j].0 < s[m].0 {
            m = j;
        }
        j = j + 1;
    }
    assert(s@.subrange(0, s@.len() as int) =~= s@);
    m
}

/// The history in the order of the rounds; `None` where a key is not a
/// round number.
pub fn round_history(wins: &Vec<(String, String)>) -> (r: Option<Vec<(u64, bool)>>)
    ensures
        r matches Some(v) ==> round_history_spec(wins@) == Some(v@),
        r is None ==> round_history_spec(wins@) is None,
{
    let mut entries: Vec<(u64, bool)> = Vec::new();
    let mut i: usize = 0;
    while i < wins.len()
        invariant
            i <= wins@.len(),
            entries@.len() == i,
            forall|j: int| 0 <= j < i ==> (#[trigger] parse_round_spec(wins@[j].0@)) is Some,
            forall|j: int| 0 <= j < i ==> #[trigger] entries@[j] == history_entries(wins@)[j],
        decreases wins@.len() - i,
    {
        let key = parse_round(wins[i].0.as_str());
        match key {
            Some(k) => {
                let ct = starts_with(wins[i].1.as_str(), "ct_");
                proof {
                    reveal_strlit("ct_");
                    assert(ct == is_ct_label(wins@[i as int].1@));
                }
                entries.push((k, ct));
            },
            None => {
                return None;
            },
        }
        i = i + 1;
    }
    assert(entries@ =~= history_entries(wins@));
    let ghost all = entries@;
    let mut out: Vec<(u64, bool)> = Vec::new();
    while entries.len() > 0
        invariant
            out@ + sort_by_round(entries@) == sort_by_round(all),
        decreases entries@.len(),
    {
        let m = find_first_min(&entries);
        let ghost before = entries@;
        let x = entries.remove(m);
        proof {
            assert(entries@ == before.remove(m as int));
            assert(sort_by_round(before) == seq![x] + sort_by_round(entries@));
            assert(out@.push(x) + sort_by_round(entries@) =~= out@ + sort_by_round(before));
        }
        out.push(x);
    }
    assert(out@ =~= out@ + sort_by_round(entries@));
    Some(out)
}

} // verus!
