//! Device selection: parsing one line of operator input as an index into the
//! list of candidate devices.
//!
//! The interactive prompt loop stays outside the crate; it repeats for ever
//! on input that selects nothing, so bad input is never an error. The parsing
//! itself is a pure function: the line, stripped of surrounding whitespace,
//! must spell a decimal index smaller than the number of candidates.

use vstd::prelude::*;

verus! {

/// Whether `c` is one of the whitespace characters stripped from operator
/// input before parsing (space, tab, carriage return, line feed).
pub open spec fn is_selection_space(c: char) -> bool {
    c == ' ' || c == '\t' || c == '\r' || c == '\n'
}

/// Whether `c` is a decimal digit.
pub open spec fn is_decimal_digit(c: char) -> bool {
    '0' <= c && c <= '9'
}

/// The numeric value of the decimal digit `c`.
pub open spec fn digit_value(c: char) -> int {
    c as int - '0' as int
}

/// Whether every character of `s` is a decimal digit.
pub open spec fn all_decimal_digits(s: Seq<char>) -> bool {
    forall|i: int| 0 <= i < s.len() ==> is_decimal_digit(#[trigger] s[i])
}

/// The value of `s` read as a decimal numeral.
pub open spec fn decimal_value(s: Seq<char>) -> int
    decreases s.len(),
{
    if s.len() == 0 {
        0
    } else {
        decimal_value(s.drop_last()) * 10 + digit_value(s.last())
    }
}

/// `s` without its leading stripped-whitespace characters.
pub open spec fn trim_front(s: Seq<char>) -> Seq<char>
    decreases s.len(),
{
    if s.len() > 0 && is_selection_space(s[0]) {
        trim_front(s.subrange(1, s.len() as int))
    } else {
        s
    }
}

/// `s` without its trailing stripped-whitespace characters.
pub open spec fn trim_back(s: Seq<char>) -> Seq<char>
    decreases s.len(),
{
    if s.len() > 0 && is_selection_space(s.last()) {
        trim_back(s.drop_last())
    } else {
        s
    }
}

/// `s` without leading and trailing stripped whitespace.
pub open spec fn trimmed(s: Seq<char>) -> Seq<char> {
    trim_back(trim_front(s))
}

/// What one line of operator input selects from a list of `candidate_count`
/// devices: the index it spells in decimal, when that index is in range, and
/// nothing otherwise.
pub open spec fn spec_parse_selection(input: Seq<char>, candidate_count: int) -> Option<int> {
    let t = trimmed(input);
    if t.len() > 0 && all_decimal_digits(t) && decimal_value(t) < candidate_count {
        Some(decimal_value(t))
    } else {
        None
    }
}

/// The enumeration positions of the usable candidate devices, in enumeration
/// order: position `i` is kept exactly when `named[i]` says the device's name
/// could be retrieved. A nameless device is silently excluded, not an error.
pub open spec fn spec_usable_indices(named: Seq<bool>) -> Seq<int>
    decreases named.len(),
{
    if named.len() == 0 {
        Seq::empty()
    } else if named.last() {
        spec_usable_indices(named.drop_last()).push(named.len() - 1)
    } else {
        spec_usable_indices(named.drop_last())
    }
}

/// Filters an enumerated device list down to the usable candidates: `named`
/// says, per enumeration position, whether the device's name could be
/// retrieved, and the result maps each presented index (a position in the
/// filtered list, the list the operator sees) back to its enumeration
/// position, in order.
pub fn usable_indices(named: &Vec<bool>) -> (indices: Vec<usize>)
    ensures
        indices@.map_values(|p: usize| p as int) == spec_usable_indices(named@),
{
    let mut indices: Vec<usize> = Vec::new();
    let mut i: usize = 0;
    while i < named.len()
        invariant
            i <= named@.len(),
            indices@.map_values(|p: usize| p as int) == spec_usable_indices(named@.take(i as int)),
        decreases named@.len() - i,
    {
        let ghost before = indices@;
        if named[i] {
            indices.push(i);
        }
        proof {
            assert(named@.take(i as int + 1).drop_last() =~= named@.take(i as int));
            assert(named@.take(i as int + 1).last() == named@[i as int]);
            if named@[i as int] {
                assert(indices@.map_values(|p: usize| p as int) =~= before.map_values(
                    |p: usize| p as int,
                ).push(i as int));
            }
        }
        i = i + 1;
    }
    proof {
        assert(named@.take(named@.len() as int) =~= named@);
    }
    indices
}

/// A decimal numeral never has a negative value.
proof fn lemma_decimal_value_nonneg(s: Seq<char>)
    requires
        all_decimal_digits(s),
    ensures
        decimal_value(s) >= 0,
    decreases s.len(),
{
    if s.len() > 0 {
        assert forall|i: int| 0 <= i < s.drop_last().len() implies is_decimal_digit(
            #[trigger] s.drop_last()[i],
        ) by {
            assert(s.drop_last()[i] == s[i]);
        }
        lemma_decimal_value_nonneg(s.drop_last());
        assert(s.last() == s[s.len() - 1]);
    }
}

/// Appending digits to a numeral never shrinks its value: the value of a
/// prefix is at most the value of the whole.
proof fn lemma_decimal_prefix_le(s: Seq<char>, k: int)
    requires
        all_decimal_digits(s),
        0 <= k <= s.len(),
    ensures
        decimal_value(s.take(k)) <= decimal_value(s),
    decreases s.len() - k,
{
    if k == s.len() {
        assert(s.take(k) =~= s);
    } else {
        assert(s.take(k + 1).drop_last() =~= s.take(k));
        assert(s.take(k + 1).last() == s[k]);
        assert forall|i: int| 0 <= i < s.take(k).len() implies is_decimal_digit(
            #[trigger] s.take(k)[i],
        ) by {
            assert(s.take(k)[i] == s[i]);
        }
        lemma_decimal_value_nonneg(s.take(k));
        assert(decimal_value(s.take(k + 1)) >= decimal_value(s.take(k)));
        lemma_decimal_prefix_le(s, k + 1);
    }
}

/// Runtime test for stripped whitespace.
fn is_space_char(c: char) -> (space: bool)
    ensures
        space == is_selection_space(c),
{
    c == ' ' || c == '\t' || c == '\r' || c == '\n'
}

/// The decimal value of `c`, when `c` is a digit.
fn digit_of(c: char) -> (digit: Option<u32>)
    ensures
        digit matches Some(d) ==> is_decimal_digit(c) && d == digit_value(c),
        digit is None ==> !is_decimal_digit(c),
{
    let v: u32 = c as u32;
    if 48 <= v && v <= 57 {
        Some(v - 48)
    } else {
        None
    }
}

/// Parses one line of operator input as a device selection.
///
/// The line, with surrounding whitespace stripped, must spell a decimal index
/// smaller than `candidate_count`; every other line (empty, not a numeral,
/// index out of range, value too large to compute) selects nothing, and the
/// caller's prompt simply repeats.
pub fn parse_selection(input: &str, candidate_count: usize) -> (selection: Option<usize>)
    ensures
        selection matches Some(index) ==> spec_parse_selection(input@, candidate_count as int)
            == Some(index as int),
        selection is None ==> spec_parse_selection(input@, candidate_count as int) is None,
        selection matches Some(index) ==> index < candidate_count,
{
    let len: usize = input.unicode_len();
    proof {
        assert(input@.subrange(0, len as int) =~= input@);
    }
    let mut start: usize = 0;
    while start < len && is_space_char(input.get_char(start))
        invariant
            start <= len,
            len == input@.len(),
            trim_front(input@) == trim_front(input@.subrange(start as int, len as int)),
        decreases len - start,
    {
        proof {
            let seg = input@.subrange(start as int, len as int);
            assert(seg[0] == input@[start as int]);
            assert(seg.subrange(1, seg.len() as int) =~= input@.subrange(
                start as int + 1,
                len as int,
            ));
        }
        start = start + 1;
    }
    proof {
        let seg = input@.subrange(start as int, len as int);
        if start < len {
            assert(seg[0] == input@[start as int]);
        }
        assert(trim_front(input@) == seg);
    }
    let mut end: usize = len;
    while end > start && is_space_char(input.get_char(end - 1))
        invariant
            start <= end <= len,
            len == input@.len(),
            trim_front(input@) == input@.subrange(start as int, len as int),
            trim_back(input@.subrange(start as int, len as int)) == trim_back(
                input@.subrange(start as int, end as int),
            ),
        decreases end,
    {
        proof {
            let seg = input@.subrange(start as int, end as int);
            assert(seg.last() == input@[end - 1]);
            assert(seg.drop_last() =~= input@.subrange(start as int, end as int - 1));
        }
        end = end - 1;
    }
    let ghost t: Seq<char> = input@.subrange(start as int, end as int);
    proof {
        if end > start {
            assert(t.last() == input@[end - 1]);
        }
        assert(trimmed(input@) == t);
    }
    if start == end {
        return None;
    }
    if candidate_count == 0 {
        proof {
            if all_decimal_digits(t) {
                lemma_decimal_value_nonneg(t);
            }
        }
        return None;
    }
    let mut acc: usize = 0;
    let mut i: usize = start;
    while i < end
        invariant
            start <= i <= end <= len,
            len == input@.len(),
            start < end,
            candidate_count > 0,
            t == input@.subrange(start as int, end as int),
            t == trimmed(input@),
            all_decimal_digits(input@.subrange(start as int, i as int)),
            acc == decimal_value(input@.subrange(start as int, i as int)),
            acc < candidate_count,
        decreases end - i,
    {
        let ghost prefix = input@.subrange(start as int, i as int);
        let c: char = input.get_char(i);
        let d: u32 = match digit_of(c) {
            Some(d) => d,
            None => {
                proof {
                    assert(t[i - start] == input@[i as int]);
                    assert(!all_decimal_digits(t));
                }
                return None;
            },
        };
        proof {
            assert(input@.subrange(start as int, i as int + 1).drop_last() =~= prefix);
            assert(input@.subrange(start as int, i as int + 1).last() == input@[i as int]);
            assert(decimal_value(input@.subrange(start as int, i as int + 1)) == acc * 10
                + digit_value(c));
            assert forall|j: int|
                0 <= j < input@.subrange(start as int, i as int + 1).len() implies is_decimal_digit(
                #[trigger] input@.subrange(start as int, i as int + 1)[j],
            ) by {
                assert(input@.subrange(start as int, i as int + 1)[j] == input@[start + j]);
                if j < i - start {
                    assert(prefix[j] == input@[start + j]);
                }
            }
            vstd::arithmetic::div_mod::lemma_fundamental_div_mod(candidate_count as int, 10);
            vstd::arithmetic::div_mod::lemma_mod_bound(candidate_count as int, 10);
        }
        let ghost grown = input@.subrange(start as int, i as int + 1);
        let q: usize = candidate_count / 10;
        if acc > q || candidate_count - acc * 10 <= d as usize {
            proof {
                assert(decimal_value(grown) >= candidate_count);
                if all_decimal_digits(t) {
                    assert(t.take(i + 1 - start as int) =~= grown);
                    lemma_decimal_prefix_le(t, i + 1 - start as int);
                    assert(decimal_value(t) >= candidate_count);
                }
            }
            return None;
        }
        acc = acc * 10 + d as usize;
        i = i + 1;
    }
    proof {
        assert(input@.subrange(start as int, i as int) == t);
    }
    Some(acc)
}

} // verus!
