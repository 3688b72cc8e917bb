//! The three safety limits and how a configured value is read.

use vstd::prelude::*;

verus! {

/// Name under which the configuration holds the response budget.
pub const MAX_RESPONSE_CHARS_VAR: &'static str = "MCP_MAX_RESPONSE_CHARS";

/// Name under which the configuration holds the search size cap.
pub const MAX_SEARCH_SIZE_VAR: &'static str = "MCP_MAX_SEARCH_SIZE";

/// Name under which the configuration holds the listing cap.
pub const MAX_INDEX_LIST_VAR: &'static str = "MCP_MAX_INDEX_LIST";

/// Most characters that one data part of a response may hold.
pub const DEFAULT_MAX_RESPONSE_CHARS: usize = 15_000;

/// Largest result count that a search may ask for.
pub const DEFAULT_MAX_SEARCH_SIZE: u64 = 200;

/// Most entries that an index listing shows.
pub const DEFAULT_MAX_INDEX_LIST: usize = 100;

/// Whether `c` is one of the ten decimal digits.
pub open spec fn is_digit(c: char) -> bool {
    '0' <= c <= '9'
}

/// The number that a decimal digit writes.
pub open spec fn digit_value(c: char) -> nat
    recommends
        is_digit(c),
{
    (c as u32 - '0' as u32) as nat
}

/// The number that a run of decimal digits writes.
pub open spec fn digits_value(s: Seq<char>) -> nat
    decreases s.len(),
{
    if s.len() == 0 {
        0
    } else {
        digits_value(s.drop_last()) * 10 + digit_value(s.last())
    }
}

/// Whether `s` holds decimal digits and nothing else.
pub open spec fn all_digits(s: Seq<char>) -> bool {
    forall|i: int| 0 <= i < s.len() ==> is_digit(#[trigger] s[i])
}

/// What is left of `s` after one leading plus sign, if it has one.
pub open spec fn unsigned_part(s: Seq<char>) -> Seq<char> {
    if s.len() > 0 && s[0] == '+' {
        s.subrange(1, s.len() as int)
    } else {
        s
    }
}

/// The number that `s` writes: an optional plus sign, then one or more
/// decimal digits and nothing else.
pub open spec fn written_count(s: Seq<char>) -> Option<nat> {
    let digits = unsigned_part(s);
    if digits.len() > 0 && all_digits(digits) {
        Some(digits_value(digits))
    } else {
        None
    }
}

/// A longer run of digits never writes a smaller number than its beginning.
pub proof fn lemma_digits_value_grows(s: Seq<char>, k: int)
    requires
        0 <= k <= s.len(),
    ensures
        digits_value(s.subrange(0, k)) <= digits_value(s),
    decreases s.len(),
{
    if k == s.len() {
        assert(s.subrange(0, k) =~= s);
    } else {
        lemma_digits_value_grows(s.drop_last(), k);
        assert(s.drop_last().subrange(0, k) =~= s.subrange(0, k));
    }
}

/// One more digit at the end multiplies by ten and adds the digit.
pub proof fn lemma_digits_value_push(s: Seq<char>, c: char)
    ensures
        digits_value(s.push(c)) == digits_value(s) * 10 + digit_value(c),
{
    assert(s.push(c).drop_last() =~= s);
}

/// Reads a count from `text`; `None` where `text` writes no count or one
/// that does not fit.
pub fn parse_count(text: &str) -> (r: Option<u64>)
    ensures
        r == match written_count(text@) {
            Some(v) if v <= u64::MAX => Some(v as u64),
            _ => None::<u64>,
        },
{
    let ghost digits = unsigned_part(text@);
    let ghost start: int = text@.len() - digits.len();
    let mut first = true;
    let mut any_digit = false;
    let mut value: u64 = 0;
    for c in it: text.chars()
        invariant
            it.seq() == text@,
            digits == unsigned_part(text@),
            start == text@.len() - digits.len(),
            0 <= start <= 1,
            first == (it.index() == 0),
            any_digit == (it.index() > start),
            it.index() > 0 ==> it.index() >= start,
            it.index() > 0 ==> all_digits(digits.subrange(0, it.index() - start)),
            it.index() > 0 ==> value == digits_value(digits.subrange(0, it.index() - start)),
            it.index() == 0 ==> value == 0,
    {
        let ghost i = it.index() as int;
        assert(text@[i] == c);
        if first && c == '+' {
            first = false;
            proof {
                assert(start == 1);
                let none = digits.subrange(0, 0);
                assert(none =~= Seq::<char>::empty());
                assert(digits_value(none) == 0);
                assert(all_digits(none));
            }
        } else {
            proof {
                if i == 0 {
                    assert(start == 0);
                }
                assert(i >= start);
            }
            first = false;
            let ghost before = digits.subrange(0, i - start);
            let ghost after = digits.subrange(0, i + 1 - start);
            proof {
                assert(digits[i - start] == c);
                assert(after =~= before.push(c));
                if i == 0 {
                    assert(before =~= Seq::<char>::empty());
                    assert(digits_value(before) == 0);
                    assert(all_digits(before));
                }
                assert(value == digits_value(before));
                assert(all_digits(before));
                lemma_digits_value_push(before, c);
            }
            if !('0' <= c && c <= '9') {
                assert(!is_digit(digits[i - start]));
                assert(!all_digits(digits));
                return None;
            }
            let d: u64 = (c as u32 - '0' as u32) as u64;
            assert(d == digit_value(c));
            if value > (u64::MAX - d) / 10 {
                proof {
                    lemma_digits_value_grows(digits, i + 1 - start);
                    assert(digits_value(after) == value * 10 + d);
                    assert(digits_value(digits) > u64::MAX);
                }
                return None;
            }
            value = value * 10 + d;
            any_digit = true;
            proof {
                assert(value == digits_value(after));
                assert forall|j: int| 0 <= j < after.len() implies is_digit(#[trigger] after[j]) by {
                    if j < before.len() {
                        assert(after[j] == before[j]);
                    }
                }
                assert(all_digits(after));
            }
        }
    }
    if !any_digit {
        assert(digits.len() == 0);
        return None;
    }
    assert(digits.subrange(0, digits.len() as int) =~= digits);
    Some(value)
}

/// The value of a limit: what `raw` writes where it is present and writes a
/// count that fits, `fallback` otherwise.
pub open spec fn resolved(raw: Option<Seq<char>>, fallback: nat, most: nat) -> nat {
    match raw {
        Some(s) => match written_count(s) {
            Some(v) if v <= most => v,
            _ => fallback,
        },
        None => fallback,
    }
}

/// What a configuration source holds under one name, as a sequence of
/// characters.
pub open spec fn raw_view(raw: Option<&str>) -> Option<Seq<char>> {
    match raw {
        Some(s) => Some(s@),
        None => None,
    }
}

/// Largest result count that a search may ask for, given what the
/// configuration holds under [`MAX_SEARCH_SIZE_VAR`].
pub fn max_search_size(raw: Option<&str>) -> (r: u64)
    ensures
        r == resolved(raw_view(raw), DEFAULT_MAX_SEARCH_SIZE as nat, u64::MAX as nat),
{
    match raw {
        Some(s) => match parse_count(s) {
            Some(v) => v,
            None => DEFAULT_MAX_SEARCH_SIZE,
        },
        None => DEFAULT_MAX_SEARCH_SIZE,
    }
}

fn resolve_usize(raw: Option<&str>, fallback: usize) -> (r: usize)
    ensures
        r == resolved(raw_view(raw), fallback as nat, usize::MAX as nat),
{
    match raw {
        Some(s) => match parse_count(s) {
            Some(v) => if v <= usize::MAX as u64 {
                v as usize
            } else {
                fallback
            },
            None => fallback,
        },
        None => fallback,
    }
}

/// Most characters that one data part of a response may hold, given what
/// the configuration holds under [`MAX_RESPONSE_CHARS_VAR`].
pub fn max_response_chars(raw: Option<&str>) -> (r: usize)
    ensures
        r == resolved(raw_view(raw), DEFAULT_MAX_RESPONSE_CHARS as nat, usize::MAX as nat),
{
    resolve_usize(raw, DEFAULT_MAX_RESPONSE_CHARS)
}

/// Most entries that an index listing shows, given what the configuration
/// holds under [`MAX_INDEX_LIST_VAR`].
pub fn max_index_list(raw: Option<&str>) -> (r: usize)
    ensures
        r == resolved(raw_view(raw), DEFAULT_MAX_INDEX_LIST as nat, usize::MAX as nat),
{
    resolve_usize(raw, DEFAULT_MAX_INDEX_LIST)
}

/// The limits that one operation works under.
#[derive(Clone, Copy, Debug, PartialEq, Eq, Structural)]
pub struct SafetyLimits {
    pub max_response_chars: usize,
    pub max_search_size: u64,
    pub max_index_list: usize,
}

impl SafetyLimits {
    /// The limits that the three configured values give. Each value is read
    /// on its own: one that is absent or unreadable leaves the others alone.
    pub fn resolve(
        response_chars: Option<&str>,
        search_size: Option<&str>,
        index_list: Option<&str>,
    ) -> (limits: SafetyLimits)
        ensures
            limits.max_response_chars == resolved(
                raw_view(response_chars),
                DEFAULT_MAX_RESPONSE_CHARS as nat,
                usize::MAX as nat,
            ),
            limits.max_search_size == resolved(
                raw_view(search_size),
                DEFAULT_MAX_SEARCH_SIZE as nat,
                u64::MAX as nat,
            ),
            limits.max_index_list == resolved(
                raw_view(index_list),
                DEFAULT_MAX_INDEX_LIST as nat,
                usize::MAX as nat,
            ),
    {
        SafetyLimits {
            max_response_chars: max_response_chars(response_chars),
            max_search_size: max_search_size(search_size),
            max_index_list: max_index_list(index_list),
        }
    }
}

impl Default for SafetyLimits {
    fn default() -> (limits: SafetyLimits)
        ensures
            limits.max_response_chars == DEFAULT_MAX_RESPONSE_CHARS,
            limits.max_search_size == DEFAULT_MAX_SEARCH_SIZE,
            limits.max_index_list == DEFAULT_MAX_INDEX_LIST,
    {
        SafetyLimits {
            max_response_chars: DEFAULT_MAX_RESPONSE_CHARS,
            max_search_size: DEFAULT_MAX_SEARCH_SIZE,
            max_index_list: DEFAULT_MAX_INDEX_LIST,
        }
    }
}

} // verus!
