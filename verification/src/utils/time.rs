//! Parsing of the time fields of an input file.
//!
//! A time is either `HH:MM` (with an optional `AM`/`PM` suffix) or a plain
//! number with an optional unit word (`HOURS`, `MINUTES`, `SECONDS`, `DAYS`,
//! `AM`, `PM`, singular or plural, in any letter case); without a unit the
//! number counts hours.  The whole behaviour, including every rejected
//! input, is pinned by [`time_str_seconds`].

use vstd::prelude::*;
use vstd::string::StrSliceExecFns;
use vstd::string::StringExecFns;
use crate::error::InputError;
use crate::utils::text::{
    eq_ignore_ascii_case,
    eq_nocase,
    find_char_from,
    first_index_of,
    lemma_first_index_of,
    parse_usize,
    upper_code,
    upper_code_of,
    usize_str_val,
    usize_str_valid,
};

verus! {

/// View of an optional borrowed string.
pub open spec fn opt_str_view(u: Option<&str>) -> Option<Seq<char>> {
    match u {
        Some(t) => Some(t@),
        None => None,
    }
}

/// Hour-of-day adjustment: an `AM` suffix maps hour 12 to 0, a `PM` suffix
/// maps hour `h` to `h % 12 + 12`, any other suffix leaves the hour alone.
pub open spec fn am_pm_hour(hours: int, u: Option<Seq<char>>) -> int {
    match u {
        Some(t) => if eq_nocase(t, "AM"@) {
            hours % 12
        } else if eq_nocase(t, "PM"@) {
            hours % 12 + 12
        } else {
            hours
        },
        None => hours,
    }
}

/// Seconds denoted by a `HH:MM` time string: the digits before the first
/// colon are the hours, the digits between the first and second colon (or
/// the end) are the minutes.  `None` when either part is not a number or
/// the total does not fit in `usize`.
pub open spec fn hhmm_seconds(s: Seq<char>, u: Option<Seq<char>>) -> Option<int> {
    let i = first_index_of(s, ':');
    let h = s.take(i);
    let rest = s.skip(i + 1);
    let m = rest.take(first_index_of(rest, ':'));
    if usize_str_valid(h) && usize_str_valid(m) {
        let total = am_pm_hour(usize_str_val(h), u) * 3600 + usize_str_val(m) * 60;
        if total <= usize::MAX {
            Some(total)
        } else {
            None
        }
    } else {
        None
    }
}

/// The unit word once a trailing `S` (any case) is dropped; the word
/// `HOURS` itself is kept whole, so that both `HOUR` and `HOURS` remain
/// recognizable.
pub open spec fn unit_word(u: Seq<char>) -> Seq<char> {
    if eq_nocase(u, "HOURS"@) {
        u
    } else if u.len() > 0 && upper_code(u.last()) == 'S' as u32 {
        u.drop_last()
    } else {
        u
    }
}

/// Seconds denoted by a numeric time string with a unit word; `None` when
/// the number or the unit is not recognized or the total does not fit in
/// `usize`.  Without a unit the number counts hours.
pub open spec fn numeric_seconds(s: Seq<char>, u: Option<Seq<char>>) -> Option<int> {
    if usize_str_valid(s) {
        let v = usize_str_val(s);
        let w = unit_word(
            match u {
                Some(t) => t,
                None => "HOURS"@,
            },
        );
        if eq_nocase(w, "HOUR"@) || eq_nocase(w, "HOURS"@) {
            if v * 3600 <= usize::MAX {
                Some(v * 3600)
            } else {
                None
            }
        } else if eq_nocase(w, "MINUTE"@) || eq_nocase(w, "MIN"@) {
            if v * 60 <= usize::MAX {
                Some(v * 60)
            } else {
                None
            }
        } else if eq_nocase(w, "SECOND"@) || eq_nocase(w, "SEC"@) {
            Some(v)
        } else if eq_nocase(w, "DAY"@) {
            if v * 86400 <= usize::MAX {
                Some(v * 86400)
            } else {
                None
            }
        } else if eq_nocase(w, "AM"@) {
            Some((v % 12) * 3600)
        } else if eq_nocase(w, "PM"@) {
            Some((v % 12 + 12) * 3600)
        } else {
            None
        }
    } else {
        None
    }
}

/// Seconds denoted by a time string: `HH:MM` form when a colon occurs,
/// numeric form otherwise.
pub open spec fn time_str_seconds(s: Seq<char>, u: Option<Seq<char>>) -> Option<int> {
    if first_index_of(s, ':') < s.len() {
        hhmm_seconds(s, u)
    } else {
        numeric_seconds(s, u)
    }
}

/// Parse a time string with an optional unit or `AM`/`PM` suffix into
/// seconds.  Exactly the strings with a defined [`time_str_seconds`] value
/// are accepted; the rest — malformed numbers, unknown unit words, and
/// totals beyond `usize` — are rejected with a message.
pub fn parse_time_str(time_str: &str, unit_or_suffix: Option<&str>) -> (r: Result<
    usize,
    InputError,
>)
    ensures
        r is Ok <==> time_str_seconds(time_str@, opt_str_view(unit_or_suffix)) is Some,
        r matches Ok(v) ==> time_str_seconds(time_str@, opt_str_view(unit_or_suffix)) == Some(
            v as int,
        ),
{
    let len = time_str.unicode_len();
    proof {
        lemma_first_index_of(time_str@, ':');
    }
    match find_char_from(time_str, ':', 0) {
        Some(i) => {
            let hours_str = time_str.substring_char(0, i);
            let rest = time_str.substring_char(i + 1, len);
            proof {
                assert(hours_str@ =~= time_str@.take(i as int));
                assert(rest@ =~= time_str@.skip(i + 1));
                lemma_first_index_of(rest@, ':');
            }
            let rest_len = rest.unicode_len();
            let j = match find_char_from(rest, ':', 0) {
                Some(j) => j,
                None => rest_len,
            };
            let minutes_str = rest.substring_char(0, j);
            proof {
                assert(minutes_str@ =~= rest@.take(j as int));
            }
            let hours = match parse_usize(hours_str) {
                Some(h) => h,
                None => {
                    return Err(
                        InputError::new(
                            String::from_str("Invalid hours value in time: ").concat(time_str),
                        ),
                    );
                },
            };
            let minutes = match parse_usize(minutes_str) {
                Some(m) => m,
                None => {
                    return Err(
                        InputError::new(
                            String::from_str("Invalid minutes value in time: ").concat(time_str),
                        ),
                    );
                },
            };
            let mut hour24 = hours;
            if let Some(suffix) = unit_or_suffix {
                if eq_ignore_ascii_case(suffix, "AM") {
                    hour24 = hours % 12;
                } else if eq_ignore_ascii_case(suffix, "PM") {
                    hour24 = hours % 12 + 12;
                }
            }
            let total = match hour24.checked_mul(3600) {
                Some(a) => match minutes.checked_mul(60) {
                    Some(b) => a.checked_add(b),
                    None => None,
                },
                None => None,
            };
            match total {
                Some(v) => Ok(v),
                None => Err(
                    InputError::new(
                        String::from_str("Time value out of range: ").concat(time_str),
                    ),
                ),
            }
        },
        None => {
            let value = match parse_usize(time_str) {
                Some(v) => v,
                None => {
                    return Err(
                        InputError::new(
                            String::from_str("Invalid time value: ").concat(time_str),
                        ),
                    );
                },
            };
            let unit = match unit_or_suffix {
                Some(u) => u,
                None => "HOURS",
            };
            let ulen = unit.unicode_len();
            let is_hours = eq_ignore_ascii_case(unit, "HOURS");
            let word = if !is_hours && ulen > 0 && upper_code_of(unit.get_char(ulen - 1)) == 'S'
                as u32 {
                let w = unit.substring_char(0, ulen - 1);
                proof {
                    assert(w@ =~= unit@.drop_last());
                }
                w
            } else {
                unit
            };
            if eq_ignore_ascii_case(word, "HOUR") || eq_ignore_ascii_case(word, "HOURS") {
                match value.checked_mul(3600) {
                    Some(v) => Ok(v),
                    None => Err(
                        InputError::new(
                            String::from_str("Time value out of range: ").concat(time_str),
                        ),
                    ),
                }
            } else if eq_ignore_ascii_case(word, "MINUTE") || eq_ignore_ascii_case(word, "MIN") {
                match value.checked_mul(60) {
                    Some(v) => Ok(v),
                    None => Err(
                        InputError::new(
                            String::from_str("Time value out of range: ").concat(time_str),
                        ),
                    ),
                }
            } else if eq_ignore_ascii_case(word, "SECOND") || eq_ignore_ascii_case(word, "SEC") {
                Ok(value)
            } else if eq_ignore_ascii_case(word, "DAY") {
                match value.checked_mul(86400) {
                    Some(v) => Ok(v),
                    None => Err(
                        InputError::new(
                            String::from_str("Time value out of range: ").concat(time_str),
                        ),
                    ),
                }
            } else if eq_ignore_ascii_case(word, "AM") {
                Ok((value % 12) * 3600)
            } else if eq_ignore_ascii_case(word, "PM") {
                Ok((value % 12 + 12) * 3600)
            } else {
                Err(InputError::new(String::from_str("Invalid time unit: ").concat(word)))
            }
        },
    }
}

} // verus!
