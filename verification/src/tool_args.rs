//! The arguments of a tool call, and the dates in them.

use crate::json::{lookup, text_field, Json};
use crate::mail_adapter::is_date;
use crate::text::{chars_of, string_of, strings, trim, trimmed};
use vstd::prelude::*;

verus! {

/// The first second of the day that a text denotes, as `chrono` reads it with
/// `%Y-%m-%d`.
pub uninterp spec fn day_start(text: Seq<char>) -> Option<i64>;

/// The date of a number of seconds, as `chrono` prints it by RFC 3339; empty
/// where there is no such date.
pub uninterp spec fn date_text(seconds: i64) -> Seq<char>;

/// `chrono::NaiveDate::parse_from_str` with `%Y-%m-%d`, and the timestamp of the
/// midnight that begins the day, in UTC: a day lies within the years of
/// `NaiveDate`, and begins a whole number of days from the epoch. Which texts
/// denote a day is not said.
#[verifier::external_body]
pub(crate) fn parse_day(text: &str) -> (r: Option<i64>)
    ensures
        r == day_start(text@),
        r matches Some(t) ==> -8_334_601_228_800 <= t <= 8_210_266_790_400 && t % 86_400 == 0,
{
    chrono::NaiveDate::parse_from_str(text, "%Y-%m-%d").ok()
        .and_then(|day| day.and_hms_opt(0, 0, 0)).map(|time| time.and_utc().timestamp())
}

/// `chrono::DateTime::from_timestamp` and `DateTime::to_rfc3339`: the date and
/// the time of a number of seconds, or nothing where `chrono` has no such date.
#[verifier::external_body]
pub(crate) fn format_date(seconds: i64) -> (r: String)
    ensures
        r@ == date_text(seconds),
        r@.len() == 0 <==> !is_date(seconds),
{
    chrono::DateTime::from_timestamp(seconds, 0).map(|date| date.to_rfc3339()).unwrap_or_default()
}

/// A text argument without spaces around it, where it says anything.
pub open spec fn text_arg(args: Json, key: Seq<char>) -> Option<Seq<char>> {
    match text_field(args, key) {
        Some(text) => if trim(text).len() > 0 {
            Some(trim(text))
        } else {
            None
        },
        None => None,
    }
}

pub open spec fn option_text(value: Option<String>) -> Option<Seq<char>> {
    match value {
        Some(text) => Some(text@),
        None => None,
    }
}

pub fn json_str_arg(args: &Json, key: &str) -> (r: Option<String>)
    ensures
        option_text(r) == text_arg(*args, key@),
{
    match args.get_text(key) {
        Some(text) => {
            let chars = chars_of(text);
            let bare = trimmed(&chars);
            if bare.len() == 0 {
                None
            } else {
                Some(string_of(&bare))
            }
        },
        None => None,
    }
}

/// The first or the last second of the day in an argument.
pub open spec fn day_arg(args: Json, key: Seq<char>, end_of_day: bool) -> Option<int> {
    match text_field(args, key) {
        Some(text) => match day_start(text) {
            Some(start) => Some(
                if end_of_day {
                    start + 86_399
                } else {
                    start as int
                },
            ),
            None => None,
        },
        None => None,
    }
}

pub fn json_day_ts(args: &Json, key: &str, end_of_day: bool) -> (r: Option<i64>)
    ensures
        match r {
            Some(t) => day_arg(*args, key@, end_of_day) == Some(t as int) && is_date(t),
            None => day_arg(*args, key@, end_of_day) is None,
        },
{
    match args.get_text(key) {
        Some(text) => match parse_day(text) {
            Some(start) => if end_of_day {
                Some(start + 86_399)
            } else {
                Some(start)
            },
            None => None,
        },
        None => None,
    }
}

/// A whole number in an argument.
pub open spec fn unsigned_arg(args: Json, key: Seq<char>) -> Option<u64> {
    match lookup(args, key) {
        Some(Json::Number { unsigned, .. }) => unsigned,
        _ => None,
    }
}

pub open spec fn signed_arg(args: Json, key: Seq<char>) -> Option<i64> {
    match lookup(args, key) {
        Some(Json::Number { signed, .. }) => signed,
        _ => None,
    }
}

pub fn json_signed_arg(args: &Json, key: &str) -> (r: Option<i64>)
    ensures
        r == signed_arg(*args, key@),
{
    match args.get(key) {
        Some(Json::Number { signed, .. }) => *signed,
        _ => None,
    }
}

/// How many items are asked for, up to a bound.
pub open spec fn limit_arg(args: Json, default: u8, max: u8) -> int {
    let asked: int = match unsigned_arg(args, "limit"@) {
        Some(n) => n as int,
        None => default as int,
    };
    if asked <= max {
        asked
    } else {
        max as int
    }
}

pub fn json_limit_arg(args: &Json, default: u8, max: u8) -> (r: usize)
    ensures
        r == limit_arg(*args, default, max),
{
    let asked: u64 = match args.get("limit") {
        Some(Json::Number { unsigned: Some(n), .. }) => *n,
        _ => default as u64,
    };
    if asked <= max as u64 {
        asked as usize
    } else {
        max as usize
    }
}

/// A flag in an argument; it is off where it is not given.
pub open spec fn flag_arg(args: Json, key: Seq<char>) -> bool {
    lookup(args, key) == Some(Json::Bool(true))
}

pub fn json_flag_arg(args: &Json, key: &str) -> (r: bool)
    ensures
        r == flag_arg(*args, key@),
{
    match args.get(key) {
        Some(Json::Bool(flag)) => *flag,
        _ => false,
    }
}

/// The texts of a list.
pub open spec fn texts_in(values: Seq<Json>) -> Seq<Seq<char>>
    decreases values.len(),
{
    if values.len() == 0 {
        Seq::empty()
    } else {
        let before = texts_in(values.drop_last());
        match values.last() {
            Json::Text(text) => before.push(text@),
            _ => before,
        }
    }
}

pub open spec fn list_arg(args: Json, key: Seq<char>) -> Seq<Seq<char>> {
    match lookup(args, key) {
        Some(Json::Array(values)) => texts_in(values@),
        _ => Seq::empty(),
    }
}

pub fn json_list_arg(args: &Json, key: &str) -> (r: Vec<String>)
    ensures
        strings(r@) == list_arg(*args, key@),
{
    let mut out: Vec<String> = Vec::new();
    match args.get(key) {
        Some(Json::Array(values)) => {
            let mut i: usize = 0;
            proof {
                assert(values@.take(0) =~= Seq::<Json>::empty());
                assert(strings(out@) =~= texts_in(values@.take(0)));
            }
            while i < values.len()
                invariant
                    i <= values@.len(),
                    strings(out@) == texts_in(values@.take(i as int)),
                decreases values@.len() - i,
            {
                let ghost next = values@.take(i + 1);
                proof {
                    assert(next.drop_last() =~= values@.take(i as int));
                    assert(next.last() == values@[i as int]);
                }
                match &values[i] {
                    Json::Text(text) => {
                        let ghost before = out@;
                        out.push(text.clone());
                        proof {
                            assert(strings(out@) =~= strings(before).push(text@));
                        }
                    },
                    _ => {},
                }
                i = i + 1;
            }
            proof {
                assert(values@.take(values@.len() as int) =~= values@);
            }
        },
        _ => {
            proof {
                assert(strings(out@) =~= Seq::<Seq<char>>::empty());
            }
        },
    }
    out
}

/// A day ends before the next one begins.
pub proof fn days_are_whole(args: Json, key: Seq<char>)
    requires
        day_arg(args, key, false) is Some,
    ensures
        day_arg(args, key, true) == Some(day_arg(args, key, false)->Some_0 + 86_399),
{
}

} // verus!
