//! What this crate takes on trust: the contracts of the functions of the
//! standard library and of other crates that the verified code calls.
//! Nothing here is proved; each contract restates what the called
//! function's documentation or source promises.

use vstd::prelude::*;
use vstd::utf8::valid_utf8;
use vstd::string::StringSliceAdditionalSpecFns;
use chrono::Timelike;
use convert_case::{Case, Casing};
use crate::calendar::Timestamp;
use crate::number::parsed_i64;

verus! {

/// A calendar date of `chrono`. The events carry it along untouched.
#[verifier::external_type_specification]
#[verifier::external_body]
pub struct ExNaiveDate(chrono::NaiveDate);

/// `needle` occurs in `hay` as a run of consecutive characters. The empty
/// sequence occurs in every sequence.
pub open spec fn is_substring(needle: Seq<char>, hay: Seq<char>) -> bool {
    exists|at: int| occurs_at(needle, hay, at)
}

/// `needle` occurs in `hay` starting at index `at`.
pub open spec fn occurs_at(needle: Seq<char>, hay: Seq<char>, at: int) -> bool {
    0 <= at && at + needle.len() <= hay.len() && hay.subrange(at, at + needle.len()) == needle
}

/// `str::contains` with a string pattern: whether the pattern matches a
/// sub-slice of the text. Both being valid UTF-8, a match of the bytes is a
/// match of the characters.
#[verifier::external_body]
pub(crate) fn str_contains(hay: &str, needle: &str) -> (found: bool)
    ensures
        found == is_substring(needle@, hay@),
{
    hay.contains(needle)
}

/// `std::str::from_utf8`: the bytes as text, if they are valid UTF-8. The
/// text that comes back consists of exactly the bytes that went in.
#[verifier::external_body]
pub(crate) fn utf8_text(bytes: &[u8]) -> (text: Option<&str>)
    ensures
        text is Some <==> valid_utf8(bytes@),
        text matches Some(t) ==> t.spec_bytes() == bytes@,
{
    std::str::from_utf8(bytes).ok()
}

/// `str::parse::<i64>`, with the error dropped. The text is expected to
/// be an optional `+` or `-` followed by digits only; an empty text, a
/// sign alone, any other character and a number that does not fit are
/// errors.
#[verifier::external_body]
pub(crate) fn parse_i64(text: &str) -> (number: Option<i64>)
    ensures
        number == parsed_i64(text@),
{
    text.parse::<i64>().ok()
}

/// What `convert_case` makes of a text in title case: its words, split at
/// the crate's default boundaries, each capitalised, joined by single blanks.
pub uninterp spec fn title_cased(text: Seq<char>) -> Seq<char>;

/// `Casing::to_case` of `convert_case`, with `Case::Title`.
#[verifier::external_body]
pub(crate) fn title_case(text: &str) -> (title: String)
    ensures
        title@ == title_cased(text@),
{
    text.to_case(Case::Title)
}

/// The instant that an RFC 3339 date-and-time text denotes according to
/// `chrono`, or nothing where `chrono` does not accept the text.
pub uninterp spec fn rfc3339_instant(text: Seq<char>) -> Option<Timestamp>;

/// `DateTime::parse_from_rfc3339` of `chrono`, the instant taken apart by
/// `timestamp` and `timestamp_subsec_nanos`, the error dropped.
#[verifier::external_body]
pub(crate) fn parse_rfc3339(text: &str) -> (instant: Option<Timestamp>)
    ensures
        instant == rfc3339_instant(text@),
{
    match chrono::DateTime::parse_from_rfc3339(text) {
        Ok(at) => Some(Timestamp { secs: at.timestamp(), nanos: at.timestamp_subsec_nanos() }),
        Err(_) => None,
    }
}

/// What the `application/x-www-form-urlencoded` serializer of the `url`
/// crate writes for a list of pairs, given as their names and their values.
pub uninterp spec fn form_urlencoded(names: Seq<Seq<char>>, values: Seq<Seq<char>>) -> Seq<char>;

/// The names of a list of pairs of texts.
pub open spec fn names_of(pairs: Seq<(String, String)>) -> Seq<Seq<char>> {
    pairs.map_values(|pair: (String, String)| pair.0@)
}

/// The values of a list of pairs of texts.
pub open spec fn values_of(pairs: Seq<(String, String)>) -> Seq<Seq<char>> {
    pairs.map_values(|pair: (String, String)| pair.1@)
}

/// `form_urlencoded::Serializer` on an empty target: `extend_pairs` with
/// the pairs in their order, then `finish`.
#[verifier::external_body]
pub(crate) fn encode_query(pairs: &Vec<(String, String)>) -> (query: String)
    ensures
        query@ == form_urlencoded(names_of(pairs@), values_of(pairs@)),
{
    url::form_urlencoded::Serializer::new(String::new()).extend_pairs(pairs.iter()).finish()
}

/// Hour and minute of the machine's local time, read through
/// `chrono::Local::now`. `Timelike` documents the hour as 0 to 23 and the
/// minute as 0 to 59; which ones come back is not claimed.
#[verifier::external_body]
pub(crate) fn local_hour_minute() -> (clock: (u32, u32))
    ensures
        clock.0 < 24,
        clock.1 < 60,
{
    let now = chrono::Local::now();
    (now.hour(), now.minute())
}

/// The time of the system clock, read through `chrono::Utc::now` and
/// taken apart by `timestamp` and `timestamp_subsec_nanos`. Nothing is
/// claimed of the instant that comes back.
#[verifier::external_body]
pub(crate) fn utc_now() -> (now: Timestamp) {
    let now = chrono::Utc::now();
    Timestamp { secs: now.timestamp(), nanos: now.timestamp_subsec_nanos() }
}

} // verus!
