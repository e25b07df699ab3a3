//! What the proxy decides between its clock, its cache of calendar events
//! and the calendar service: when to fetch again, where to fetch from, and
//! what to answer.

use vstd::prelude::*;
use crate::calendar::{first_due_at, CalendarEvents, Timestamp, NANOS_PER_SECOND};
use crate::line::{pad_left, push_blanks};
use crate::number::{decimal, parsed_i64, push_decimal};
use crate::trusted::{
    encode_query, form_urlencoded, local_hour_minute, names_of, parse_i64, parse_rfc3339,
    rfc3339_instant, title_case, title_cased, values_of,
};

verus! {

/// Seconds that fetched events stay fresh where nothing else is set.
pub const DEFAULT_CACHE_TTL: i64 = 30;

/// Columns that the line with the time of day is aligned to.
pub const SCREEN_WIDTH: usize = 20;

/// The time to live that a setting asks for: thirty seconds where nothing
/// is set, else the number the setting holds, if it holds one.
pub open spec fn ttl_of(setting: Option<Seq<char>>) -> Option<i64> {
    match setting {
        None => Some(DEFAULT_CACHE_TTL),
        Some(text) => parsed_i64(text),
    }
}

/// The cache's time to live in seconds, from the setting that configures
/// it. `None` where the setting is there and is no number.
pub fn cache_ttl(setting: Option<&str>) -> (ttl: Option<i64>)
    ensures
        ttl == ttl_of(
            match setting {
                Some(text) => Some(text@),
                None => None,
            },
        ),
{
    match setting {
        Some(text) => parse_i64(text),
        None => Some(DEFAULT_CACHE_TTL),
    }
}

/// The events were fetched more than `ttl` seconds before `now`.
pub open spec fn stale(now: Timestamp, last_update: Timestamp, ttl: int) -> bool {
    now.instant() > last_update.instant() + ttl * NANOS_PER_SECOND
}

/// Whether the events have to be fetched again before they are used.
pub fn cache_is_stale(now: Timestamp, last_update: Timestamp, ttl: i64) -> (is_stale: bool)
    ensures
        is_stale == stale(now, last_update, ttl as int),
{
    let age = last_update.nanos_until(&now);
    age > ttl as i128 * NANOS_PER_SECOND
}

/// The answer to a request when the events could not be fetched.
pub fn refresh_failure(error: &str) -> (text: String)
    ensures
        text@ == "Failed to get calendar events: "@ + error@,
{
    let mut text = String::from_str("Failed to get calendar events: ");
    text.append(error);
    text
}

/// The time of day as the display shows it: hour and minute as plain
/// numbers, aligned to the right edge of the screen.
pub open spec fn time_line(hour: nat, minute: nat) -> Seq<char> {
    pad_left("Time: "@ + decimal(hour) + seq![':'] + decimal(minute), SCREEN_WIDTH as int)
}

/// The line of the display that shows the time of day.
pub fn time_text(hour: u32, minute: u32) -> (text: String)
    ensures
        text@ == time_line(hour as nat, minute as nat),
{
    let mut time = String::from_str("Time: ");
    push_decimal(&mut time, hour as u128);
    time.append(":");
    proof {
        reveal_strlit(":");
    }
    push_decimal(&mut time, minute as u128);
    let len = time.as_str().unicode_len();
    let mut text = String::new();
    if len < SCREEN_WIDTH {
        push_blanks(&mut text, SCREEN_WIDTH - len);
    }
    text.append(time.as_str());
    assert(text@ =~= time_line(hour as nat, minute as nat));
    text
}

/// The screen for a location: the text of its next event, an empty line,
/// and the line with the time of day.
pub open spec fn screen_of(event_text: Seq<char>, hour: nat, minute: nat) -> Seq<char> {
    event_text + "\n\n"@ + time_line(hour, minute)
}

/// Puts the text of an event and the time of day together.
pub fn screen_text(event_text: &str, hour: u32, minute: u32) -> (screen: String)
    ensures
        screen@ == screen_of(event_text@, hour as nat, minute as nat),
{
    let mut screen = String::from_str(event_text);
    screen.append("\n\n");
    screen.append(time_text(hour, minute).as_str());
    screen
}

/// What the screen says of the events at the place `place`, when the
/// clock said `first` and then `second`: the text of the first event that
/// is due there, or that there is none.
pub open spec fn place_line(
    events: CalendarEvents,
    place: Seq<char>,
    first: Timestamp,
    second: Timestamp,
) -> Seq<char> {
    let index = first_due_at(events.items@, place);
    if index < events.items.len() {
        events.items[index].text_2004(first, second)
    } else {
        "No upcoming events."@
    }
}

/// What the screen says of the events at the location named in a request:
/// what it says of the place that is the location written in title case.
pub open spec fn event_line(
    events: CalendarEvents,
    location: Seq<char>,
    first: Timestamp,
    second: Timestamp,
) -> Seq<char> {
    place_line(events, title_cased(location), first, second)
}

/// The text of the next event at `place`, at the instant `now`.
pub fn event_text_for_place(events: &CalendarEvents, place: &str, now: Timestamp) -> (text: String)
    ensures
        text@ == place_line(*events, place@, now, now),
{
    match events.get_next_at_location(place) {
        Some(event) => event.format_2004_at(now),
        None => String::from_str("No upcoming events."),
    }
}

/// The text of the next event at the location named in a request, at the
/// instant `now`.
pub fn event_text_at(events: &CalendarEvents, location: &str, now: Timestamp) -> (text: String)
    ensures
        text@ == event_line(*events, location@, now, now),
{
    let place = title_case(location);
    event_text_for_place(events, place.as_str(), now)
}

/// The screen for the location named in a request, at the instant `now`
/// and the local time of day `hour`:`minute`.
pub fn screen_at(events: &CalendarEvents, location: &str, now: Timestamp, hour: u32, minute: u32) -> (screen:
    String)
    ensures
        screen@ == screen_of(event_line(*events, location@, now, now), hour as nat, minute as nat),
{
    let text = event_text_at(events, location, now);
    screen_text(text.as_str(), hour, minute)
}

/// The screen for the location named in a request, right now. The clocks
/// are read as the text is put together.
pub fn screen(events: &CalendarEvents, location: &str) -> (screen: String)
    ensures
        exists|first: Timestamp, second: Timestamp, hour: nat, minute: nat|
            hour < 24 && minute < 60 && screen@ == screen_of(
                event_line(*events, location@, first, second),
                hour,
                minute,
            ),
{
    let place = title_case(location);
    let text = match events.get_next_at_location(place.as_str()) {
        Some(event) => {
            let text = event.format_2004();
            proof {
                let (first, second) = choose|first: Timestamp, second: Timestamp|
                    text@ == event.text_2004(first, second);
                assert(text@ == event_line(*events, location@, first, second));
            }
            text
        },
        None => {
            let text = String::from_str("No upcoming events.");
            proof {
                let epoch = Timestamp { secs: 0, nanos: 0 };
                assert(text@ == event_line(*events, location@, epoch, epoch));
            }
            text
        },
    };
    let ghost (first, second) = choose|first: Timestamp, second: Timestamp|
        text@ == event_line(*events, location@, first, second);
    let (hour, minute) = local_hour_minute();
    let screen = screen_text(text.as_str(), hour, minute);
    assert(hour < 24 && minute < 60 && screen@ == screen_of(
        event_line(*events, location@, first, second),
        hour as nat,
        minute as nat,
    ));
    screen
}

/// The instant that a request names in RFC 3339, if it names one.
pub fn request_instant(text: &str) -> (instant: Option<Timestamp>)
    ensures
        instant == rfc3339_instant(text@),
{
    parse_rfc3339(text)
}

/// The answer to a request for a reservation, from what is known of the
/// location: whether it is free, or nothing where the events could not be
/// fetched.
pub open spec fn reservation_answer(free: Option<bool>) -> Seq<char> {
    match free {
        Some(true) => "Is free!"@,
        Some(false) => "Reserved at that time."@,
        None => "Failed to get calendar events"@,
    }
}

/// Answers a request to reserve `location` from `start` to `end`, given
/// the events if they could be fetched. `None` where an event that has to
/// be looked at lacks an instant, so that nothing can be answered.
pub fn reservation_reply(
    events: Option<&CalendarEvents>,
    location: &str,
    start: Timestamp,
    end: Timestamp,
) -> (reply: Option<&'static str>)
    ensures
        reply is None <==> (events matches Some(known) && !known.can_check(location@, start, end)),
        reply matches Some(text) ==> text@ == reservation_answer(
            match events {
                Some(known) => Some(known.is_free(location@, start, end)),
                None => None,
            },
        ),
{
    match events {
        Some(known) => match known.try_is_free_at_location(location, start, end) {
            Some(true) => Some("Is free!"),
            Some(false) => Some("Reserved at that time."),
            None => None,
        },
        None => Some("Failed to get calendar events"),
    }
}

/// The names of the parameters of a query for upcoming events.
pub open spec fn query_names() -> Seq<Seq<char>> {
    seq![
        "maxResults"@,
        "orderBy"@,
        "showDeleted"@,
        "singleEvents"@,
        "timeMin"@,
        "fields"@,
        "key"@,
    ]
}

/// The values of the parameters of a query for the events from
/// `time_min` on, made with `api_key`.
pub open spec fn query_values(time_min: Seq<char>, api_key: Seq<char>) -> Seq<Seq<char>> {
    seq![
        "10"@,
        "startTime"@,
        "false"@,
        "true"@,
        time_min,
        "kind,items(location, start, end, summary, description)"@,
        api_key,
    ]
}

/// The address of a calendar's events, with `query` as the query.
pub open spec fn address_with_query(calendar_id: Seq<char>, query: Seq<char>) -> Seq<char> {
    "https://www.googleapis.com/calendar/v3/calendars/"@ + calendar_id + "/events?"@ + query
}

/// The address to fetch a calendar's upcoming events from.
pub open spec fn events_address(calendar_id: Seq<char>, api_key: Seq<char>, time_min: Seq<char>) -> Seq<
    char,
> {
    address_with_query(calendar_id, form_urlencoded(query_names(), query_values(time_min, api_key)))
}

/// The address of a calendar's events, with a query that is encoded already.
pub fn url_with_query(calendar_id: &str, query: &str) -> (url: String)
    ensures
        url@ == address_with_query(calendar_id@, query@),
{
    let mut url = String::from_str("https://www.googleapis.com/calendar/v3/calendars/");
    url.append(calendar_id);
    url.append("/events?");
    url.append(query);
    url
}

/// The address to fetch from: at most ten single events of the calendar
/// that start at or after `time_min`, in order of their start, deleted
/// ones left out, with the fields that an event here holds.
pub fn events_url(calendar_id: &str, api_key: &str, time_min: &str) -> (url: String)
    ensures
        url@ == events_address(calendar_id@, api_key@, time_min@),
{
    let mut pairs: Vec<(String, String)> = Vec::new();
    pairs.push((String::from_str("maxResults"), String::from_str("10")));
    pairs.push((String::from_str("orderBy"), String::from_str("startTime")));
    pairs.push((String::from_str("showDeleted"), String::from_str("false")));
    pairs.push((String::from_str("singleEvents"), String::from_str("true")));
    pairs.push((String::from_str("timeMin"), String::from_str(time_min)));
    pairs.push(
        (
            String::from_str("fields"),
            String::from_str("kind,items(location, start, end, summary, description)"),
        ),
    );
    pairs.push((String::from_str("key"), String::from_str(api_key)));
    assert(names_of(pairs@) =~= query_names());
    assert(values_of(pairs@) =~= query_values(time_min@, api_key@));
    let query = encode_query(&pairs);
    url_with_query(calendar_id, query.as_str())
}

} // verus!
