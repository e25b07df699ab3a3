//! Calendar events as the proxy holds them, and the questions it asks of
//! them: which event is next at a location, and whether a location is free.

use vstd::prelude::*;
use chrono::NaiveDate;
use crate::number::{push_signed_two_digits, signed_two_digits, trunc_div, trunc_rem};
use crate::trusted::{is_substring, str_contains, utc_now};

verus! {

/// Nanoseconds in a second.
pub const NANOS_PER_SECOND: i128 = 1_000_000_000;

/// An instant on the UTC time line: seconds since the Unix epoch, and
/// nanoseconds on top of them.
#[derive(Clone, Copy, Debug, PartialEq, Eq, Structural)]
pub struct Timestamp {
    pub secs: i64,
    pub nanos: u32,
}

impl Timestamp {
    /// The instant in nanoseconds since the Unix epoch.
    pub open spec fn instant(self) -> int {
        self.secs * NANOS_PER_SECOND + self.nanos
    }

    /// The instant in nanoseconds since the Unix epoch.
    pub fn total_nanos(&self) -> (nanos: i128)
        ensures
            nanos == self.instant(),
    {
        self.secs as i128 * NANOS_PER_SECOND + self.nanos as i128
    }

    /// Nanoseconds from this instant to `target`; negative where `target`
    /// lies in the past.
    pub fn nanos_until(&self, target: &Timestamp) -> (nanos: i128)
        ensures
            nanos == target.instant() - self.instant(),
    {
        target.total_nanos() - self.total_nanos()
    }

    /// Whether this instant lies strictly before `other`.
    pub fn is_before(&self, other: &Timestamp) -> (before: bool)
        ensures
            before == (self.instant() < other.instant()),
    {
        self.total_nanos() < other.total_nanos()
    }
}

/// Start or end of an event. Timed events have a `date_time`; all-day
/// events only have a `date`.
#[derive(Debug)]
pub struct EventTimeInfo {
    pub date_time: Option<Timestamp>,
    pub date: Option<NaiveDate>,
    pub time_zone: Option<String>,
}

/// A single calendar event.
#[derive(Debug)]
pub struct Event {
    pub summary: String,
    pub description: Option<String>,
    pub location: Option<String>,
    pub start: EventTimeInfo,
    pub end: EventTimeInfo,
}

/// The events of a calendar, in the order the calendar lists them.
#[derive(Debug)]
pub struct CalendarEvents {
    pub kind: String,
    pub items: Vec<Event>,
}

/// A copy of an optional text.
fn copy_text(text: &Option<String>) -> (copy: Option<String>)
    ensures
        copy == *text,
{
    match text {
        Some(t) => Some(t.clone()),
        None => None,
    }
}

impl Clone for EventTimeInfo {
    fn clone(&self) -> (copy: EventTimeInfo)
        ensures
            copy == *self,
    {
        EventTimeInfo {
            date_time: self.date_time,
            date: self.date,
            time_zone: copy_text(&self.time_zone),
        }
    }
}

impl Clone for Event {
    fn clone(&self) -> (copy: Event)
        ensures
            copy == *self,
    {
        Event {
            summary: self.summary.clone(),
            description: copy_text(&self.description),
            location: copy_text(&self.location),
            start: self.start.clone(),
            end: self.end.clone(),
        }
    }
}

impl Clone for CalendarEvents {
    fn clone(&self) -> (copy: CalendarEvents)
        ensures
            copy.kind == self.kind,
            copy.items@ == self.items@,
    {
        let mut items: Vec<Event> = Vec::new();
        let mut index: usize = 0;
        while index < self.items.len()
            invariant
                index <= self.items.len(),
                items@ == self.items@.take(index as int),
            decreases self.items.len() - index,
        {
            items.push(self.items[index].clone());
            assert(items@ =~= self.items@.take(index + 1));
            index = index + 1;
        }
        assert(items@ =~= self.items@);
        CalendarEvents { kind: self.kind.clone(), items }
    }
}

/// The whole seconds of a duration given in nanoseconds, rounded towards zero.
pub open spec fn whole_seconds(nanos: int) -> int {
    trunc_div(nanos, NANOS_PER_SECOND as int)
}

/// A duration of `seconds` as hours, minutes and seconds, each formatted
/// to a width of two with zeros and separated by colons. The hours are not
/// limited to a day.
pub open spec fn clock_text(seconds: int) -> Seq<char> {
    signed_two_digits(trunc_div(seconds, 3600)) + seq![':'] + signed_two_digits(
        trunc_div(trunc_rem(seconds, 3600), 60),
    ) + seq![':'] + signed_two_digits(trunc_rem(seconds, 60))
}

/// The marker in a summary that takes an event off the schedule.
pub open spec fn cancel_mark() -> Seq<char> {
    "CANCEL"@
}

impl Event {
    /// The text that stands for the event on the display, when the clock
    /// said `first` as the start was looked at and `second` as the end was:
    /// the summary, and on a second line the time until an event that is
    /// still to start, or the time left of one that is under way.
    pub open spec fn text_2004(self, first: Timestamp, second: Timestamp) -> Seq<char> {
        match self.start.date_time {
            Some(start) => if start.instant() > first.instant() {
                self.summary@ + "\nIn "@ + clock_text(
                    whole_seconds(start.instant() - first.instant()),
                )
            } else {
                match self.end.date_time {
                    Some(end) => if end.instant() > second.instant() {
                        self.summary@ + "\n"@ + clock_text(
                            whole_seconds(end.instant() - second.instant()),
                        ) + " Left"@
                    } else {
                        self.summary@
                    },
                    None => self.summary@,
                }
            },
            None => self.summary@,
        }
    }

    /// The text that stands for the event on the display at the instant `now`.
    pub fn format_2004_at(&self, now: Timestamp) -> (text: String)
        ensures
            text@ == self.text_2004(now, now),
    {
        if let Some(start) = self.start.date_time {
            let until_start = now.nanos_until(&start);
            if until_start > 0 {
                return Self::starting_in(&self.summary, until_start);
            }
            if let Some(end) = self.end.date_time {
                let until_end = now.nanos_until(&end);
                if until_end > 0 {
                    return Self::time_left(&self.summary, until_end);
                }
            }
        }
        self.summary.clone()
    }

    /// The text that stands for the event on the display right now. The
    /// clock is read when the start is looked at, and again if the end has
    /// to be looked at.
    pub fn format_2004(&self) -> (text: String)
        ensures
            exists|first: Timestamp, second: Timestamp| text@ == self.text_2004(first, second),
    {
        if let Some(start) = self.start.date_time {
            let until_start = Self::time_until(&start);
            let ghost first = choose|now: Timestamp| until_start == start.instant() - now.instant();
            if until_start > 0 {
                let text = Self::starting_in(&self.summary, until_start);
                assert(text@ == self.text_2004(first, first));
                return text;
            }
            if let Some(end) = self.end.date_time {
                let until_end = Self::time_until(&end);
                let ghost second = choose|now: Timestamp| until_end == end.instant() - now.instant();
                let text = if until_end > 0 {
                    Self::time_left(&self.summary, until_end)
                } else {
                    self.summary.clone()
                };
                assert(text@ == self.text_2004(first, second));
                return text;
            }
            let text = self.summary.clone();
            assert(text@ == self.text_2004(first, first));
            return text;
        }
        let text = self.summary.clone();
        assert(text@ == self.text_2004(Timestamp { secs: 0, nanos: 0 }, Timestamp { secs: 0, nanos: 0 }));
        text
    }

    /// The time from the system clock's now to `timestamp`, in
    /// nanoseconds; negative where `timestamp` lies in the past.
    pub fn time_until(timestamp: &Timestamp) -> (nanos: i128)
        ensures
            exists|now: Timestamp| nanos == timestamp.instant() - now.instant(),
    {
        let now = utc_now();
        let nanos = now.nanos_until(timestamp);
        assert(nanos == timestamp.instant() - now.instant());
        nanos
    }

    /// Hours, minutes and seconds of a duration given in nanoseconds, as
    /// `HH:MM:SS`; fractions of a second are dropped.
    pub fn format_duration(nanos: i128) -> (text: String)
        ensures
            text@ == clock_text(whole_seconds(nanos as int)),
    {
        let mut text = String::new();
        Self::push_duration(&mut text, nanos);
        assert(text@ =~= clock_text(whole_seconds(nanos as int)));
        text
    }

    fn push_duration(out: &mut String, nanos: i128)
        ensures
            final(out)@ == old(out)@ + clock_text(whole_seconds(nanos as int)),
    {
        let negative = nanos < 0;
        let magnitude: u128 = if negative {
            (-(nanos + 1)) as u128 + 1
        } else {
            nanos as u128
        };
        let seconds = magnitude / 1_000_000_000;
        let hours = seconds / 3600;
        let minutes = (seconds % 3600) / 60;
        let rest = seconds % 60;
        proof {
            let s = whole_seconds(nanos as int);
            assert(s == if negative { -(seconds as int) } else { seconds as int });
            assert(trunc_div(s, 3600) == if negative { -(hours as int) } else { hours as int });
            assert(trunc_rem(s, 3600) == if negative { -((seconds % 3600) as int) } else { (seconds % 3600) as int });
            assert(trunc_div(trunc_rem(s, 3600), 60) == if negative { -(minutes as int) } else { minutes as int });
            assert(trunc_rem(s, 60) == if negative { -(rest as int) } else { rest as int });
            reveal_strlit(":");
        }
        push_signed_two_digits(out, negative, hours);
        out.append(":");
        push_signed_two_digits(out, negative, minutes);
        out.append(":");
        push_signed_two_digits(out, negative, rest);
        assert(out@ =~= old(out)@ + clock_text(whole_seconds(nanos as int)));
    }

    fn starting_in(summary: &String, nanos: i128) -> (text: String)
        ensures
            text@ == summary@ + "\nIn "@ + clock_text(whole_seconds(nanos as int)),
    {
        let mut text = summary.clone();
        text.append("\nIn ");
        Self::push_duration(&mut text, nanos);
        text
    }

    fn time_left(summary: &String, nanos: i128) -> (text: String)
        ensures
            text@ == summary@ + "\n"@ + clock_text(whole_seconds(nanos as int)) + " Left"@,
    {
        let mut text = summary.clone();
        text.append("\n");
        Self::push_duration(&mut text, nanos);
        text.append(" Left");
        text
    }

    /// The event names a location, and `location` occurs in that name.
    pub open spec fn is_at(self, location: Seq<char>) -> bool {
        self.location matches Some(place) && is_substring(location, place@)
    }

    /// The summary marks the event as cancelled.
    pub open spec fn is_cancelled(self) -> bool {
        is_substring(cancel_mark(), self.summary@)
    }

    /// The event takes place at `location`.
    pub open spec fn is_due_at(self, location: Seq<char>) -> bool {
        self.is_at(location) && !self.is_cancelled()
    }

    /// Both ends of the event are instants.
    pub open spec fn is_timed(self) -> bool {
        self.start.date_time is Some && self.end.date_time is Some
    }

    /// The event is held at `location` during some part of the time from
    /// `start` to `end`.
    pub open spec fn occupies(self, location: Seq<char>, start: Timestamp, end: Timestamp) -> bool {
        self.is_at(location) && overlaps(
            start,
            end,
            self.start.date_time.unwrap(),
            self.end.date_time.unwrap(),
        )
    }
}

/// Two spans of time overlap: each starts before the other ends.
pub open spec fn overlaps(
    start: Timestamp,
    end: Timestamp,
    other_start: Timestamp,
    other_end: Timestamp,
) -> bool {
    start.instant() < other_end.instant() && end.instant() > other_start.instant()
}

/// Index of the first event that takes place at `location`, or the number
/// of events where there is none.
pub open spec fn first_due_at(items: Seq<Event>, location: Seq<char>) -> int
    decreases items.len(),
{
    if items.len() == 0 || items[0].is_due_at(location) {
        0
    } else {
        1 + first_due_at(items.drop_first(), location)
    }
}

/// `first_due_at` points at an event that is due, and none before it is.
pub proof fn lemma_first_due_at(items: Seq<Event>, location: Seq<char>)
    ensures
        0 <= first_due_at(items, location) <= items.len(),
        forall|j: int| 0 <= j < first_due_at(items, location) ==> !items[j].is_due_at(location),
        first_due_at(items, location) < items.len() ==> items[first_due_at(
            items,
            location,
        )].is_due_at(location),
    decreases items.len(),
{
    if items.len() == 0 || items[0].is_due_at(location) {
    } else {
        let rest = items.drop_first();
        lemma_first_due_at(rest, location);
        assert forall|j: int| 0 <= j < first_due_at(items, location) implies !items[j].is_due_at(
            location,
        ) by {
            if j > 0 {
                assert(items[j] == rest[j - 1]);
            }
        }
        if first_due_at(items, location) < items.len() {
            assert(items[first_due_at(items, location)] == rest[first_due_at(rest, location)]);
        }
    }
}

/// An event that is due with none due before it is the first one due.
pub proof fn lemma_first_due_at_is(items: Seq<Event>, location: Seq<char>, at: int)
    requires
        0 <= at <= items.len(),
        forall|j: int| 0 <= j < at ==> !items[j].is_due_at(location),
        at < items.len() ==> items[at].is_due_at(location),
    ensures
        first_due_at(items, location) == at,
{
    lemma_first_due_at(items, location);
}

impl CalendarEvents {
    /// Whether two spans of time overlap.
    pub fn is_overlap(proposed: &(Timestamp, Timestamp), existing: &(Timestamp, Timestamp)) -> (overlap:
        bool)
        ensures
            overlap == overlaps(proposed.0, proposed.1, existing.0, existing.1),
    {
        proposed.0.is_before(&existing.1) && existing.0.is_before(&proposed.1)
    }

    /// The first event whose location contains `location` and whose summary
    /// is not marked as cancelled.
    pub fn get_next_at_location(&self, location: &str) -> (next: Option<Event>)
        ensures
            next is Some <==> first_due_at(self.items@, location@) < self.items.len(),
            next matches Some(event) ==> event == self.items[first_due_at(self.items@, location@)],
            next matches Some(event) ==> event.is_due_at(location@),
            next is None ==> forall|i: int|
                0 <= i < self.items.len() ==> !self.items[i].is_due_at(location@),
    {
        let mut index: usize = 0;
        while index < self.items.len()
            invariant
                index <= self.items.len(),
                forall|j: int| 0 <= j < index ==> !self.items[j].is_due_at(location@),
            decreases self.items.len() - index,
        {
            let event = &self.items[index];
            let at_location = match &event.location {
                Some(place) => str_contains(place.as_str(), location),
                None => false,
            };
            if at_location && !str_contains(event.summary.as_str(), "CANCEL") {
                proof {
                    lemma_first_due_at_is(self.items@, location@, index as int);
                }
                return Some(event.clone());
            }
            index = index + 1;
        }
        proof {
            lemma_first_due_at_is(self.items@, location@, index as int);
        }
        None
    }

    /// Every event at `location` that the search for an overlap with the
    /// time from `start` to `end` looks at has both its instants.
    pub open spec fn can_check(self, location: Seq<char>, start: Timestamp, end: Timestamp) -> bool {
        forall|i: int|
            0 <= i < self.items.len() && self.items[i].is_at(location) && (forall|j: int|
                0 <= j < i ==> !(#[trigger] self.items[j]).occupies(location, start, end))
                ==> (#[trigger] self.items[i]).is_timed()
    }

    /// No event at `location` overlaps the time from `start` to `end`.
    pub open spec fn is_free(self, location: Seq<char>, start: Timestamp, end: Timestamp) -> bool {
        forall|i: int|
            0 <= i < self.items.len() ==> !(#[trigger] self.items[i]).occupies(location, start, end)
    }

    /// Whether `location` is free from `start` to `end`, if that can be
    /// told: `None` where an event at the location that has to be looked at
    /// lacks an instant.
    pub fn try_is_free_at_location(&self, location: &str, start: Timestamp, end: Timestamp) -> (free:
        Option<bool>)
        ensures
            free is Some <==> self.can_check(location@, start, end),
            free matches Some(f) ==> f == self.is_free(location@, start, end),
    {
        let mut index: usize = 0;
        while index < self.items.len()
            invariant
                index <= self.items.len(),
                forall|j: int|
                    0 <= j < index ==> !(#[trigger] self.items[j]).occupies(location@, start, end),
                forall|j: int|
                    0 <= j < index && self.items[j].is_at(location@) ==> (#[trigger] self.items[j]).is_timed(),
            decreases self.items.len() - index,
        {
            let event = &self.items[index];
            let at_location = match &event.location {
                Some(place) => str_contains(place.as_str(), location),
                None => false,
            };
            if at_location {
                match (event.start.date_time, event.end.date_time) {
                    (Some(event_start), Some(event_end)) => {
                        if Self::is_overlap(&(start, end), &(event_start, event_end)) {
                            assert(self.items[index as int].occupies(location@, start, end));
                            return Some(false);
                        }
                    },
                    _ => {
                        assert(!self.items[index as int].is_timed());
                        return None;
                    },
                }
            }
            index = index + 1;
        }
        Some(true)
    }

    /// Whether `location` is free from `start` to `end`: no event there
    /// overlaps that time.
    pub fn is_free_at_location(&self, location: &str, start: Timestamp, end: Timestamp) -> (free:
        bool)
        requires
            self.can_check(location@, start, end),
        ensures
            free == self.is_free(location@, start, end),
    {
        match self.try_is_free_at_location(location, start, end) {
            Some(free) => free,
            None => true,
        }
    }
}

} // verus!
