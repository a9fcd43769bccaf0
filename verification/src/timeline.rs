//! The timeline of a run: the messages of all detections, each with the time
//! of its event, kept in the order of these times.

use crate::afterfact::CsvFormat;
use vstd::prelude::*;

verus! {

/// A point in time, in UTC.
#[derive(Clone, Copy, Debug, PartialEq, Eq)]
pub struct Timestamp {
    /// Whole seconds since 1970-01-01T00:00:00Z, leap seconds not counted.
    pub secs: i64,
    /// Nanoseconds since the start of that second. During a leap second
    /// they go on from 1,000,000,000.
    pub nanos: u32,
}

/// How much of the second a written time shows.
#[derive(Clone, Copy, Debug, PartialEq, Eq)]
pub enum SecondsPrecision {
    /// Whole seconds, no fraction.
    Whole,
    /// Three digits after the point.
    Millis,
    /// Six digits after the point.
    Micros,
    /// Nine digits after the point.
    Nanos,
    /// None, three, six or nine digits: as few of these as show the whole
    /// fraction.
    Shortest,
}

/// A time as `chrono` writes it in RFC 3339 for UTC, such as
/// `1996-02-27T01:05:01Z`; `None` where `chrono` has no date and time for
/// it. `secs` counts the seconds since 1970-01-01T00:00:00Z, leap seconds not
/// counted, and `nanos` the nanoseconds since the start of that second.
/// `precision` says how much of the second is written, and `use_z` whether
/// the offset is written as `Z` and not as `+00:00`.
pub uninterp spec fn utc_timestamp_text(
    secs: i64,
    nanos: u32,
    precision: SecondsPrecision,
    use_z: bool,
) -> Option<Seq<char>>;

/// `chrono::DateTime::from_timestamp`, and for the date and time it gives
/// `DateTime::to_rfc3339_opts`, with the `chrono::SecondsFormat` that
/// `precision` stands for. The result depends on the arguments alone; what it
/// is, is left to `chrono`.
#[verifier::external_body]
fn format_utc(secs: i64, nanos: u32, precision: SecondsPrecision, use_z: bool) -> (text: Option<
    String,
>)
    ensures
        match text {
            Some(written) => utc_timestamp_text(secs, nanos, precision, use_z) == Some(written@),
            None => utc_timestamp_text(secs, nanos, precision, use_z) is None,
        },
{
    let seconds = match precision {
        SecondsPrecision::Whole => chrono::SecondsFormat::Secs,
        SecondsPrecision::Millis => chrono::SecondsFormat::Millis,
        SecondsPrecision::Micros => chrono::SecondsFormat::Micros,
        SecondsPrecision::Nanos => chrono::SecondsFormat::Nanos,
        SecondsPrecision::Shortest => chrono::SecondsFormat::AutoSi,
    };
    match chrono::DateTime::from_timestamp(secs, nanos) {
        Some(time) => Some(time.to_rfc3339_opts(seconds, use_z)),
        None => None,
    }
}

impl Timestamp {
    /// The time in RFC 3339; `None` for a time without a date.
    pub open spec fn rfc3339(self, precision: SecondsPrecision, use_z: bool) -> Option<Seq<char>> {
        utc_timestamp_text(self.secs, self.nanos, precision, use_z)
    }

    /// Writes the time in RFC 3339, with as much of the second as
    /// `precision` says and with the offset as `Z` or as `+00:00`; `None` for
    /// a time without a date.
    pub fn to_rfc3339(&self, precision: SecondsPrecision, use_z: bool) -> (text: Option<String>)
        ensures
            match text {
                Some(written) => self.rfc3339(precision, use_z) == Some(written@),
                None => self.rfc3339(precision, use_z) is None,
            },
    {
        format_utc(self.secs, self.nanos, precision, use_z)
    }

    /// Whether `self` is `other` or comes before it.
    pub open spec fn not_later_than(self, other: Timestamp) -> bool {
        self.secs < other.secs || (self.secs == other.secs && self.nanos <= other.nanos)
    }

    /// Whether `self` is `other` or comes before it.
    pub fn is_not_later_than(&self, other: &Timestamp) -> (answer: bool)
        ensures
            answer == self.not_later_than(*other),
    {
        self.secs < other.secs || (self.secs == other.secs && self.nanos <= other.nanos)
    }
}

/// One message of the timeline.
struct Entry {
    /// The time of the event.
    time: Timestamp,
    /// The message, as it was given.
    message: String,
}

/// The messages gathered so far, earliest first. Messages of the same time
/// stand in the order in which they were added.
pub struct Timeline {
    rows: Vec<Entry>,
}

/// Whether no row stands before an earlier one.
pub open spec fn in_time_order(rows: Seq<(Timestamp, Seq<char>)>) -> bool {
    forall|i: int, j: int| 0 <= i <= j < rows.len() ==> rows[i].0.not_later_than(rows[j].0)
}

/// How many rows of `rows` are not later than `time`. In a timeline this is
/// the place of a new row for `time`: behind every row that is not later, and
/// before every later one.
pub open spec fn place_of(rows: Seq<(Timestamp, Seq<char>)>, time: Timestamp) -> nat
    decreases rows.len(),
{
    if rows.len() == 0 {
        0
    } else if rows.last().0.not_later_than(time) {
        place_of(rows.drop_last(), time) + 1
    } else {
        place_of(rows.drop_last(), time)
    }
}

/// The rows after `message` was added for `time`: the new row stands at its
/// place, and the rows that were there keep their order.
pub open spec fn with_row(
    rows: Seq<(Timestamp, Seq<char>)>,
    time: Timestamp,
    message: Seq<char>,
) -> Seq<(Timestamp, Seq<char>)> {
    rows.insert(place_of(rows, time) as int, (time, message))
}

/// The place of a new row is a place of the rows or the place behind the
/// last.
pub proof fn lemma_place_in_range(rows: Seq<(Timestamp, Seq<char>)>, time: Timestamp)
    ensures
        place_of(rows, time) <= rows.len(),
    decreases rows.len(),
{
    if rows.len() > 0 {
        lemma_place_in_range(rows.drop_last(), time);
    }
}

/// In a timeline, the rows that are not later than `time` are exactly the
/// first `place_of(rows, time)` rows.
pub proof fn lemma_place_splits(rows: Seq<(Timestamp, Seq<char>)>, time: Timestamp)
    requires
        in_time_order(rows),
    ensures
        place_of(rows, time) <= rows.len(),
        forall|i: int|
            0 <= i < place_of(rows, time) ==> (#[trigger] rows[i]).0.not_later_than(time),
        forall|i: int|
            place_of(rows, time) <= i < rows.len() ==> !(#[trigger] rows[i]).0.not_later_than(
                time,
            ),
    decreases rows.len(),
{
    if rows.len() > 0 {
        let earlier = rows.drop_last();
        let place = place_of(earlier, time) as int;
        lemma_place_splits(earlier, time);
        if rows.last().0.not_later_than(time) {
            assert forall|i: int| 0 <= i < rows.len() implies (
            #[trigger] rows[i]).0.not_later_than(time) by {
                assert(rows[i].0.not_later_than(rows[rows.len() - 1].0));
            }
        } else {
            assert forall|i: int| 0 <= i < place implies (
            #[trigger] rows[i]).0.not_later_than(time) by {
                assert(earlier[i].0.not_later_than(time));
            }
            assert forall|i: int| place <= i < rows.len() implies !(
            #[trigger] rows[i]).0.not_later_than(time) by {
                if i < earlier.len() {
                    assert(!earlier[i].0.not_later_than(time));
                }
            }
        }
    }
}

/// Adding a message to a timeline gives a timeline with one more row: the
/// new row, and every row that was there.
pub proof fn lemma_with_row_in_time_order(
    rows: Seq<(Timestamp, Seq<char>)>,
    time: Timestamp,
    message: Seq<char>,
)
    requires
        in_time_order(rows),
    ensures
        in_time_order(with_row(rows, time, message)),
        with_row(rows, time, message).len() == rows.len() + 1,
        with_row(rows, time, message)[place_of(rows, time) as int] == (time, message),
        with_row(rows, time, message).remove(place_of(rows, time) as int) == rows,
{
    lemma_place_splits(rows, time);
    let place = place_of(rows, time) as int;
    let after = with_row(rows, time, message);
    assert(in_time_order(after));
}

impl View for Timeline {
    type V = Seq<(Timestamp, Seq<char>)>;

    closed spec fn view(&self) -> Seq<(Timestamp, Seq<char>)> {
        Seq::new(self.rows.len() as nat, |i: int| (self.rows[i].time, self.rows[i].message@))
    }
}

impl Timeline {
    #[verifier::type_invariant]
    spec fn ordered(self) -> bool {
        in_time_order(self@)
    }

    /// A timeline without messages.
    pub fn new() -> (timeline: Timeline)
        ensures
            timeline@ == Seq::<(Timestamp, Seq<char>)>::empty(),
    {
        let timeline = Timeline { rows: Vec::new() };
        timeline
    }

    /// The number of messages.
    pub fn len(&self) -> (count: usize)
        ensures
            count == self@.len(),
    {
        self.rows.len()
    }

    /// The message at place `index`, counted from 0, as a row of the
    /// timeline export; `None` if the timeline has no such place.
    pub fn row(&self, index: usize) -> (found: Option<CsvFormat<'_>>)
        ensures
            in_time_order(self@),
            match found {
                Some(row) => index < self@.len() && row.time == self@[index as int].0
                    && row.message@ == self@[index as int].1,
                None => index >= self@.len(),
            },
    {
        proof {
            use_type_invariant(self);
        }
        if index < self.rows.len() {
            Some(
                CsvFormat {
                    time: self.rows[index].time,
                    message: self.rows[index].message.as_str(),
                },
            )
        } else {
            None
        }
    }

    /// Adds `message` for the event time `time`, behind the messages of the
    /// same and of earlier times and before those of later times.
    pub fn insert(&mut self, time: Timestamp, message: String)
        ensures
            final(self)@ == with_row(old(self)@, time, message@),
            in_time_order(final(self)@),
    {
        proof {
            use_type_invariant(&*self);
        }
        let ghost before = self@;
        let mut place: usize = self.rows.len();
        while place > 0 && !self.rows[place - 1].time.is_not_later_than(&time)
            invariant
                place <= self.rows.len(),
                self@ == before,
                forall|i: int|
                    place <= i < before.len() ==> !(#[trigger] before[i]).0.not_later_than(time),
            decreases place,
        {
            place -= 1;
        }
        proof {
            lemma_place_splits(before, time);
            if place < place_of(before, time) {
                assert(before[place as int].0.not_later_than(time));
            }
            if place > place_of(before, time) {
                assert(!before[place - 1].0.not_later_than(time));
            }
            lemma_with_row_in_time_order(before, time, message@);
        }
        let ghost added = message@;
        let mut rows: Vec<Entry> = Vec::new();
        core::mem::swap(&mut self.rows, &mut rows);
        rows.insert(place, Entry { time, message });
        proof {
            assert(Seq::new(rows.len() as nat, |i: int| (rows[i].time, rows[i].message@))
                == with_row(before, time, added));
        }
        self.rows = rows;
    }
}

} // verus!
