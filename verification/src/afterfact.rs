//! The timeline as CSV: a header row, then one row per message with the time
//! of its event.

use crate::timeline::{
    lemma_place_in_range, place_of, with_row, SecondsPrecision, Timeline, Timestamp,
};
use vstd::prelude::*;
use vstd::utf8::encode_utf8;

verus! {

/// `csv::Error`, the failure that a `csv::Writer` reports. Nothing is said of
/// what is inside.
#[verifier::external_type_specification]
#[verifier::external_body]
pub struct ExCsvError(csv::Error);

/// One row of the export.
#[derive(Debug)]
pub struct CsvFormat<'a> {
    /// The time of the event.
    pub time: Timestamp,
    /// The message.
    pub message: &'a str,
}

/// Why a timeline could not be turned into CSV.
#[derive(Debug)]
pub enum EmitError {
    /// The calendar has no date for this time of an event.
    TimestampOutOfRange(Timestamp),
    /// The CSV writer reported this failure. A writer into memory reports
    /// none, so `emit_csv` never ends with it.
    Writer(csv::Error),
}

/// The text of a time in the export: RFC 3339 down to the whole second,
/// with `Z` for the offset; `None` for a time that cannot be written.
pub open spec fn time_text(time: Timestamp) -> Option<Seq<char>> {
    time.rfc3339(SecondsPrecision::Whole, true)
}

/// Whether a byte cannot stand in a field without quotes: comma, quote,
/// carriage return and line feed.
pub open spec fn is_special(byte: u8) -> bool {
    byte == 0x2c || byte == 0x22 || byte == 0x0d || byte == 0x0a
}

/// Whether a field has to be put in quotes.
pub open spec fn needs_quotes(field: Seq<u8>) -> bool {
    exists|i: int| 0 <= i < field.len() && is_special(#[trigger] field[i])
}

/// The field with every quote written twice.
pub open spec fn with_doubled_quotes(field: Seq<u8>) -> Seq<u8>
    decreases field.len(),
{
    if field.len() == 0 {
        Seq::empty()
    } else if field.last() == 0x22 {
        with_doubled_quotes(field.drop_last()).push(0x22).push(0x22)
    } else {
        with_doubled_quotes(field.drop_last()).push(field.last())
    }
}

/// A field as it stands in a record: as it is, or, where it has to be, in
/// quotes and with its own quotes doubled.
pub open spec fn csv_field(field: Seq<u8>) -> Seq<u8> {
    if needs_quotes(field) {
        seq![0x22u8] + with_doubled_quotes(field) + seq![0x22u8]
    } else {
        field
    }
}

/// The text with every pair of quotes read as one quote: what
/// `with_doubled_quotes` is read back to.
pub open spec fn with_halved_quotes(text: Seq<u8>) -> Seq<u8>
    decreases text.len(),
{
    if text.len() == 0 {
        Seq::empty()
    } else if text.len() >= 2 && text.last() == 0x22 && text[text.len() - 2] == 0x22 {
        with_halved_quotes(text.take(text.len() - 2)).push(0x22)
    } else {
        with_halved_quotes(text.drop_last()).push(text.last())
    }
}

/// What a reader of CSV takes a written field for: a field in quotes
/// without them and with its doubled quotes halved, any other field as it
/// stands.
pub open spec fn csv_unquoted(written: Seq<u8>) -> Seq<u8> {
    if written.len() >= 2 && written.first() == 0x22 && written.last() == 0x22 {
        with_halved_quotes(written.subrange(1, written.len() - 1))
    } else {
        written
    }
}

/// A record of two fields: the fields with a comma between them and a line
/// feed at the end.
pub open spec fn csv_record(first: Seq<u8>, second: Seq<u8>) -> Seq<u8> {
    csv_field(first) + seq![0x2cu8] + csv_field(second) + seq![0x0au8]
}

/// `csv::Writer::write_record` on a new `csv::Writer` over an empty buffer,
/// with the two fields as the record, and then `csv::Writer::into_inner`.
/// Both succeed: the writer fails only where its sink does or where a record
/// has another number of fields than the first, and here the sink is a
/// `Vec<u8>` and the record is the first. The buffer then holds the record
/// as a writer with the default settings writes it: comma as delimiter, line
/// feed as terminator, quotes only where necessary, quotes doubled inside
/// quotes.
#[verifier::external_body]
fn write_record(first: &str, second: &str) -> (written: Result<Vec<u8>, csv::Error>)
    ensures
        written is Ok,
        written matches Ok(bytes) ==> bytes@ == csv_record(
            encode_utf8(first@),
            encode_utf8(second@),
        ),
{
    let mut writer = csv::Writer::from_writer(Vec::new());
    writer.write_record([first, second])?;
    match writer.into_inner() {
        Ok(bytes) => Ok(bytes),
        Err(error) => Err(csv::Error::from(error.into_error())),
    }
}

/// What the export makes of what the CSV writer handed back: the record, or
/// the writer's failure as an `EmitError`.
pub fn checked(written: Result<Vec<u8>, csv::Error>) -> (record: Result<Vec<u8>, EmitError>)
    ensures
        match written {
            Ok(bytes) => record == Ok::<Vec<u8>, EmitError>(bytes),
            Err(error) => record == Err::<Vec<u8>, EmitError>(EmitError::Writer(error)),
        },
{
    match written {
        Ok(bytes) => Ok(bytes),
        Err(error) => Err(EmitError::Writer(error)),
    }
}

/// The header of the export.
pub open spec fn csv_header() -> Seq<u8> {
    csv_record(encode_utf8("Time"@), encode_utf8("Message"@))
}

/// The record of a message with its time. It has a meaning only for a time
/// that `time_text` has a text for.
pub open spec fn row_record(time: Timestamp, message: Seq<char>) -> Seq<u8> {
    csv_record(encode_utf8(time_text(time)->0), encode_utf8(message))
}

/// Whether every row has a time that can be written.
pub open spec fn exportable(rows: Seq<(Timestamp, Seq<char>)>) -> bool {
    forall|i: int| 0 <= i < rows.len() ==> time_text((#[trigger] rows[i]).0) is Some
}

/// The records of the rows, in the order of the rows.
pub open spec fn csv_rows(rows: Seq<(Timestamp, Seq<char>)>) -> Seq<u8>
    decreases rows.len(),
{
    if rows.len() == 0 {
        Seq::empty()
    } else {
        csv_rows(rows.drop_last()) + row_record(rows.last().0, rows.last().1)
    }
}

/// The whole export: the header, then the records of the rows.
pub open spec fn csv_export(rows: Seq<(Timestamp, Seq<char>)>) -> Seq<u8> {
    csv_header() + csv_rows(rows)
}

impl<'a> CsvFormat<'a> {
    /// The header record, `Time,Message`.
    pub fn header() -> (record: Result<Vec<u8>, EmitError>)
        ensures
            record is Ok,
            record matches Ok(bytes) ==> bytes@ == csv_header(),
    {
        checked(write_record("Time", "Message"))
    }

    /// The record of this row: the time in RFC 3339 for UTC with whole
    /// seconds, then the message. It fails for a time that cannot be
    /// written, and for no other row.
    pub fn serialize(&self) -> (record: Result<Vec<u8>, EmitError>)
        ensures
            time_text(self.time) is Some ==> record is Ok,
            match record {
                Ok(bytes) => time_text(self.time) is Some && bytes@ == row_record(
                    self.time,
                    self.message@,
                ),
                Err(EmitError::TimestampOutOfRange(time)) => time == self.time
                    && time_text(self.time) is None,
                Err(EmitError::Writer(_)) => false,
            },
    {
        match self.time.to_rfc3339(SecondsPrecision::Whole, true) {
            Some(time) => checked(write_record(time.as_str(), self.message)),
            None => Err(EmitError::TimestampOutOfRange(self.time)),
        }
    }
}

/// Writes the timeline as CSV: the header row, then one row for each message,
/// earliest first.
///
/// The export succeeds if every time of the timeline can be written.
/// Otherwise it fails with the first time that cannot.
pub fn emit_csv(timeline: &Timeline) -> (export: Result<Vec<u8>, EmitError>)
    ensures
        exportable(timeline@) ==> export is Ok,
        match export {
            Ok(bytes) => exportable(timeline@) && bytes@ == csv_export(timeline@),
            Err(EmitError::TimestampOutOfRange(time)) => exists|i: int|
                0 <= i < timeline@.len() && (#[trigger] timeline@[i]).0 == time
                    && time_text(time) is None && exportable(timeline@.take(i)),
            Err(EmitError::Writer(_)) => false,
        },
{
    let mut export = match CsvFormat::header() {
        Ok(bytes) => bytes,
        Err(error) => {
            return Err(error);
        },
    };
    let count = timeline.len();
    let mut i: usize = 0;
    while i < count
        invariant
            count == timeline@.len(),
            i <= count,
            exportable(timeline@.take(i as int)),
            export@ == csv_header() + csv_rows(timeline@.take(i as int)),
        decreases count - i,
    {
        let ghost done = timeline@.take(i as int);
        let ghost next = timeline@.take(i + 1);
        if let Some(row) = timeline.row(i) {
            match row.serialize() {
                Ok(bytes) => {
                    let mut bytes = bytes;
                    proof {
                        assert(next.drop_last() == done);
                    }
                    export.append(&mut bytes);
                },
                Err(error) => {
                    return Err(error);
                },
            }
        }
        i += 1;
    }
    proof {
        assert(timeline@.take(i as int) == timeline@);
    }
    Ok(export)
}

/// The header is the line `Time,Message`.
pub proof fn lemma_header_text()
    ensures
        csv_header() == encode_utf8("Time,Message\n"@),
{
    reveal_strlit("Time");
    reveal_strlit("Message");
    reveal_strlit("Time,Message\n");
    let time = "Time"@;
    let message = "Message"@;
    let line = "Time,Message\n"@;
    vstd::utf8::is_ascii_chars_encode_utf8(time);
    vstd::utf8::is_ascii_chars_encode_utf8(message);
    vstd::utf8::is_ascii_chars_encode_utf8(line);
    let first = encode_utf8(time);
    let second = encode_utf8(message);
    assert(first[0] == time[0] as u8 && first[1] == time[1] as u8 && first[2] == time[2] as u8
        && first[3] == time[3] as u8);
    assert(second[0] == message[0] as u8 && second[1] == message[1] as u8 && second[2]
        == message[2] as u8 && second[3] == message[3] as u8 && second[4] == message[4] as u8
        && second[5] == message[5] as u8 && second[6] == message[6] as u8);
    assert(csv_header() == encode_utf8(line));
}

/// Doubling the quotes of a field loses nothing: halving them gives the
/// field back.
pub proof fn lemma_doubled_quotes_read_back(field: Seq<u8>)
    ensures
        with_halved_quotes(with_doubled_quotes(field)) == field,
    decreases field.len(),
{
    if field.len() > 0 {
        let earlier = with_doubled_quotes(field.drop_last());
        lemma_doubled_quotes_read_back(field.drop_last());
        if field.last() == 0x22 {
            let doubled = earlier.push(0x22).push(0x22);
            assert(doubled.take(doubled.len() - 2) == earlier);
        } else {
            assert(earlier.push(field.last()).drop_last() == earlier);
        }
        assert(field.drop_last().push(field.last()) == field);
    }
}

/// A field is written so that it can be read back byte for byte: nothing is
/// trimmed, cut or encoded anew, and quoting is undone by unquoting.
pub proof fn lemma_field_reads_back(field: Seq<u8>)
    ensures
        csv_unquoted(csv_field(field)) == field,
        !needs_quotes(field) ==> csv_field(field) == field,
{
    if needs_quotes(field) {
        let doubled = with_doubled_quotes(field);
        let written = csv_field(field);
        lemma_doubled_quotes_read_back(field);
        assert(written.subrange(1, written.len() - 1) == doubled);
    }
}

/// The records of two runs of rows, one after the other, are the records of
/// the rows of both.
pub proof fn lemma_csv_rows_concat(
    first: Seq<(Timestamp, Seq<char>)>,
    second: Seq<(Timestamp, Seq<char>)>,
)
    ensures
        csv_rows(first + second) == csv_rows(first) + csv_rows(second),
    decreases second.len(),
{
    if second.len() > 0 {
        lemma_csv_rows_concat(first, second.drop_last());
        assert((first + second).drop_last() == first + second.drop_last());
    }
}

/// Every row of the timeline has exactly one record in the export, at the
/// row's place: before it stand the records of the rows before it, behind it
/// those of the rows behind it. The record holds the time as `time_text`
/// gives it and the message as `csv_field` writes it,
/// and both fields read back as the bytes of that time and of that message.
pub proof fn lemma_export_has_each_row(rows: Seq<(Timestamp, Seq<char>)>, i: int)
    requires
        0 <= i < rows.len(),
    ensures
        csv_export(rows) == csv_header() + csv_rows(rows.take(i)) + row_record(
            rows[i].0,
            rows[i].1,
        ) + csv_rows(rows.skip(i + 1)),
        row_record(rows[i].0, rows[i].1) == csv_field(
            encode_utf8(time_text(rows[i].0)->0),
        ) + seq![0x2cu8] + csv_field(encode_utf8(rows[i].1)) + seq![0x0au8],
        csv_unquoted(csv_field(encode_utf8(time_text(rows[i].0)->0))) == encode_utf8(
            time_text(rows[i].0)->0,
        ),
        csv_unquoted(csv_field(encode_utf8(rows[i].1))) == encode_utf8(rows[i].1),
{
    lemma_field_reads_back(encode_utf8(time_text(rows[i].0)->0));
    lemma_field_reads_back(encode_utf8(rows[i].1));
    let row = seq![rows[i]];
    assert(rows == rows.take(i) + row + rows.skip(i + 1));
    lemma_csv_rows_concat(rows.take(i) + row, rows.skip(i + 1));
    lemma_csv_rows_concat(rows.take(i), row);
    assert(csv_rows(row.drop_last()) == Seq::<u8>::empty());
}

/// A message added to the timeline adds its record to the export and
/// changes no other: the records of the rows that are not later stay before
/// it, those of the later rows behind it.
pub proof fn lemma_insert_adds_one_record(
    rows: Seq<(Timestamp, Seq<char>)>,
    time: Timestamp,
    message: Seq<char>,
)
    ensures
        csv_export(with_row(rows, time, message)) == csv_header() + csv_rows(
            rows.take(place_of(rows, time) as int),
        ) + row_record(time, message) + csv_rows(rows.skip(place_of(rows, time) as int)),
{
    lemma_place_in_range(rows, time);
    let place = place_of(rows, time) as int;
    let after = with_row(rows, time, message);
    lemma_export_has_each_row(after, place);
    assert(after.take(place) == rows.take(place));
    assert(after.skip(place + 1) == rows.skip(place));
}

/// A timeline can be exported after a message was added if it could be
/// before and the time of the message can be written, and only then.
pub proof fn lemma_insert_exportable(
    rows: Seq<(Timestamp, Seq<char>)>,
    time: Timestamp,
    message: Seq<char>,
)
    ensures
        exportable(with_row(rows, time, message)) <==> exportable(rows) && time_text(
            time,
        ) is Some,
{
    lemma_place_in_range(rows, time);
    let place = place_of(rows, time) as int;
    let after = with_row(rows, time, message);
    if exportable(after) {
        assert(after[place].0 == time);
        assert forall|i: int| 0 <= i < rows.len() implies time_text(
            (#[trigger] rows[i]).0,
        ) is Some by {
            if i < place {
                assert(after[i] == rows[i]);
            } else {
                assert(after[i + 1] == rows[i]);
            }
        }
    }
    if exportable(rows) && time_text(time) is Some {
        assert(exportable(after));
    }
}

} // verus!
