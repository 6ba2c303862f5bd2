//! Rows as they go to the sink: the columns in their fixed order, and the
//! bytes of each line.

use vstd::prelude::*;
use vstd::string::StringExecFns;
use crate::bench::texts;
use crate::record::{BenchRecord, Row};
use crate::text::{decimal, decimal_string};

verus! {

/// The names of the columns, in the order in which every row has them.
pub open spec fn header_fields() -> Seq<Seq<char>> {
    seq![
        "benchmark"@,
        "node_size"@,
        "class_size"@,
        "algo"@,
        "pattern"@,
        "time"@,
        "result_size"@,
        "repeat_time"@,
    ]
}

impl Row {
    /// The fields of the row, column by column; numbers as decimal numerals.
    pub open spec fn fields(self) -> Seq<Seq<char>> {
        seq![
            self.benchmark,
            decimal(self.node_size as nat),
            decimal(self.class_size as nat),
            self.algo,
            self.pattern,
            self.time,
            decimal(self.result_size as nat),
            decimal(self.repeat_time as nat),
        ]
    }
}

/// The names of the columns, in the order in which every row has them.
pub fn header() -> (names: Vec<String>)
    ensures
        texts(names@) == header_fields(),
{
    let mut names: Vec<String> = Vec::new();
    names.push(String::from_str("benchmark"));
    names.push(String::from_str("node_size"));
    names.push(String::from_str("class_size"));
    names.push(String::from_str("algo"));
    names.push(String::from_str("pattern"));
    names.push(String::from_str("time"));
    names.push(String::from_str("result_size"));
    names.push(String::from_str("repeat_time"));
    names
}

impl BenchRecord {
    /// The fields of the row, column by column; numbers as decimal numerals.
    pub fn fields(&self) -> (fields: Vec<String>)
        ensures
            texts(fields@) == self@.fields(),
    {
        let mut fields: Vec<String> = Vec::new();
        fields.push(self.benchmark.clone());
        fields.push(decimal_string(self.node_size as u128));
        fields.push(decimal_string(self.class_size as u128));
        fields.push(self.algo.clone());
        fields.push(self.pattern.clone());
        fields.push(self.time.clone());
        fields.push(decimal_string(self.result_size as u128));
        fields.push(decimal_string(self.repeat_time as u128));
        fields
    }
}

/// The bytes of the line that a CSV writer in its default configuration
/// writes for a record of the given fields; `None` where it refuses the
/// record.
pub uninterp spec fn csv_line(fields: Seq<Seq<char>>) -> Option<Seq<u8>>;

/// The bytes of an optional buffer.
pub open spec fn bytes_of(buffer: Option<Vec<u8>>) -> Option<Seq<u8>> {
    match buffer {
        Some(bytes) => Some(bytes@),
        None => None,
    }
}

/// Writes one record with `csv::Writer::write_record`, on a writer that
/// `csv::Writer::from_writer` makes over an empty buffer, and takes the
/// buffer back with `csv::Writer::into_inner`. Nothing is proved of the
/// bytes: the contract only gives them their name, `csv_line` of the fields.
/// The writer reads nothing but the fields and its own defaults, so the same
/// fields always give the same bytes.
#[verifier::external_body]
fn write_csv_record(fields: &Vec<String>) -> (line: Option<Vec<u8>>)
    ensures
        bytes_of(line) == csv_line(texts(fields@)),
{
    let mut writer = csv::Writer::from_writer(Vec::new());
    match writer.write_record(fields) {
        Ok(()) => match writer.into_inner() {
            Ok(bytes) => Some(bytes),
            Err(_) => None,
        },
        Err(_) => None,
    }
}

/// What goes to the sink with a row: the line of the row, and before it,
/// where the sink holds nothing yet, the header line. `None` where a line
/// that is due cannot be written.
pub open spec fn sink_bytes(started: bool, row: Row) -> Option<Seq<u8>> {
    frame(started, csv_line(header_fields()), csv_line(row.fields()))
}

/// The line of a row, behind the header line where the sink holds nothing
/// yet; `None` where a line that is due is missing.
pub open spec fn frame(started: bool, head: Option<Seq<u8>>, line: Option<Seq<u8>>) -> Option<
    Seq<u8>,
> {
    match line {
        Some(line) => if started {
            Some(line)
        } else {
            match head {
                Some(head) => Some(head + line),
                None => None,
            }
        },
        None => None,
    }
}

/// Puts the header line, where the sink holds nothing yet, before the line of
/// a row.
pub fn frame_row(started: bool, head: Option<Vec<u8>>, line: Option<Vec<u8>>) -> (out: Option<
    Vec<u8>,
>)
    ensures
        bytes_of(out) == frame(started, bytes_of(head), bytes_of(line)),
{
    match line {
        Some(line) => {
            if started {
                Some(line)
            } else {
                match head {
                    Some(head) => {
                        let mut bytes = head;
                        let mut line = line;
                        bytes.append(&mut line);
                        Some(bytes)
                    },
                    None => None,
                }
            }
        },
        None => None,
    }
}

/// The writer's side of a sink: it turns rows into the bytes to append, and
/// remembers whether the header line has gone out.
pub struct Recorder {
    started: bool,
}

impl Recorder {
    /// Whether the header line has gone out.
    pub closed spec fn started(self) -> bool {
        self.started
    }

    /// The recorder of a sink that holds nothing yet.
    pub fn new() -> (recorder: Recorder)
        ensures
            !recorder.started(),
    {
        Recorder { started: false }
    }

    /// Whether the header line has gone out.
    pub fn has_started(&self) -> (started: bool)
        ensures
            started == self.started(),
    {
        self.started
    }

    /// The bytes to append to the sink for `record`: its line, behind the
    /// header line where this is the first row. `None` where a line cannot be
    /// written; the recorder then stays as it was.
    pub fn append(&mut self, record: &BenchRecord) -> (out: Option<Vec<u8>>)
        ensures
            bytes_of(out) == sink_bytes(old(self).started(), record@),
            final(self).started() == (old(self).started() || out is Some),
    {
        let head = if self.started {
            None
        } else {
            write_csv_record(&header())
        };
        let line = write_csv_record(&record.fields());
        let out = frame_row(self.started, head, line);
        if out.is_some() {
            self.started = true;
        }
        out
    }
}

} // verus!
