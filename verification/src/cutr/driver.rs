//! The course of a run: which file to open next, what to do with each line
//! or record that was read, and how a file that cannot be opened or read is
//! reported and passed over. The caller opens, reads and writes; the driver
//! decides.

use crate::cutr::config::{Config, Unit};
use crate::cutr::extract::{
    extract_bytes, extract_chars, extract_fields, record_fields, select, Extract,
};
use crate::text::{texts, utf8_lossy};
use csv::StringRecord;
use vstd::prelude::*;
use vstd::string::StringExecFns;
use vstd::string::StringSliceAdditionalSpecFns;
use vstd::utf8::encode_utf8;

verus! {

/// What the caller is to do next.
#[derive(Clone, Copy, Debug, PartialEq, Eq, Structural)]
pub enum Request {
    /// Open the file with this index among the files of the settings.
    Open(usize),
    /// Read the next line of the open file, without its line ending.
    ReadLine,
    /// Read the next record of the open file.
    ReadRecord,
    /// Stop: every file has been dealt with.
    Finish,
}

/// What the caller reports back.
#[derive(Debug)]
pub enum Event<'a> {
    /// The file was opened.
    Opened,
    /// The file could not be opened; holds the reason.
    OpenFailed(&'a str),
    /// A line was read.
    Line(&'a str),
    /// A record was read.
    Record(&'a StringRecord),
    /// The open file has come to its end.
    EndOfFile,
    /// Reading the open file failed; holds the reason.
    ReadFailed(&'a str),
}

/// What the caller is to write.
#[derive(Debug, PartialEq, Eq)]
pub enum Output {
    /// Nothing.
    Nothing,
    /// A line for the diagnostic stream.
    Diagnostic(String),
    /// A line for the standard output.
    Line(String),
    /// A record for the record writer.
    Record(Vec<String>),
}

/// What is to be written, with its texts as sequences of characters.
pub enum Written {
    Nothing,
    Diagnostic(Seq<char>),
    Line(Seq<char>),
    Record(Seq<Seq<char>>),
}

impl View for Output {
    type V = Written;

    open spec fn view(&self) -> Written {
        match self {
            Output::Nothing => Written::Nothing,
            Output::Diagnostic(s) => Written::Diagnostic(s@),
            Output::Line(s) => Written::Line(s@),
            Output::Record(r) => Written::Record(texts(r@)),
        }
    }
}

/// Where a run stands: the index of the file in hand, which is the number
/// of files when all are done, and whether that file is open.
#[derive(Clone, Copy, Debug, PartialEq, Eq, Structural)]
pub struct Driver {
    pub file: usize,
    pub reading: bool,
}

/// What the driver decides on an event: what to write, and what to do next.
#[derive(Debug)]
pub struct Step {
    pub output: Output,
    pub request: Request,
}

/// What a run in state `state` waits for.
pub open spec fn pending(config: &Config, state: Driver) -> Request {
    if state.file >= config.files@.len() {
        Request::Finish
    } else if !state.reading {
        Request::Open(state.file)
    } else if config.extract.unit() == Unit::Fields {
        Request::ReadRecord
    } else {
        Request::ReadLine
    }
}

/// The line that is written for a file that cannot be opened, or that
/// cannot be read on: the name of the file, then the reason.
pub open spec fn open_diagnostic(filename: Seq<char>, reason: Seq<char>) -> Seq<char> {
    filename + ": "@ + reason
}

/// What the mode of the settings makes of one line: the characters picked,
/// or the bytes picked and decoded leniently. Fields are not cut from lines.
pub open spec fn line_output(extract: &Extract, line: Seq<char>) -> Written {
    match extract.unit() {
        Unit::Chars => Written::Line(select(line, extract.ranges())),
        Unit::Bytes => Written::Line(utf8_lossy(select(encode_utf8(line), extract.ranges()))),
        Unit::Fields => Written::Nothing,
    }
}

/// The state that follows `state` on `event`. A file that cannot be
/// opened, that has come to its end or that cannot be read on is left for
/// the next file. An event that does not answer what the run waits for
/// changes nothing.
pub open spec fn next_state(config: &Config, state: Driver, event: Event) -> Driver {
    match (pending(config, state), event) {
        (Request::Open(i), Event::Opened) => Driver { file: i, reading: true },
        (Request::Open(i), Event::OpenFailed(_)) => Driver { file: (i + 1) as usize, reading: false },
        (Request::ReadLine, Event::EndOfFile)
        | (Request::ReadRecord, Event::EndOfFile)
        | (Request::ReadLine, Event::ReadFailed(_))
        | (Request::ReadRecord, Event::ReadFailed(_)) => Driver {
            file: (state.file + 1) as usize,
            reading: false,
        },
        _ => state,
    }
}

/// What is written when `event` arrives in state `state`: a diagnostic for a
/// file that cannot be opened or cannot be read on, the extract of a line or
/// record that was read, and nothing otherwise.
pub open spec fn written(config: &Config, state: Driver, event: Event) -> Written {
    match (pending(config, state), event) {
        (Request::Open(i), Event::OpenFailed(reason)) => Written::Diagnostic(
            open_diagnostic(config.files@[i as int]@, reason@),
        ),
        (Request::ReadLine, Event::ReadFailed(reason))
        | (Request::ReadRecord, Event::ReadFailed(reason)) => Written::Diagnostic(
            open_diagnostic(config.files@[state.file as int]@, reason@),
        ),
        (Request::ReadLine, Event::Line(line)) => line_output(&config.extract, line@),
        (Request::ReadRecord, Event::Record(record)) => Written::Record(
            select(record_fields(*record), config.extract.ranges()),
        ),
        _ => Written::Nothing,
    }
}

/// What the caller is to do after `event` arrived in state `state`: what
/// the state that follows waits for.
pub open spec fn next_request(config: &Config, state: Driver, event: Event) -> Request {
    pending(config, next_state(config, state, event))
}

impl Driver {
    /// The state before the first file.
    pub fn new() -> (driver: Driver)
        ensures
            driver == (Driver { file: 0, reading: false }),
    {
        Driver { file: 0, reading: false }
    }

    /// What the run waits for.
    pub fn request(&self, config: &Config) -> (r: Request)
        ensures
            r == pending(config, *self),
    {
        if self.file >= config.files.len() {
            Request::Finish
        } else if !self.reading {
            Request::Open(self.file)
        } else {
            match config.extract {
                Extract::Fields(_) => Request::ReadRecord,
                _ => Request::ReadLine,
            }
        }
    }

    /// Takes in what the caller reports, and decides what to write and what
    /// to do next.
    pub fn react(&mut self, config: &Config, event: Event) -> (step: Step)
        ensures
            *final(self) == next_state(config, *old(self), event),
            step.output@ == written(config, *old(self), event),
            step.request == next_request(config, *old(self), event),
    {
        assert(config.files.len() == config.files@.len());
        let waiting = self.request(config);
        let output = match (waiting, &event) {
            (Request::Open(i), Event::Opened) => {
                self.reading = true;
                Output::Nothing
            },
            (Request::Open(i), Event::OpenFailed(reason)) => {
                let mut line = config.files[i].clone();
                line.append(": ");
                line.append(reason);
                self.file = i + 1;
                self.reading = false;
                Output::Diagnostic(line)
            },
            (Request::ReadLine, Event::Line(line)) => {
                match &config.extract {
                    Extract::Chars(ranges) => Output::Line(extract_chars(line, ranges.as_slice())),
                    Extract::Bytes(ranges) => Output::Line(extract_bytes(line, ranges.as_slice())),
                    Extract::Fields(ranges) => Output::Nothing,
                }
            },
            (Request::ReadRecord, Event::Record(record)) => {
                match &config.extract {
                    Extract::Fields(ranges) => Output::Record(
                        extract_fields(record, ranges.as_slice()),
                    ),
                    _ => Output::Nothing,
                }
            },
            (Request::ReadLine, Event::EndOfFile) | (Request::ReadRecord, Event::EndOfFile) => {
                self.file = self.file + 1;
                self.reading = false;
                Output::Nothing
            },
            (Request::ReadLine, Event::ReadFailed(reason))
            | (Request::ReadRecord, Event::ReadFailed(reason)) => {
                let mut line = config.files[self.file].clone();
                line.append(": ");
                line.append(reason);
                self.file = self.file + 1;
                self.reading = false;
                Output::Diagnostic(line)
            },
            _ => Output::Nothing,
        };
        let request = self.request(config);
        Step { output, request }
    }
}

} // verus!
