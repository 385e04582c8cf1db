//! What a run is told to do: the files, the field delimiter and the one
//! extraction mode.

use crate::cutr::extract::Extract;
use crate::cutr::positions::{failure_text, list_reading, parse_pos, ParseError, ParseFailure};
use std::ops::Range;
use vstd::prelude::*;
use vstd::string::StringExecFns;
use vstd::string::StringSliceAdditionalSpecFns;

verus! {

/// The settings of one run.
#[derive(Debug)]
pub struct Config {
    /// The files to read, in order; `-` is the standard input.
    pub files: Vec<String>,
    /// The byte between fields.
    pub delimiter: u8,
    /// What to cut out.
    pub extract: Extract,
}

/// Why settings were refused.
#[derive(Debug)]
pub enum ConfigError {
    /// The delimiter is not exactly one byte long. Holds the delimiter.
    Delimiter(String),
    /// None of the three modes was asked for.
    NoMode,
    /// The selection list of the chosen mode was refused.
    List(ParseError),
}

/// A refusal of settings, with its texts as sequences of characters.
pub enum ConfigFailure {
    Delimiter(Seq<char>),
    NoMode,
    List(ParseFailure),
}

impl View for ConfigError {
    type V = ConfigFailure;

    open spec fn view(&self) -> ConfigFailure {
        match self {
            ConfigError::Delimiter(d) => ConfigFailure::Delimiter(d@),
            ConfigError::NoMode => ConfigFailure::NoMode,
            ConfigError::List(e) => ConfigFailure::List(e@),
        }
    }
}

/// The message for a refusal of settings.
pub open spec fn config_failure_text(f: ConfigFailure) -> Seq<char> {
    match f {
        ConfigFailure::Delimiter(d) => "--delim \""@ + d + "\" must be a single byte"@,
        ConfigFailure::NoMode => "Must have --fields, --bytes, or --chars"@,
        ConfigFailure::List(e) => failure_text(e),
    }
}

impl ConfigError {
    /// The message for this refusal.
    pub fn to_string(&self) -> (s: String)
        ensures
            s@ == config_failure_text(self@),
    {
        match self {
            ConfigError::Delimiter(d) => {
                let mut s = String::from_str("--delim \"");
                s.append(d.as_str());
                s.append("\" must be a single byte");
                s
            },
            ConfigError::NoMode => String::from_str("Must have --fields, --bytes, or --chars"),
            ConfigError::List(e) => e.to_string(),
        }
    }
}

/// The unit that a mode counts in.
#[derive(Clone, Copy, Debug, PartialEq, Eq, Structural)]
pub enum Unit {
    Fields,
    Bytes,
    Chars,
}

impl Extract {
    /// The unit of this mode.
    pub open spec fn unit(&self) -> Unit {
        match self {
            Extract::Fields(_) => Unit::Fields,
            Extract::Bytes(_) => Unit::Bytes,
            Extract::Chars(_) => Unit::Chars,
        }
    }

    /// The selection list of this mode.
    pub open spec fn ranges(&self) -> Seq<Range<usize>> {
        match self {
            Extract::Fields(p) => p@,
            Extract::Bytes(p) => p@,
            Extract::Chars(p) => p@,
        }
    }

    /// Every range of the selection list holds at least one position.
    pub open spec fn well_formed(&self) -> bool {
        forall|i: int|
            0 <= i < self.ranges().len() ==> (#[trigger] self.ranges()[i]).start
                < self.ranges()[i].end
    }
}

/// The mode that is chosen and its selection list as written, or nothing
/// where no mode is asked for. Fields go before bytes, bytes before
/// characters.
pub open spec fn chosen_mode(
    fields: Option<Seq<char>>,
    bytes: Option<Seq<char>>,
    chars: Option<Seq<char>>,
) -> Option<(Unit, Seq<char>)> {
    if fields is Some {
        Some((Unit::Fields, fields->Some_0))
    } else if bytes is Some {
        Some((Unit::Bytes, bytes->Some_0))
    } else if chars is Some {
        Some((Unit::Chars, chars->Some_0))
    } else {
        None
    }
}

/// Whether settings are accepted, and if not, why: the delimiter is looked
/// at first, then the mode, then its selection list.
pub open spec fn config_reading(
    delimiter: Seq<u8>,
    delimiter_text: Seq<char>,
    mode: Option<(Unit, Seq<char>)>,
) -> Result<(u8, Unit, Seq<Range<usize>>), ConfigFailure> {
    if delimiter.len() != 1 {
        Err(ConfigFailure::Delimiter(delimiter_text))
    } else {
        match mode {
            None => Err(ConfigFailure::NoMode),
            Some((unit, list)) => match list_reading(list) {
                Err(e) => Err(ConfigFailure::List(e)),
                Ok(ranges) => Ok((delimiter[0], unit, ranges)),
            },
        }
    }
}

/// The text of an optional string.
pub open spec fn text_of(s: Option<&str>) -> Option<Seq<char>> {
    match s {
        Some(t) => Some(t@),
        None => None,
    }
}

impl Config {
    /// Settings from what was given on the command line: the files, the
    /// delimiter as written, and the selection list of each mode that was
    /// asked for.
    pub fn new(
        files: Vec<String>,
        delimiter: &str,
        fields: Option<&str>,
        bytes: Option<&str>,
        chars: Option<&str>,
    ) -> (r: Result<Config, ConfigError>)
        ensures
            match config_reading(
                delimiter.spec_bytes(),
                delimiter@,
                chosen_mode(text_of(fields), text_of(bytes), text_of(chars)),
            ) {
                Ok((byte, unit, ranges)) => {
                    &&& r is Ok
                    &&& r->Ok_0.files == files
                    &&& r->Ok_0.delimiter == byte
                    &&& r->Ok_0.extract.unit() == unit
                    &&& r->Ok_0.extract.ranges() == ranges
                    &&& r->Ok_0.extract.well_formed()
                },
                Err(f) => r is Err && r->Err_0@ == f,
            },
    {
        let delimiter_bytes = delimiter.as_bytes();
        if delimiter_bytes.len() != 1 {
            return Err(ConfigError::Delimiter(String::from_str(delimiter)));
        }
        let extract = match fields {
            Some(list) => match parse_pos(list) {
                Ok(ranges) => Extract::Fields(ranges),
                Err(e) => {
                    return Err(ConfigError::List(e));
                },
            },
            None => match bytes {
                Some(list) => match parse_pos(list) {
                    Ok(ranges) => Extract::Bytes(ranges),
                    Err(e) => {
                        return Err(ConfigError::List(e));
                    },
                },
                None => match chars {
                    Some(list) => match parse_pos(list) {
                        Ok(ranges) => Extract::Chars(ranges),
                        Err(e) => {
                            return Err(ConfigError::List(e));
                        },
                    },
                    None => {
                        return Err(ConfigError::NoMode);
                    },
                },
            },
        };
        Ok(Config { files, delimiter: delimiter_bytes[0], extract })
    }
}

} // verus!
