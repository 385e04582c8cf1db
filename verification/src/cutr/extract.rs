//! The three extractors: characters, bytes and fields at the positions of a
//! selection list, in the order of the list.

use crate::cutr::positions::PositionList;
use crate::text::{chars_of, decode_lossy, string_of, texts, utf8_lossy};
use csv::StringRecord;
use vstd::string::StringExecFns;
use std::ops::Range;
use vstd::prelude::*;
use vstd::string::StringSliceAdditionalSpecFns;
use vstd::utf8::{decode_utf8, valid_utf8};

verus! {

/// The units of `units` at the positions of `r` that exist: positions at or
/// beyond the end contribute nothing.
pub open spec fn clip<T>(units: Seq<T>, r: Range<usize>) -> Seq<T> {
    if r.start < r.end && r.start < units.len() {
        units.subrange(
            r.start as int,
            if r.end <= units.len() {
                r.end as int
            } else {
                units.len() as int
            },
        )
    } else {
        Seq::empty()
    }
}

/// What a selection list picks from `units`: for each range in the order of
/// the list, the units at its positions in the order of the input. Ranges
/// that overlap or repeat pick their units again.
pub open spec fn select<T>(units: Seq<T>, ranges: Seq<Range<usize>>) -> Seq<T>
    decreases ranges.len(),
{
    if ranges.len() == 0 {
        Seq::empty()
    } else {
        select(units, ranges.drop_last()) + clip(units, ranges.last())
    }
}

/// Copies the units of `units` that `ranges` picks.
pub fn select_units<T: Copy>(units: &[T], ranges: &[Range<usize>]) -> (out: Vec<T>)
    ensures
        out@ == select(units@, ranges@),
{
    let mut out: Vec<T> = Vec::new();
    let mut k: usize = 0;
    while k < ranges.len()
        invariant
            0 <= k <= ranges@.len(),
            out@ == select(units@, ranges@.take(k as int)),
        decreases ranges@.len() - k,
    {
        let start: usize = ranges[k].start;
        let end: usize = if ranges[k].end <= units.len() {
            ranges[k].end
        } else {
            units.len()
        };
        let ghost before = out@;
        if start < end {
            let mut i: usize = start;
            while i < end
                invariant
                    start <= i <= end <= units@.len(),
                    out@ == before + units@.subrange(start as int, i as int),
                decreases end - i,
            {
                out.push(units[i]);
                assert(out@ =~= before + units@.subrange(start as int, i + 1));
                i = i + 1;
            }
        }
        proof {
            assert(ranges@.take(k + 1).drop_last() =~= ranges@.take(k as int));
            assert(ranges@.take(k + 1).last() == ranges@[k as int]);
            assert(out@ =~= before + clip(units@, ranges@[k as int]));
        }
        k = k + 1;
    }
    assert(ranges@.take(k as int) =~= ranges@);
    out
}

/// The characters of `line` that `char_pos` picks, as one string with
/// nothing between the picks of neighbouring ranges.
pub fn extract_chars(line: &str, char_pos: &[Range<usize>]) -> (res: String)
    ensures
        res@ == select(line@, char_pos@),
{
    let chars = chars_of(line);
    let picked = select_units(chars.as_slice(), char_pos);
    string_of(picked.as_slice())
}

/// The bytes of `line` that `byte_pos` picks.
pub fn select_bytes(line: &str, byte_pos: &[Range<usize>]) -> (out: Vec<u8>)
    ensures
        out@ == select(line.spec_bytes(), byte_pos@),
{
    select_units(line.as_bytes(), byte_pos)
}

/// The bytes of `line` that `byte_pos` picks, decoded leniently: where the
/// picked bytes are no well-formed UTF-8, the replacement character appears.
pub fn extract_bytes(line: &str, byte_pos: &[Range<usize>]) -> (res: String)
    ensures
        res@ == utf8_lossy(select(line.spec_bytes(), byte_pos@)),
        valid_utf8(select(line.spec_bytes(), byte_pos@)) ==> res@ == decode_utf8(
            select(line.spec_bytes(), byte_pos@),
        ),
{
    let picked = select_bytes(line, byte_pos);
    decode_lossy(picked.as_slice())
}

/// A record of a delimited file, as the `csv` crate holds it.
#[verifier::external_type_specification]
#[verifier::external_body]
pub struct ExStringRecord(csv::StringRecord);

/// The fields of a record, in order, each as its text.
pub uninterp spec fn record_fields(record: StringRecord) -> Seq<Seq<char>>;

/// `StringRecord::len`: the number of fields in the record.
pub assume_specification[ StringRecord::len ](record: &StringRecord) -> (n: usize)
    ensures
        n == record_fields(*record).len(),
;

/// `StringRecord::get`: the field at index `i`, or nothing where the record
/// has no such field.
pub assume_specification[ StringRecord::get ](record: &StringRecord, i: usize) -> (field: Option<
    &str,
>)
    ensures
        i < record_fields(*record).len() ==> field is Some && field->Some_0@ == record_fields(
            *record,
        )[i as int],
        i >= record_fields(*record).len() ==> field is None,
;

/// The fields of `record` that `field_pos` picks, each copied as it
/// stands. A record with fewer fields than a range asks for yields those that
/// exist.
pub fn extract_fields(record: &StringRecord, field_pos: &[Range<usize>]) -> (res: Vec<String>)
    ensures
        texts(res@) == select(record_fields(*record), field_pos@),
{
    let count: usize = record.len();
    let mut out: Vec<String> = Vec::new();
    let mut k: usize = 0;
    while k < field_pos.len()
        invariant
            0 <= k <= field_pos@.len(),
            count == record_fields(*record).len(),
            texts(out@) == select(record_fields(*record), field_pos@.take(k as int)),
        decreases field_pos@.len() - k,
    {
        let start: usize = field_pos[k].start;
        let end: usize = if field_pos[k].end <= count {
            field_pos[k].end
        } else {
            count
        };
        let ghost before = texts(out@);
        if start < end {
            let mut i: usize = start;
            while i < end
                invariant
                    start <= i <= end <= count,
                    count == record_fields(*record).len(),
                    texts(out@) == before + record_fields(*record).subrange(
                        start as int,
                        i as int,
                    ),
                decreases end - i,
            {
                let ghost sofar = texts(out@);
                match record.get(i) {
                    Some(field) => {
                        out.push(String::from_str(field));
                    },
                    None => {},
                }
                assert(texts(out@) =~= sofar.push(record_fields(*record)[i as int]));
                assert(texts(out@) =~= before + record_fields(*record).subrange(
                    start as int,
                    i + 1,
                ));
                i = i + 1;
            }
        }
        proof {
            assert(field_pos@.take(k + 1).drop_last() =~= field_pos@.take(k as int));
            assert(field_pos@.take(k + 1).last() == field_pos@[k as int]);
            assert(texts(out@) =~= before + clip(record_fields(*record), field_pos@[k as int]));
        }
        k = k + 1;
    }
    assert(field_pos@.take(k as int) =~= field_pos@);
    out
}

/// What to cut out of each line, and by which unit.
#[derive(Debug)]
pub enum Extract {
    /// Fields of a delimited record.
    Fields(PositionList),
    /// Bytes of the line.
    Bytes(PositionList),
    /// Characters of the line.
    Chars(PositionList),
}

} // verus!
