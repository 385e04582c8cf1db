//! What holds of every selection and of every run.

use crate::cutr::config::{Config, Unit};
use crate::cutr::driver::{
    line_output, next_request, next_state, open_diagnostic, pending, written, Driver, Event,
    Request, Written,
};
use crate::cutr::extract::{clip, select};
use crate::text::utf8_lossy;
use std::ops::Range;
use vstd::prelude::*;
use vstd::utf8::{
    decode_utf8, encode_utf8, encode_utf8_decode_utf8, encode_utf8_valid_utf8, is_ascii_chars,
    is_ascii_chars_encode_utf8, valid_utf8,
};

verus! {

/// A range picks at most as many units as it has positions, and none where
/// it starts at or beyond the end of the input: nothing is padded.
pub proof fn clip_is_bounded<T>(units: Seq<T>, r: Range<usize>)
    ensures
        clip(units, r).len() <= units.len(),
        r.start < r.end ==> clip(units, r).len() <= r.end - r.start,
        r.start >= units.len() ==> clip(units, r) == Seq::<T>::empty(),
        r.start < r.end <= units.len() ==> clip(units, r) == units.subrange(
            r.start as int,
            r.end as int,
        ),
{
}

/// Selecting by two lists one after the other is selecting by the two lists
/// joined: each range contributes on its own, in the order of the list.
pub proof fn select_distributes<T>(units: Seq<T>, a: Seq<Range<usize>>, b: Seq<Range<usize>>)
    ensures
        select(units, a + b) == select(units, a) + select(units, b),
    decreases b.len(),
{
    if b.len() == 0 {
        assert(a + b =~= a);
        assert(select(units, a) + select(units, b) =~= select(units, a));
    } else {
        select_distributes(units, a, b.drop_last());
        assert((a + b).drop_last() =~= a + b.drop_last());
        assert((a + b).last() == b.last());
        assert(select(units, a + b) =~= select(units, a) + select(units, b));
    }
}

/// A list of one range picks what the range picks.
pub proof fn select_one<T>(units: Seq<T>, r: Range<usize>)
    ensures
        select(units, seq![r]) == clip(units, r),
{
    let one = seq![r];
    assert(one.drop_last() =~= Seq::<Range<usize>>::empty());
    assert(one.last() == r);
    assert(select(units, one.drop_last()) =~= Seq::<T>::empty());
    assert(select(units, one) =~= clip(units, r));
}

/// Whatever is selected stands in the input: every unit of the output is a
/// unit of the input.
pub proof fn select_takes_from_input<T>(units: Seq<T>, ranges: Seq<Range<usize>>, k: int)
    requires
        0 <= k < select(units, ranges).len(),
    ensures
        units.contains(select(units, ranges)[k]),
    decreases ranges.len(),
{
    if ranges.len() > 0 {
        let head = select(units, ranges.drop_last());
        let r = ranges.last();
        if k < head.len() {
            select_takes_from_input(units, ranges.drop_last(), k);
        } else {
            let j = k - head.len();
            assert(select(units, ranges)[k] == clip(units, r)[j]);
            assert(clip(units, r)[j] == units[r.start + j]);
        }
    }
}

/// An empty input yields an empty output, whatever the list.
pub proof fn select_from_nothing<T>(ranges: Seq<Range<usize>>)
    ensures
        select(Seq::<T>::empty(), ranges) == Seq::<T>::empty(),
    decreases ranges.len(),
{
    if ranges.len() > 0 {
        select_from_nothing::<T>(ranges.drop_last());
        assert(select(Seq::<T>::empty(), ranges) =~= Seq::<T>::empty());
    }
}

/// Selection has no memory: two outputs for the same input and the same
/// list are the same output, for characters, bytes and fields alike.
pub proof fn selecting_twice_gives_the_same<T>(
    units: Seq<T>,
    ranges: Seq<Range<usize>>,
    first: Seq<T>,
    second: Seq<T>,
)
    requires
        first == select(units, ranges),
        second == select(units, ranges),
    ensures
        first == second,
{
}

/// Decoding picked bytes has no memory either: two outputs of the byte
/// extractor for the same line and list are the same text.
pub proof fn byte_extraction_twice_gives_the_same(
    bytes: Seq<u8>,
    ranges: Seq<Range<usize>>,
    first: Seq<char>,
    second: Seq<char>,
)
    requires
        first == utf8_lossy(select(bytes, ranges)),
        second == utf8_lossy(select(bytes, ranges)),
    ensures
        first == second,
{
}

/// A line or record that is read leaves the run where it was: what is
/// written for it depends on the settings and on it alone, so the same line
/// read again gives the same output.
pub proof fn reading_keeps_the_state(config: &Config, state: Driver, event: Event)
    requires
        event is Line || event is Record,
    ensures
        next_state(config, state, event) == state,
        next_request(config, state, event) == pending(config, state),
        written(config, next_state(config, state, event), event) == written(config, state, event),
        forall|other: Driver|
            pending(config, other) == pending(config, state) ==> written(config, other, event)
                == written(config, state, event),
{
}

/// A file that cannot be opened does not end the run. Its diagnostic names
/// the file and the reason; the run goes on to the next file, of which every
/// line and record is then extracted as if nothing had failed; and after the
/// last file the run finishes.
pub proof fn failed_open_is_passed_over(
    config: &Config,
    i: usize,
    reason: &str,
    line: &str,
    record: &csv::StringRecord,
)
    requires
        i < config.files@.len(),
    ensures
        ({
            let waiting = Driver { file: i, reading: false };
            let after = next_state(config, waiting, Event::OpenFailed(reason));
            let opened = next_state(config, after, Event::Opened);
            &&& written(config, waiting, Event::OpenFailed(reason)) == Written::Diagnostic(
                open_diagnostic(config.files@[i as int]@, reason@),
            )
            &&& after == Driver { file: (i + 1) as usize, reading: false }
            &&& next_request(config, waiting, Event::OpenFailed(reason)) == pending(config, after)
            &&& i + 1 < config.files@.len() ==> {
                &&& next_request(config, waiting, Event::OpenFailed(reason)) == Request::Open(
                    (i + 1) as usize,
                )
                &&& opened == Driver { file: (i + 1) as usize, reading: true }
                &&& config.extract.unit() != Unit::Fields ==> written(
                    config,
                    opened,
                    Event::Line(line),
                ) == line_output(&config.extract, line@) && written(
                    config,
                    opened,
                    Event::Line(line),
                ) is Line
                &&& config.extract.unit() == Unit::Fields ==> written(
                    config,
                    opened,
                    Event::Record(record),
                ) == Written::Record(
                    select(crate::cutr::extract::record_fields(*record), config.extract.ranges()),
                )
            }
            &&& i + 1 == config.files@.len() ==> next_request(
                config,
                waiting,
                Event::OpenFailed(reason),
            ) == Request::Finish
        }),
{
    assert(config.files.len() == config.files@.len());
}

/// A file that cannot be read on does not end the run either. Whether
/// lines or records are read, the diagnostic names the file and the reason;
/// the rest of the file is left; the run goes on to the next file, of which
/// every line and record is then extracted as if nothing had failed; and
/// after the last file the run finishes.
pub proof fn failed_read_is_passed_over(
    config: &Config,
    i: usize,
    reason: &str,
    line: &str,
    record: &csv::StringRecord,
)
    requires
        i < config.files@.len(),
    ensures
        ({
            let reading = Driver { file: i, reading: true };
            let after = next_state(config, reading, Event::ReadFailed(reason));
            let opened = next_state(config, after, Event::Opened);
            &&& written(config, reading, Event::ReadFailed(reason)) == Written::Diagnostic(
                open_diagnostic(config.files@[i as int]@, reason@),
            )
            &&& after == Driver { file: (i + 1) as usize, reading: false }
            &&& next_request(config, reading, Event::ReadFailed(reason)) == pending(config, after)
            &&& written(config, after, Event::Line(line)) == Written::Nothing
            &&& written(config, after, Event::Record(record)) == Written::Nothing
            &&& next_state(config, after, Event::Line(line)) == after
            &&& next_state(config, after, Event::Record(record)) == after
            &&& i + 1 < config.files@.len() ==> {
                &&& next_request(config, reading, Event::ReadFailed(reason)) == Request::Open(
                    (i + 1) as usize,
                )
                &&& opened == Driver { file: (i + 1) as usize, reading: true }
                &&& config.extract.unit() != Unit::Fields ==> written(
                    config,
                    opened,
                    Event::Line(line),
                ) == line_output(&config.extract, line@) && written(
                    config,
                    opened,
                    Event::Line(line),
                ) is Line
                &&& config.extract.unit() == Unit::Fields ==> written(
                    config,
                    opened,
                    Event::Record(record),
                ) == Written::Record(
                    select(crate::cutr::extract::record_fields(*record), config.extract.ranges()),
                )
            }
            &&& i + 1 == config.files@.len() ==> next_request(
                config,
                reading,
                Event::ReadFailed(reason),
            ) == Request::Finish
        }),
{
    assert(config.files.len() == config.files@.len());
}

/// No event ends a run before its time: the caller is told to stop only
/// when every file has been dealt with, and until then there is always a
/// file to open or to read.
pub proof fn the_run_stops_only_at_the_end(config: &Config, state: Driver, event: Event)
    ensures
        next_request(config, state, event) == Request::Finish <==> next_state(
            config,
            state,
            event,
        ).file >= config.files@.len(),
        pending(config, state) == Request::Finish <==> state.file >= config.files@.len(),
{
}

/// Files are taken in the order given: the file in hand never goes back,
/// and moves on by one at most with each event.
pub proof fn files_go_in_order(config: &Config, state: Driver, event: Event)
    requires
        state.file <= config.files@.len(),
    ensures
        state.file <= next_state(config, state, event).file <= config.files@.len(),
        next_state(config, state, event).file <= state.file + 1,
{
    assert(config.files.len() == config.files@.len());
}

/// On a line of ASCII, bytes are characters: the bytes that a list picks
/// are the encoding of the characters that it picks.
pub proof fn ascii_bytes_follow_chars(line: Seq<char>, ranges: Seq<Range<usize>>)
    requires
        is_ascii_chars(line),
    ensures
        is_ascii_chars(select(line, ranges)),
        select(encode_utf8(line), ranges) == encode_utf8(select(line, ranges)),
    decreases ranges.len(),
{
    let bytes = encode_utf8(line);
    is_ascii_chars_encode_utf8(line);
    if ranges.len() == 0 {
        is_ascii_chars_encode_utf8(select(line, ranges));
        assert(select(bytes, ranges) =~= encode_utf8(select(line, ranges)));
    } else {
        let r = ranges.last();
        let head = select(line, ranges.drop_last());
        let tail = clip(line, r);
        ascii_bytes_follow_chars(line, ranges.drop_last());
        assert forall|i: int| 0 <= i < tail.len() implies '\0' <= #[trigger] tail[i]
            <= '\u{7f}' by {
            assert(tail[i] == line[r.start + i]);
        }
        let whole = head + tail;
        assert forall|i: int| 0 <= i < whole.len() implies '\0' <= #[trigger] whole[i]
            <= '\u{7f}' by {
            if i < head.len() {
                assert(whole[i] == head[i]);
            } else {
                assert(whole[i] == tail[i - head.len()]);
            }
        }
        is_ascii_chars_encode_utf8(head);
        is_ascii_chars_encode_utf8(tail);
        is_ascii_chars_encode_utf8(whole);
        let picked = select(bytes, ranges.drop_last()) + clip(bytes, r);
        assert(clip(bytes, r).len() == tail.len());
        assert forall|i: int| 0 <= i < whole.len() implies picked[i] == encode_utf8(whole)[i] by {
            if i < head.len() {
                assert(picked[i] == encode_utf8(head)[i]);
                assert(whole[i] == head[i]);
            } else {
                let j = i - head.len();
                assert(picked[i] == clip(bytes, r)[j]);
                assert(clip(bytes, r)[j] == bytes[r.start + j]);
                assert(whole[i] == tail[j]);
                assert(tail[j] == line[r.start + j]);
            }
        }
        assert(picked =~= encode_utf8(whole));
    }
}

/// On a line of ASCII, the byte extractor and the character extractor agree:
/// the picked bytes are well-formed, and decode to the picked characters.
pub proof fn ascii_bytes_decode_to_chars(line: Seq<char>, ranges: Seq<Range<usize>>)
    requires
        is_ascii_chars(line),
    ensures
        valid_utf8(select(encode_utf8(line), ranges)),
        decode_utf8(select(encode_utf8(line), ranges)) == select(line, ranges),
{
    ascii_bytes_follow_chars(line, ranges);
    encode_utf8_valid_utf8(select(line, ranges));
    encode_utf8_decode_utf8(select(line, ranges));
}

/// The list that spans the whole line gives the line back, byte for byte.
pub proof fn whole_line_of_bytes_decodes(line: Seq<char>, end: usize)
    requires
        end >= encode_utf8(line).len(),
        end > 0,
    ensures
        select(encode_utf8(line), seq![0..end]) == encode_utf8(line),
        valid_utf8(select(encode_utf8(line), seq![0..end])),
        decode_utf8(select(encode_utf8(line), seq![0..end])) == line,
{
    let bytes = encode_utf8(line);
    let r: Range<usize> = 0..end;
    select_one(bytes, r);
    assert(clip(bytes, r) =~= bytes);
    encode_utf8_valid_utf8(line);
    encode_utf8_decode_utf8(line);
}

} // verus!
