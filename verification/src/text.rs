//! Strings as sequences of characters: conversions between `str`, `String`
//! and `Vec<char>`, and splitting at a separator.

use vstd::prelude::*;
use vstd::utf8::{decode_utf8, valid_utf8};

verus! {

/// The characters of `s`, in order.
pub fn chars_of(s: &str) -> (v: Vec<char>)
    ensures
        v@ == s@,
{
    let mut v: Vec<char> = Vec::new();
    for c in it: s.chars()
        invariant
            it.seq() == s@,
            v@ == s@.take(it.index() as int),
    {
        v.push(c);
    }
    assert(v@ =~= s@);
    v
}

/// `String::push`: appends one character to the end of the string.
#[verifier::external_body]
pub(crate) fn push_char(s: &mut String, c: char)
    ensures
        final(s)@ == old(s)@.push(c),
{
    s.push(c)
}

/// Appends the characters of `chars` to `s`.
pub fn push_chars(s: &mut String, chars: &[char])
    ensures
        final(s)@ == old(s)@ + chars@,
{
    let mut i: usize = 0;
    while i < chars.len()
        invariant
            0 <= i <= chars@.len(),
            s@ == old(s)@ + chars@.take(i as int),
        decreases chars@.len() - i,
    {
        push_char(s, chars[i]);
        assert(s@ =~= old(s)@ + chars@.take(i + 1));
        i = i + 1;
    }
    assert(chars@.take(i as int) =~= chars@);
}

/// The string made of the characters of `chars`.
pub fn string_of(chars: &[char]) -> (s: String)
    ensures
        s@ == chars@,
{
    let mut s = String::new();
    push_chars(&mut s, chars);
    assert(s@ =~= chars@);
    s
}

/// The pieces of `s` between occurrences of `sep`. There is always at least
/// one piece; two separators in a row, or one at either end, give an empty
/// piece.
pub open spec fn split_on(s: Seq<char>, sep: char) -> Seq<Seq<char>>
    decreases s.len(),
{
    if s.len() == 0 {
        seq![Seq::<char>::empty()]
    } else {
        let before = split_on(s.drop_last(), sep);
        if s.last() == sep {
            before.push(Seq::<char>::empty())
        } else {
            before.drop_last().push(before.last().push(s.last()))
        }
    }
}

/// The pieces put together again, with `sep` between neighbours.
pub open spec fn join_with(pieces: Seq<Seq<char>>, sep: char) -> Seq<char>
    decreases pieces.len(),
{
    if pieces.len() == 0 {
        Seq::<char>::empty()
    } else if pieces.len() == 1 {
        pieces[0]
    } else {
        join_with(pieces.drop_last(), sep).push(sep) + pieces.last()
    }
}

/// Splitting loses nothing: there is at least one piece, no piece holds the
/// separator, and joining the pieces gives the text back.
pub proof fn split_then_join(s: Seq<char>, sep: char)
    ensures
        split_on(s, sep).len() >= 1,
        forall|k: int, i: int|
            0 <= k < split_on(s, sep).len() && 0 <= i < split_on(s, sep)[k].len()
                ==> #[trigger] split_on(s, sep)[k][i] != sep,
        join_with(split_on(s, sep), sep) == s,
    decreases s.len(),
{
    let pieces = split_on(s, sep);
    if s.len() == 0 {
        assert(join_with(pieces, sep) =~= s);
    } else {
        let head = s.drop_last();
        let before = split_on(head, sep);
        split_then_join(head, sep);
        if s.last() == sep {
            assert(pieces.drop_last() =~= before);
            assert(join_with(pieces, sep) =~= s);
        } else {
            let grown = before.last().push(s.last());
            assert(pieces.last() == grown);
            if before.len() == 1 {
                assert(join_with(before, sep) == before[0]);
                assert(pieces[0] == grown);
                assert(join_with(pieces, sep) =~= s);
            } else {
                assert(pieces.drop_last() =~= before.drop_last());
                let joined = join_with(before.drop_last(), sep).push(sep);
                assert(join_with(before, sep) == joined + before.last());
                assert(join_with(pieces, sep) == joined + grown);
                assert(joined + grown =~= (joined + before.last()).push(s.last()));
                assert(head.push(s.last()) =~= s);
            }
            assert forall|k: int, i: int|
                0 <= k < pieces.len() && 0 <= i < pieces[k].len() implies #[trigger] pieces[k][i]
                != sep by {
                if k < pieces.len() - 1 {
                    assert(pieces[k] == before[k]);
                } else if i < before.last().len() {
                    assert(pieces[k][i] == before[k][i]);
                }
            }
        }
    }
}

/// The contents of each vector of `rows`.
pub open spec fn views<T>(rows: Seq<Vec<T>>) -> Seq<Seq<T>> {
    Seq::new(rows.len(), |k: int| rows[k]@)
}

/// Splits `text` at every `sep`.
pub fn split(text: &[char], sep: char) -> (pieces: Vec<Vec<char>>)
    ensures
        views(pieces@) == split_on(text@, sep),
{
    let mut pieces: Vec<Vec<char>> = Vec::new();
    let mut current: Vec<char> = Vec::new();
    let mut i: usize = 0;
    while i < text.len()
        invariant
            0 <= i <= text@.len(),
            views(pieces@).push(current@) == split_on(text@.take(i as int), sep),
        decreases text@.len() - i,
    {
        let c: char = text[i];
        let ghost before = split_on(text@.take(i as int), sep);
        proof {
            let next = text@.take(i + 1);
            assert(next.drop_last() =~= text@.take(i as int));
            assert(next.last() == c);
            assert(before.drop_last() =~= views(pieces@));
            assert(before.last() == current@);
        }
        if c == sep {
            pieces.push(current);
            current = Vec::new();
            assert(views(pieces@) =~= before);
        } else {
            current.push(c);
        }
        assert(views(pieces@).push(current@) =~= split_on(text@.take(i + 1), sep));
        i = i + 1;
    }
    proof {
        assert(text@.take(i as int) =~= text@);
    }
    let ghost whole = views(pieces@).push(current@);
    pieces.push(current);
    assert(views(pieces@) =~= whole);
    pieces
}

/// `c` is white space: a character with the Unicode property White_Space.
pub open spec fn is_space(c: char) -> bool {
    let u = c as u32;
    ||| 0x09 <= u <= 0x0D
    ||| u == 0x20
    ||| u == 0x85
    ||| u == 0xA0
    ||| u == 0x1680
    ||| 0x2000 <= u <= 0x200A
    ||| u == 0x2028
    ||| u == 0x2029
    ||| u == 0x202F
    ||| u == 0x205F
    ||| u == 0x3000
}

/// Whether `c` is white space.
pub fn is_whitespace(c: char) -> (b: bool)
    ensures
        b == is_space(c),
{
    let u: u32 = c as u32;
    (0x09 <= u && u <= 0x0D) || u == 0x20 || u == 0x85 || u == 0xA0 || u == 0x1680 || (0x2000 <= u
        && u <= 0x200A) || u == 0x2028 || u == 0x2029 || u == 0x202F || u == 0x205F || u == 0x3000
}

/// `count` blanks.
pub open spec fn blanks(count: nat) -> Seq<char> {
    Seq::new(count, |i: int| ' ')
}

/// `s` moved to the right edge of a column `width` wide, by blanks before
/// it. A text wider than the column stays as it is.
pub open spec fn right_aligned(s: Seq<char>, width: nat) -> Seq<char> {
    if s.len() >= width {
        s
    } else {
        blanks((width - s.len()) as nat) + s
    }
}

/// `s` at the left edge of a column `width` wide, with blanks after it. A
/// text wider than the column stays as it is.
pub open spec fn left_aligned(s: Seq<char>, width: nat) -> Seq<char> {
    if s.len() >= width {
        s
    } else {
        s + blanks((width - s.len()) as nat)
    }
}

/// Appends `count` blanks to `out`.
pub fn push_blanks(out: &mut Vec<char>, count: usize)
    ensures
        final(out)@ == old(out)@ + blanks(count as nat),
{
    let mut i: usize = 0;
    while i < count
        invariant
            0 <= i <= count,
            out@ == old(out)@ + blanks(i as nat),
        decreases count - i,
    {
        out.push(' ');
        assert(out@ =~= old(out)@ + blanks((i + 1) as nat));
        i = i + 1;
    }
}

/// Appends the elements of `more` to `out`.
pub fn push_all(out: &mut Vec<char>, more: &[char])
    ensures
        final(out)@ == old(out)@ + more@,
{
    let mut i: usize = 0;
    while i < more.len()
        invariant
            0 <= i <= more@.len(),
            out@ == old(out)@ + more@.take(i as int),
        decreases more@.len() - i,
    {
        out.push(more[i]);
        assert(out@ =~= old(out)@ + more@.take(i + 1));
        i = i + 1;
    }
    assert(more@.take(i as int) =~= more@);
}

/// `s` moved to the right edge of a column `width` wide.
pub fn align_right(s: &[char], width: usize) -> (out: Vec<char>)
    ensures
        out@ == right_aligned(s@, width as nat),
{
    let mut out: Vec<char> = Vec::new();
    if s.len() < width {
        push_blanks(&mut out, width - s.len());
    }
    push_all(&mut out, s);
    assert(out@ =~= right_aligned(s@, width as nat));
    out
}

/// `s` at the left edge of a column `width` wide.
pub fn align_left(s: &[char], width: usize) -> (out: Vec<char>)
    ensures
        out@ == left_aligned(s@, width as nat),
{
    let mut out: Vec<char> = Vec::new();
    push_all(&mut out, s);
    if s.len() < width {
        push_blanks(&mut out, width - s.len());
    }
    assert(out@ =~= left_aligned(s@, width as nat));
    out
}

/// What `String::from_utf8_lossy` makes of a byte sequence: the text that
/// the bytes encode, with each ill-formed part replaced by U+FFFD.
pub uninterp spec fn utf8_lossy(bytes: Seq<u8>) -> Seq<char>;

/// `String::from_utf8_lossy`: decodes `bytes` as UTF-8, putting the
/// replacement character in place of what is ill-formed. Well-formed input
/// is decoded as it stands.
#[verifier::external_body]
pub(crate) fn decode_lossy(bytes: &[u8]) -> (s: String)
    ensures
        s@ == utf8_lossy(bytes@),
        valid_utf8(bytes@) ==> s@ == decode_utf8(bytes@),
{
    String::from_utf8_lossy(bytes).into_owned()
}

/// The text of each string of `rows`.
pub open spec fn texts(rows: Seq<String>) -> Seq<Seq<char>> {
    Seq::new(rows.len(), |k: int| rows[k]@)
}

/// The lines of `data` that a line feed has ended, each with its line feed.
pub open spec fn closed_lines(data: Seq<u8>) -> Seq<Seq<u8>>
    decreases data.len(),
{
    if data.len() == 0 {
        Seq::empty()
    } else if data.last() == 10u8 {
        closed_lines(data.drop_last()).push(open_line(data.drop_last()).push(10u8))
    } else {
        closed_lines(data.drop_last())
    }
}

/// What follows the last line feed of `data`.
pub open spec fn open_line(data: Seq<u8>) -> Seq<u8>
    decreases data.len(),
{
    if data.len() == 0 {
        Seq::empty()
    } else if data.last() == 10u8 {
        Seq::empty()
    } else {
        open_line(data.drop_last()).push(data.last())
    }
}

/// The lines of `data`, as reading up to each line feed yields them: every
/// line but the last ends with its line feed, and nothing is left out.
pub open spec fn lines_of(data: Seq<u8>) -> Seq<Seq<u8>> {
    if open_line(data).len() > 0 {
        closed_lines(data).push(open_line(data))
    } else {
        closed_lines(data)
    }
}

/// Cuts `data` into its lines.
pub fn split_lines(data: &[u8]) -> (lines: Vec<Vec<u8>>)
    ensures
        views(lines@) == lines_of(data@),
{
    let mut lines: Vec<Vec<u8>> = Vec::new();
    let mut current: Vec<u8> = Vec::new();
    let mut i: usize = 0;
    while i < data.len()
        invariant
            0 <= i <= data@.len(),
            views(lines@) == closed_lines(data@.take(i as int)),
            current@ == open_line(data@.take(i as int)),
        decreases data@.len() - i,
    {
        let b: u8 = data[i];
        proof {
            let next = data@.take(i + 1);
            assert(next.drop_last() =~= data@.take(i as int));
            assert(next.last() == b);
        }
        current.push(b);
        if b == 10u8 {
            let ghost done = views(lines@);
            let ghost line = current@;
            lines.push(current);
            current = Vec::new();
            assert(views(lines@) =~= done.push(line));
        }
        i = i + 1;
    }
    assert(data@.take(i as int) =~= data@);
    if current.len() > 0 {
        let ghost done = views(lines@);
        let ghost line = current@;
        lines.push(current);
        assert(views(lines@) =~= done.push(line));
    }
    lines
}

/// Lines make up the data: put end to end they are the data again, none is
/// empty, and a line feed stands at the end of a line or nowhere in it.
pub proof fn lines_make_up_the_data(data: Seq<u8>)
    ensures
        closed_lines(data).flatten() + open_line(data) == data,
        forall|k: int|
            0 <= k < closed_lines(data).len() ==> (#[trigger] closed_lines(data)[k]).len() > 0
                && closed_lines(data)[k].last() == 10u8,
        forall|j: int| 0 <= j < open_line(data).len() ==> open_line(data)[j] != 10u8,
    decreases data.len(),
{
    if data.len() == 0 {
        assert(closed_lines(data).flatten() + open_line(data) =~= data);
    } else {
        let head = data.drop_last();
        lines_make_up_the_data(head);
        let joined = closed_lines(head).flatten();
        assert(joined + open_line(head) == head);
        assert(head.push(data.last()) =~= data);
        if data.last() == 10u8 {
            let line = open_line(head).push(10u8);
            closed_lines(head).lemma_flatten_push(line);
            assert(closed_lines(data).flatten() == joined + line);
            assert(joined + line =~= (joined + open_line(head)).push(10u8));
            assert(closed_lines(data).flatten() + open_line(data) =~= data);
        } else {
            assert(joined + open_line(data) =~= (joined + open_line(head)).push(data.last()));
        }
    }
}

/// `s` in the middle of a column `width` wide, with blanks on both sides
/// and the odd blank on the right. A text wider than the column stays as it
/// is.
pub open spec fn centered(s: Seq<char>, width: nat) -> Seq<char> {
    if s.len() >= width {
        s
    } else {
        blanks(((width - s.len()) / 2) as nat) + s + blanks(
            ((width - s.len()) - (width - s.len()) / 2) as nat,
        )
    }
}

/// `s` in the middle of a column `width` wide.
pub fn align_center(s: &[char], width: usize) -> (out: Vec<char>)
    ensures
        out@ == centered(s@, width as nat),
{
    let mut out: Vec<char> = Vec::new();
    if s.len() < width {
        let pad: usize = width - s.len();
        push_blanks(&mut out, pad / 2);
        push_all(&mut out, s);
        push_blanks(&mut out, pad - pad / 2);
    } else {
        push_all(&mut out, s);
    }
    assert(out@ =~= centered(s@, width as nat));
    out
}

} // verus!
