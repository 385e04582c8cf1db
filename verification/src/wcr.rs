//! Counting the lines, words, characters and bytes of a text.

use crate::decimal::{decimal_repr, render};
use crate::text::{align_right, chars_of, is_space, is_whitespace, push_chars, right_aligned};
use vstd::prelude::*;
use vstd::string::StringExecFns;
use vstd::string::StringSliceAdditionalSpecFns;

verus! {

/// The counts of one text.
#[derive(Clone, Copy, Debug, PartialEq, Eq, Structural)]
pub struct FileInfo {
    pub num_lines: usize,
    pub num_words: usize,
    pub num_bytes: usize,
    pub num_chars: usize,
}

/// A word starts at `i`: a character that is no white space, at the start
/// of the text or after white space.
pub open spec fn starts_word(s: Seq<char>, i: int) -> bool
    recommends
        0 <= i < s.len(),
{
    !is_space(s[i]) && (i == 0 || is_space(s[i - 1]))
}

/// The number of words in `s`: of maximal runs of characters that are no
/// white space.
pub open spec fn word_count(s: Seq<char>) -> nat
    decreases s.len(),
{
    if s.len() == 0 {
        0
    } else {
        word_count(s.drop_last()) + if starts_word(s, s.len() - 1) {
            1nat
        } else {
            0nat
        }
    }
}

/// How often the line feed occurs in `s`.
pub open spec fn newline_count(s: Seq<char>) -> nat
    decreases s.len(),
{
    if s.len() == 0 {
        0
    } else {
        newline_count(s.drop_last()) + if s.last() == '\n' {
            1nat
        } else {
            0nat
        }
    }
}

/// The number of lines in `s`: each line feed ends a line, and what follows
/// the last line feed is a line too unless it is empty.
pub open spec fn line_count(s: Seq<char>) -> nat {
    newline_count(s) + if s.len() > 0 && s.last() != '\n' {
        1nat
    } else {
        0nat
    }
}

/// Neither count exceeds the number of characters.
pub proof fn counts_are_bounded(s: Seq<char>)
    ensures
        word_count(s) <= s.len(),
        newline_count(s) <= s.len(),
        line_count(s) <= s.len(),
    decreases s.len(),
{
    if s.len() > 0 {
        counts_are_bounded(s.drop_last());
    }
}

/// The counts of `text`.
pub fn count(text: &str) -> (info: FileInfo)
    ensures
        info.num_lines == line_count(text@),
        info.num_words == word_count(text@),
        info.num_chars == text@.len(),
        info.num_bytes == text.spec_bytes().len(),
{
    let chars = chars_of(text);
    let mut newlines: usize = 0;
    let mut words: usize = 0;
    let mut after_space: bool = true;
    let mut i: usize = 0;
    while i < chars.len()
        invariant
            0 <= i <= chars@.len(),
            newlines == newline_count(chars@.take(i as int)),
            words == word_count(chars@.take(i as int)),
            after_space == (i == 0 || is_space(chars@[i - 1])),
        decreases chars@.len() - i,
    {
        let c: char = chars[i];
        proof {
            let next = chars@.take(i + 1);
            assert(next.drop_last() =~= chars@.take(i as int));
            assert(next.last() == c);
            counts_are_bounded(chars@.take(i as int));
            if i > 0 {
                assert(next[i - 1] == chars@[i - 1]);
            }
        }
        let space: bool = is_whitespace(c);
        if !space && after_space {
            words = words + 1;
        }
        if c == '\n' {
            newlines = newlines + 1;
        }
        after_space = space;
        i = i + 1;
    }
    proof {
        assert(chars@.take(i as int) =~= chars@);
        counts_are_bounded(chars@);
    }
    let open_line: bool = chars.len() > 0 && chars[chars.len() - 1] != '\n';
    let lines: usize = if open_line {
        newlines + 1
    } else {
        newlines
    };
    FileInfo { num_lines: lines, num_words: words, num_bytes: text.as_bytes().len(), num_chars: chars.len() }
}

impl FileInfo {
    /// The counts of nothing.
    pub fn zero() -> (info: FileInfo)
        ensures
            info == (FileInfo { num_lines: 0, num_words: 0, num_bytes: 0, num_chars: 0 }),
    {
        FileInfo { num_lines: 0, num_words: 0, num_bytes: 0, num_chars: 0 }
    }

    /// The sum, count by count.
    pub open spec fn sum(self, other: FileInfo) -> (int, int, int, int) {
        (
            self.num_lines + other.num_lines,
            self.num_words + other.num_words,
            self.num_bytes + other.num_bytes,
            self.num_chars + other.num_chars,
        )
    }

    /// The sum of two counts, count by count.
    pub fn plus(&self, other: &FileInfo) -> (total: FileInfo)
        requires
            self.num_lines + other.num_lines <= usize::MAX,
            self.num_words + other.num_words <= usize::MAX,
            self.num_bytes + other.num_bytes <= usize::MAX,
            self.num_chars + other.num_chars <= usize::MAX,
        ensures
            (total.num_lines as int, total.num_words as int, total.num_bytes as int, total.num_chars as int)
                == self.sum(*other),
    {
        FileInfo {
            num_lines: self.num_lines + other.num_lines,
            num_words: self.num_words + other.num_words,
            num_bytes: self.num_bytes + other.num_bytes,
            num_chars: self.num_chars + other.num_chars,
        }
    }
}

/// One column of the report: the number at the right edge of eight
/// places, or nothing where the column is not shown.
pub open spec fn field_text(value: nat, show: bool) -> Seq<char> {
    if show {
        right_aligned(decimal_repr(value), 8)
    } else {
        Seq::empty()
    }
}

/// One column of the report.
pub fn format_field(value: usize, show: bool) -> (s: String)
    ensures
        s@ == field_text(value as nat, show),
{
    let mut s = String::new();
    if show {
        let digits = render(value as u64);
        let cell = align_right(digits.as_slice(), 8);
        push_chars(&mut s, cell.as_slice());
    }
    assert(s@ =~= field_text(value as nat, show));
    s
}

/// The settings of one run.
#[derive(Debug)]
pub struct Config {
    /// The files to count, in order; `-` is the standard input.
    pub files: Vec<String>,
    /// Show the number of lines.
    pub lines: bool,
    /// Show the number of words.
    pub words: bool,
    /// Show the number of bytes.
    pub bytes: bool,
    /// Show the number of characters.
    pub chars: bool,
}

impl Config {
    /// Settings from the columns asked for. Where none is asked for, lines,
    /// words and bytes are shown.
    pub fn new(files: Vec<String>, lines: bool, words: bool, bytes: bool, chars: bool) -> (config:
        Config)
        ensures
            config.files == files,
            config.chars == chars,
            lines || words || bytes || chars ==> config.lines == lines && config.words == words
                && config.bytes == bytes,
            !(lines || words || bytes || chars) ==> config.lines && config.words && config.bytes,
    {
        if !lines && !words && !bytes && !chars {
            Config { files, lines: true, words: true, bytes: true, chars }
        } else {
            Config { files, lines, words, bytes, chars }
        }
    }
}

/// One line of the report: the columns shown, then the name after a blank.
/// Where bytes are shown they stand in place of characters, and the standard
/// input has no name.
pub open spec fn cols_text(config: &Config, info: FileInfo, filename: Seq<char>) -> Seq<char> {
    field_text(info.num_lines as nat, config.lines) + field_text(
        info.num_words as nat,
        config.words,
    ) + (if config.bytes {
        field_text(info.num_bytes as nat, config.bytes)
    } else {
        field_text(info.num_chars as nat, config.chars)
    }) + (if filename == seq!['-'] {
        Seq::<char>::empty()
    } else {
        seq![' '] + filename
    })
}

/// One line of the report.
pub fn format_cols(config: &Config, info: &FileInfo, filename: &str) -> (s: String)
    ensures
        s@ == cols_text(config, *info, filename@),
{
    let mut s = format_field(info.num_lines, config.lines);
    s.append(format_field(info.num_words, config.words).as_str());
    if config.bytes {
        s.append(format_field(info.num_bytes, config.bytes).as_str());
    } else {
        s.append(format_field(info.num_chars, config.chars).as_str());
    }
    let name = chars_of(filename);
    if !(name.len() == 1 && name[0] == '-') {
        crate::text::push_char(&mut s, ' ');
        s.append(filename);
    } else {
        assert(filename@ =~= seq!['-']);
    }
    assert(s@ =~= cols_text(config, *info, filename@));
    s
}

/// The sum of one count over all of `infos`.
pub open spec fn sum_of(infos: Seq<FileInfo>, pick: spec_fn(FileInfo) -> usize) -> nat
    decreases infos.len(),
{
    if infos.len() == 0 {
        0
    } else {
        sum_of(infos.drop_last(), pick) + pick(infos.last()) as nat
    }
}

/// A sum grows with every file.
pub proof fn sums_grow(infos: Seq<FileInfo>, pick: spec_fn(FileInfo) -> usize, k: int)
    requires
        0 <= k <= infos.len(),
    ensures
        sum_of(infos.take(k), pick) <= sum_of(infos, pick),
    decreases infos.len() - k,
{
    if k < infos.len() {
        sums_grow(infos, pick, k + 1);
        assert(infos.take(k + 1).drop_last() =~= infos.take(k));
    } else {
        assert(infos.take(k) =~= infos);
    }
}

/// The counts of all files together.
pub fn total(infos: &[FileInfo]) -> (sum: FileInfo)
    requires
        sum_of(infos@, |i: FileInfo| i.num_lines) <= usize::MAX,
        sum_of(infos@, |i: FileInfo| i.num_words) <= usize::MAX,
        sum_of(infos@, |i: FileInfo| i.num_bytes) <= usize::MAX,
        sum_of(infos@, |i: FileInfo| i.num_chars) <= usize::MAX,
    ensures
        sum.num_lines == sum_of(infos@, |i: FileInfo| i.num_lines),
        sum.num_words == sum_of(infos@, |i: FileInfo| i.num_words),
        sum.num_bytes == sum_of(infos@, |i: FileInfo| i.num_bytes),
        sum.num_chars == sum_of(infos@, |i: FileInfo| i.num_chars),
{
    let ghost lines = |i: FileInfo| i.num_lines;
    let ghost words = |i: FileInfo| i.num_words;
    let ghost bytes = |i: FileInfo| i.num_bytes;
    let ghost chars = |i: FileInfo| i.num_chars;
    let mut sum = FileInfo::zero();
    let mut k: usize = 0;
    while k < infos.len()
        invariant
            0 <= k <= infos@.len(),
            lines == |i: FileInfo| i.num_lines,
            words == |i: FileInfo| i.num_words,
            bytes == |i: FileInfo| i.num_bytes,
            chars == |i: FileInfo| i.num_chars,
            sum_of(infos@, lines) <= usize::MAX,
            sum_of(infos@, words) <= usize::MAX,
            sum_of(infos@, bytes) <= usize::MAX,
            sum_of(infos@, chars) <= usize::MAX,
            sum.num_lines == sum_of(infos@.take(k as int), lines),
            sum.num_words == sum_of(infos@.take(k as int), words),
            sum.num_bytes == sum_of(infos@.take(k as int), bytes),
            sum.num_chars == sum_of(infos@.take(k as int), chars),
        decreases infos@.len() - k,
    {
        proof {
            assert(infos@.take(k + 1).drop_last() =~= infos@.take(k as int));
            assert(infos@.take(k + 1).last() == infos@[k as int]);
            sums_grow(infos@, lines, k + 1);
            sums_grow(infos@, words, k + 1);
            sums_grow(infos@, bytes, k + 1);
            sums_grow(infos@, chars, k + 1);
        }
        sum = sum.plus(&infos[k]);
        k = k + 1;
    }
    assert(infos@.take(k as int) =~= infos@);
    sum
}

/// Counting line by line gives the counts of the whole: where a text ends
/// with a line feed, the lines and words of what follows add to its own.
pub proof fn counts_add_up(a: Seq<char>, b: Seq<char>)
    requires
        a.len() == 0 || a.last() == '\n',
    ensures
        newline_count(a + b) == newline_count(a) + newline_count(b),
        line_count(a + b) == line_count(a) + line_count(b),
        word_count(a + b) == word_count(a) + word_count(b),
    decreases b.len(),
{
    if b.len() == 0 {
        assert(a + b =~= a);
    } else {
        let whole = a + b;
        counts_add_up(a, b.drop_last());
        assert(whole.drop_last() =~= a + b.drop_last());
        assert(whole.last() == b.last());
        let i = whole.len() - 1;
        let j = b.len() - 1;
        assert(whole[i] == b[j]);
        if j > 0 {
            assert(whole[i - 1] == b[j - 1]);
        } else if a.len() > 0 {
            assert(whole[i - 1] == a.last());
        }
        assert(starts_word(whole, i) == starts_word(b, j));
    }
}

} // verus!
