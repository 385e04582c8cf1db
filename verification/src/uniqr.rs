//! Folding runs of equal lines into one.

use crate::decimal::{decimal_repr, render};
use crate::text::{
    align_right, chars_of, is_space, is_whitespace, push_char, push_chars, right_aligned, texts,
};
use vstd::prelude::*;
use vstd::string::StringExecFns;

verus! {

/// The settings of one run.
#[derive(Debug)]
pub struct Config {
    /// The file to read; `-` is the standard input.
    pub in_file: String,
    /// The file to write, or the standard output.
    pub out_file: Option<String>,
    /// Put the length of each run before its line.
    pub count: bool,
}

/// A line without its white space.
pub open spec fn squeezed(line: Seq<char>) -> Seq<char>
    decreases line.len(),
{
    if line.len() == 0 {
        Seq::empty()
    } else if is_space(line.last()) {
        squeezed(line.drop_last())
    } else {
        squeezed(line.drop_last()).push(line.last())
    }
}

/// Two lines count as equal when they differ in white space only.
pub open spec fn alike(a: Seq<char>, b: Seq<char>) -> bool {
    squeezed(a) == squeezed(b)
}

/// A run of lines: how many there are, and the first of them.
pub struct Run {
    pub count: nat,
    pub line: Seq<char>,
}

/// The runs of `lines`: a line that is like the line before it lengthens
/// the run of that line, any other line starts a run.
pub open spec fn runs(lines: Seq<Seq<char>>) -> Seq<Run>
    decreases lines.len(),
{
    if lines.len() == 0 {
        Seq::empty()
    } else if lines.len() == 1 {
        seq![Run { count: 1, line: lines[0] }]
    } else {
        let before = runs(lines.drop_last());
        if alike(lines[lines.len() - 2], lines.last()) {
            before.drop_last().push(Run { count: before.last().count + 1, line: before.last().line })
        } else {
            before.push(Run { count: 1, line: lines.last() })
        }
    }
}

/// Every line is in exactly one run: there is a run wherever there is a
/// line, no run is empty, and the lengths of the runs add up to the number
/// of lines.
pub proof fn runs_cover_the_lines(lines: Seq<Seq<char>>)
    ensures
        lines.len() > 0 ==> runs(lines).len() > 0,
        runs(lines).len() <= lines.len(),
        forall|k: int| 0 <= k < runs(lines).len() ==> (#[trigger] runs(lines)[k]).count >= 1,
        run_lengths(runs(lines)) == lines.len(),
    decreases lines.len(),
{
    if lines.len() == 1 {
        let only = runs(lines);
        assert(only.drop_last() =~= Seq::<Run>::empty());
        assert(run_lengths(only.drop_last()) == 0);
    } else if lines.len() > 1 {
        let before = runs(lines.drop_last());
        runs_cover_the_lines(lines.drop_last());
        let after = runs(lines);
        if alike(lines[lines.len() - 2], lines.last()) {
            assert(after.drop_last() =~= before.drop_last());
        } else {
            assert(after.drop_last() =~= before);
        }
    }
}

/// The sum of the lengths of `rs`.
pub open spec fn run_lengths(rs: Seq<Run>) -> nat
    decreases rs.len(),
{
    if rs.len() == 0 {
        0
    } else {
        run_lengths(rs.drop_last()) + rs.last().count
    }
}

/// What is written for a run: its first line, after the length of the run
/// at the right edge of four places and a blank where lengths are shown.
/// Nothing is written for a run of empty lines.
pub open spec fn run_text(run: Run, show_count: bool) -> Seq<char> {
    if run.line.len() == 0 {
        Seq::empty()
    } else if show_count {
        right_aligned(decimal_repr(run.count), 4) + seq![' '] + run.line
    } else {
        run.line
    }
}

fn squeeze(line: &str) -> (out: Vec<char>)
    ensures
        out@ == squeezed(line@),
{
    let chars = chars_of(line);
    let mut out: Vec<char> = Vec::new();
    let mut i: usize = 0;
    while i < chars.len()
        invariant
            0 <= i <= chars@.len(),
            out@ == squeezed(chars@.take(i as int)),
        decreases chars@.len() - i,
    {
        proof {
            assert(chars@.take(i + 1).drop_last() =~= chars@.take(i as int));
            assert(chars@.take(i + 1).last() == chars@[i as int]);
        }
        if !is_whitespace(chars[i]) {
            out.push(chars[i]);
        }
        i = i + 1;
    }
    assert(chars@.take(i as int) =~= chars@);
    out
}

fn same_chars(a: &[char], b: &[char]) -> (same: bool)
    ensures
        same == (a@ == b@),
{
    if a.len() != b.len() {
        return false;
    }
    let mut i: usize = 0;
    while i < a.len()
        invariant
            0 <= i <= a@.len(),
            a@.len() == b@.len(),
            a@.take(i as int) == b@.take(i as int),
        decreases a@.len() - i,
    {
        if a[i] != b[i] {
            return false;
        }
        assert(a@.take(i + 1) =~= a@.take(i as int).push(a@[i as int]));
        assert(b@.take(i + 1) =~= b@.take(i as int).push(b@[i as int]));
        i = i + 1;
    }
    assert(a@.take(i as int) =~= a@);
    assert(b@.take(i as int) =~= b@);
    true
}

/// Formats one run.
pub fn format_run(count: usize, line: &str, show_count: bool) -> (s: String)
    ensures
        s@ == run_text(Run { count: count as nat, line: line@ }, show_count),
{
    let mut s = String::new();
    if line.unicode_len() == 0 {
        return s;
    }
    if show_count {
        let digits = render(count as u64);
        let cell = align_right(digits.as_slice(), 4);
        push_chars(&mut s, cell.as_slice());
        push_char(&mut s, ' ');
    }
    s.append(line);
    assert(s@ =~= run_text(Run { count: count as nat, line: line@ }, show_count));
    s
}

/// What is written for `lines`: one text for each run, in order.
pub fn uniq(lines: &[String], show_count: bool) -> (out: Vec<String>)
    ensures
        out@.len() == runs(texts(lines@)).len(),
        forall|k: int|
            0 <= k < out@.len() ==> (#[trigger] out@[k])@ == run_text(
                runs(texts(lines@))[k],
                show_count,
            ),
{
    let mut out: Vec<String> = Vec::new();
    if lines.len() == 0 {
        return out;
    }
    let ghost all = texts(lines@);
    let mut head: usize = 0;
    let mut count: usize = 1;
    let mut prev: Vec<char> = squeeze(lines[0].as_str());
    let mut i: usize = 1;
    proof {
        assert(all.take(1)[0] == all[0]);
    }
    while i < lines.len()
        invariant
            1 <= i <= lines@.len(),
            all == texts(lines@),
            head < i,
            1 <= count <= i,
            prev@ == squeezed(all[i - 1]),
            runs(all.take(i as int)).len() == out@.len() + 1,
            runs(all.take(i as int)).last() == (Run { count: count as nat, line: all[head as int] }),
            forall|k: int|
                0 <= k < out@.len() ==> (#[trigger] out@[k])@ == run_text(
                    runs(all.take(i as int))[k],
                    show_count,
                ),
        decreases lines@.len() - i,
    {
        let ghost before = runs(all.take(i as int));
        let ghost after = runs(all.take(i + 1));
        proof {
            assert(all.take(i + 1).drop_last() =~= all.take(i as int));
            assert(all.take(i + 1).last() == all[i as int]);
            assert(all.take(i + 1)[i - 1] == all[i - 1]);
        }
        let current: Vec<char> = squeeze(lines[i].as_str());
        if same_chars(prev.as_slice(), current.as_slice()) {
            count = count + 1;
            proof {
                assert forall|k: int| 0 <= k < out@.len() implies (#[trigger] out@[k])@
                    == run_text(after[k], show_count) by {
                    assert(after[k] == before[k]);
                }
            }
        } else {
            out.push(format_run(count, lines[head].as_str(), show_count));
            proof {
                assert forall|k: int| 0 <= k < out@.len() implies (#[trigger] out@[k])@
                    == run_text(after[k], show_count) by {
                    assert(after[k] == before[k]);
                }
            }
            head = i;
            count = 1;
        }
        prev = current;
        i = i + 1;
    }
    proof {
        assert(all.take(i as int) =~= all);
    }
    out.push(format_run(count, lines[head].as_str(), show_count));
    out
}

} // verus!
