//! Finding the lines of files that match a regular expression.

use crate::decimal::{decimal_repr, render};
use crate::pattern::{pattern_compiles, pattern_matches, Pattern};
use crate::text::{push_char, push_chars, texts};
use vstd::prelude::*;
use vstd::string::StringExecFns;

verus! {

/// The settings of one run.
#[derive(Debug)]
pub struct Config {
    /// What to look for.
    pub pattern: Pattern,
    /// Where to look; `-` is the standard input.
    pub files: Vec<String>,
    /// Look into directories.
    pub recursive: bool,
    /// Show how many lines match in place of the lines.
    pub count: bool,
    /// Take the lines that do not match.
    pub invert_match: bool,
}

/// The complaint about a pattern that is no regular expression.
pub open spec fn invalid_pattern(pattern: Seq<char>) -> Seq<char> {
    "Invalid pattern \""@ + pattern + "\""@
}

impl Config {
    /// Settings from what was given on the command line.
    pub fn new(
        pattern: &str,
        insensitive: bool,
        files: Vec<String>,
        recursive: bool,
        count: bool,
        invert_match: bool,
    ) -> (r: Result<Config, String>)
        ensures
            !pattern_compiles(pattern@, insensitive) ==> r is Err && r->Err_0@ == invalid_pattern(
                pattern@,
            ),
            pattern_compiles(pattern@, insensitive) ==> {
                &&& r is Ok
                &&& r->Ok_0.pattern.source() == pattern@
                &&& r->Ok_0.pattern.insensitive() == insensitive
                &&& r->Ok_0.files == files
                &&& r->Ok_0.recursive == recursive
                &&& r->Ok_0.count == count
                &&& r->Ok_0.invert_match == invert_match
            },
    {
        match Pattern::new(pattern, insensitive) {
            Some(compiled) => Ok(
                Config { pattern: compiled, files, recursive, count, invert_match },
            ),
            None => {
                let mut msg = String::from_str("Invalid pattern \"");
                msg.append(pattern);
                msg.append("\"");
                Err(msg)
            },
        }
    }
}

/// Whether a line is taken: it matches, or it does not and those are asked
/// for.
pub open spec fn is_taken(pattern: &Pattern, invert_match: bool, line: Seq<char>) -> bool {
    pattern_matches(pattern.source(), pattern.insensitive(), line) != invert_match
}

/// The lines that are taken, in their order.
pub open spec fn taken_lines(pattern: &Pattern, invert_match: bool, lines: Seq<Seq<char>>) -> Seq<
    Seq<char>,
>
    decreases lines.len(),
{
    if lines.len() == 0 {
        Seq::empty()
    } else if is_taken(pattern, invert_match, lines.last()) {
        taken_lines(pattern, invert_match, lines.drop_last()).push(lines.last())
    } else {
        taken_lines(pattern, invert_match, lines.drop_last())
    }
}

/// Whether `line` is taken, given whether the pattern matches it.
pub fn takes(matched: bool, invert_match: bool) -> (taken: bool)
    ensures
        taken == (matched != invert_match),
{
    if invert_match {
        !matched
    } else {
        matched
    }
}

/// The lines among `lines` that match `pattern`, or those that do not where
/// `invert_match` is set.
pub fn find_lines(lines: &[String], pattern: &Pattern, invert_match: bool) -> (res: Vec<String>)
    ensures
        texts(res@) == taken_lines(pattern, invert_match, texts(lines@)),
{
    let mut res: Vec<String> = Vec::new();
    let mut i: usize = 0;
    while i < lines.len()
        invariant
            0 <= i <= lines@.len(),
            texts(res@) == taken_lines(pattern, invert_match, texts(lines@).take(i as int)),
        decreases lines@.len() - i,
    {
        proof {
            assert(texts(lines@).take(i + 1).drop_last() =~= texts(lines@).take(i as int));
            assert(texts(lines@).take(i + 1).last() == lines@[i as int]@);
        }
        let matched: bool = pattern.is_match(lines[i].as_str());
        if takes(matched, invert_match) {
            let ghost before = texts(res@);
            res.push(lines[i].clone());
            assert(texts(res@) =~= before.push(lines@[i as int]@));
        }
        i = i + 1;
    }
    assert(texts(lines@).take(i as int) =~= texts(lines@));
    res
}

/// Taking the lines that match and taking those that do not parts the
/// lines in two: each line is in one of the two, and none in both.
pub proof fn inverting_takes_the_rest(pattern: &Pattern, lines: Seq<Seq<char>>)
    ensures
        taken_lines(pattern, false, lines).len() + taken_lines(pattern, true, lines).len()
            == lines.len(),
        forall|k: int|
            0 <= k < lines.len() ==> is_taken(pattern, false, #[trigger] lines[k]) != is_taken(
                pattern,
                true,
                lines[k],
            ),
    decreases lines.len(),
{
    if lines.len() > 0 {
        inverting_takes_the_rest(pattern, lines.drop_last());
    }
}

/// What is known of a path that is to be searched.
#[derive(Debug)]
pub enum PathKind {
    /// Nothing is there, or it cannot be looked at; holds the reason.
    Missing(String),
    /// A directory.
    Directory,
    /// Anything else.
    File,
}

/// What to do with a path that is to be searched.
#[derive(Debug, PartialEq, Eq)]
pub enum Search {
    /// Search the file of this name.
    File(String),
    /// Search every entry below the directory.
    Walk,
    /// Report this complaint.
    Refuse(String),
}

/// What is to be done with a path, with its texts as sequences of
/// characters.
pub enum Searched {
    File(Seq<char>),
    Walk,
    Refuse(Seq<char>),
}

impl View for Search {
    type V = Searched;

    open spec fn view(&self) -> Searched {
        match self {
            Search::File(name) => Searched::File(name@),
            Search::Walk => Searched::Walk,
            Search::Refuse(reason) => Searched::Refuse(reason@),
        }
    }
}

/// What is done with a path. The standard input is searched without a look
/// at the file system. A path that is missing is refused with the reason; a
/// directory is walked where directories are looked into, and refused
/// otherwise; anything else is searched.
pub open spec fn search_of(path: Seq<char>, kind: &PathKind, recursive: bool) -> Searched {
    if path == seq!['-'] {
        Searched::File(path)
    } else {
        match kind {
            PathKind::Missing(reason) => Searched::Refuse(path + ": "@ + reason@),
            PathKind::Directory => if recursive {
                Searched::Walk
            } else {
                Searched::Refuse(path + " is a directory"@)
            },
            PathKind::File => Searched::File(path),
        }
    }
}

/// Decides what to do with `path`, of which `kind` is known.
pub fn classify(path: &str, kind: &PathKind, recursive: bool) -> (search: Search)
    ensures
        search@ == search_of(path@, kind, recursive),
{
    let name = crate::text::chars_of(path);
    if name.len() == 1 && name[0] == '-' {
        assert(path@ =~= seq!['-']);
        return Search::File(String::from_str(path));
    }
    match kind {
        PathKind::Missing(reason) => {
            let mut msg = String::from_str(path);
            msg.append(": ");
            msg.append(reason.as_str());
            Search::Refuse(msg)
        },
        PathKind::Directory => {
            if recursive {
                Search::Walk
            } else {
                let mut msg = String::from_str(path);
                msg.append(" is a directory");
                Search::Refuse(msg)
            }
        },
        PathKind::File => Search::File(String::from_str(path)),
    }
}

/// What is printed for the lines taken from one file: the lines, or their
/// number on a line of its own, each after the file's name and a colon where
/// more than one file is searched.
pub open spec fn report_text(
    count: bool,
    many: bool,
    filename: Seq<char>,
    taken: Seq<Seq<char>>,
) -> Seq<char> {
    if count {
        prefix_text(many, filename) + decimal_repr(taken.len()) + seq!['\n']
    } else {
        prefixed_lines(many, filename, taken)
    }
}

/// The file's name and a colon where more than one file is searched.
pub open spec fn prefix_text(many: bool, filename: Seq<char>) -> Seq<char> {
    if many {
        filename + seq![':']
    } else {
        Seq::empty()
    }
}

/// The lines one after the other, each after the prefix.
pub open spec fn prefixed_lines(many: bool, filename: Seq<char>, taken: Seq<Seq<char>>) -> Seq<
    char,
>
    decreases taken.len(),
{
    if taken.len() == 0 {
        Seq::empty()
    } else {
        prefixed_lines(many, filename, taken.drop_last()) + prefix_text(many, filename)
            + taken.last()
    }
}

/// The text to print for the lines taken from one file, where `num_files`
/// files are searched.
pub fn report(config: &Config, num_files: usize, filename: &str, taken: &[String]) -> (out: String)
    ensures
        out@ == report_text(config.count, num_files > 1, filename@, texts(taken@)),
{
    let many: bool = num_files > 1;
    let mut out = String::new();
    if config.count {
        if many {
            out.append(filename);
            push_char(&mut out, ':');
        }
        let digits = render(taken.len() as u64);
        push_chars(&mut out, digits.as_slice());
        push_char(&mut out, '\n');
        assert(out@ =~= report_text(config.count, many, filename@, texts(taken@)));
    } else {
        let mut i: usize = 0;
        while i < taken.len()
            invariant
                0 <= i <= taken@.len(),
                out@ == prefixed_lines(many, filename@, texts(taken@).take(i as int)),
            decreases taken@.len() - i,
        {
            proof {
                assert(texts(taken@).take(i + 1).drop_last() =~= texts(taken@).take(i as int));
                assert(texts(taken@).take(i + 1).last() == taken@[i as int]@);
            }
            let ghost before = out@;
            if many {
                out.append(filename);
                push_char(&mut out, ':');
            }
            out.append(taken[i].as_str());
            assert(out@ =~= before + prefix_text(many, filename@) + taken@[i as int]@);
            i = i + 1;
        }
        assert(texts(taken@).take(i as int) =~= texts(taken@));
    }
    out
}

} // verus!
