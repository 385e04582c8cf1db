//! Finding the entries below a path that have a wanted type and name.

use crate::pattern::{pattern_compiles, pattern_matches, Pattern};
use crate::text::{chars_of, texts};
use vstd::prelude::*;
use vstd::string::StringExecFns;

verus! {

/// A kind of entry to look for.
#[derive(Clone, Copy, Debug, PartialEq, Eq, Structural)]
pub enum EntryType {
    Dir,
    File,
    Link,
}

/// The settings of one run.
#[derive(Debug)]
pub struct Config {
    /// Where to search.
    pub paths: Vec<String>,
    /// The names to look for; any name where there are none.
    pub names: Vec<Pattern>,
    /// The kinds to look for; any kind where there are none.
    pub entry_types: Vec<EntryType>,
}

/// The kind that a letter stands for.
pub open spec fn type_of_letter(letter: Seq<char>) -> Option<EntryType> {
    if letter == seq!['f'] {
        Some(EntryType::File)
    } else if letter == seq!['d'] {
        Some(EntryType::Dir)
    } else if letter == seq!['l'] {
        Some(EntryType::Link)
    } else {
        None
    }
}

impl EntryType {
    /// The kind that `letter` stands for: `f` a file, `d` a directory, `l` a
    /// link.
    pub fn from_letter(letter: &str) -> (r: Option<EntryType>)
        ensures
            r == type_of_letter(letter@),
    {
        let chars = chars_of(letter);
        if chars.len() != 1 {
            return None;
        }
        assert(letter@ =~= seq![chars@[0]]);
        if chars[0] == 'f' {
            Some(EntryType::File)
        } else if chars[0] == 'd' {
            Some(EntryType::Dir)
        } else if chars[0] == 'l' {
            Some(EntryType::Link)
        } else {
            None
        }
    }
}

/// The complaint about a name that is no regular expression.
pub open spec fn invalid_name(name: Seq<char>) -> Seq<char> {
    "Invalid --name \""@ + name + "\""@
}

/// The first of `names` that is no regular expression, if there is one.
pub open spec fn first_invalid(names: Seq<Seq<char>>) -> Option<int>
    decreases names.len(),
{
    if names.len() == 0 {
        None
    } else {
        match first_invalid(names.drop_last()) {
            Some(i) => Some(i),
            None => if pattern_compiles(names.last(), false) {
                None
            } else {
                Some(names.len() - 1)
            },
        }
    }
}

/// Once a name is found invalid, it stays the first invalid one whatever
/// follows.
pub proof fn first_invalid_stands(names: Seq<Seq<char>>, k: int)
    requires
        0 <= k <= names.len(),
    ensures
        first_invalid(names.take(k)) is Some ==> first_invalid(names) == first_invalid(
            names.take(k),
        ),
    decreases names.len() - k,
{
    if k < names.len() {
        first_invalid_stands(names, k + 1);
        assert(names.take(k + 1).drop_last() =~= names.take(k));
    } else {
        assert(names.take(k) =~= names);
    }
}

impl Config {
    /// Settings from what was given on the command line. The names are
    /// compiled in order, and the first that is no regular expression is
    /// complained of.
    pub fn new(paths: Vec<String>, names: &[String], entry_types: Vec<EntryType>) -> (r: Result<
        Config,
        String,
    >)
        ensures
            match first_invalid(texts(names@)) {
                Some(i) => r is Err && r->Err_0@ == invalid_name(names@[i]@),
                None => {
                    &&& r is Ok
                    &&& r->Ok_0.paths == paths
                    &&& r->Ok_0.entry_types == entry_types
                    &&& r->Ok_0.names@.len() == names@.len()
                    &&& forall|k: int|
                        0 <= k < names@.len() ==> (#[trigger] r->Ok_0.names@[k]).source()
                            == names@[k]@ && !r->Ok_0.names@[k].insensitive()
                },
            },
    {
        let mut compiled: Vec<Pattern> = Vec::new();
        let mut i: usize = 0;
        while i < names.len()
            invariant
                0 <= i <= names@.len(),
                first_invalid(texts(names@).take(i as int)) is None,
                compiled@.len() == i,
                forall|k: int|
                    0 <= k < i ==> (#[trigger] compiled@[k]).source() == names@[k]@
                        && !compiled@[k].insensitive(),
            decreases names@.len() - i,
        {
            proof {
                assert(texts(names@).take(i + 1).drop_last() =~= texts(names@).take(i as int));
                assert(texts(names@).take(i + 1).last() == names@[i as int]@);
                first_invalid_stands(texts(names@), i + 1);
            }
            match Pattern::new(names[i].as_str(), false) {
                Some(p) => {
                    compiled.push(p);
                },
                None => {
                    let mut msg = String::from_str("Invalid --name \"");
                    msg.append(names[i].as_str());
                    msg.append("\"");
                    return Err(msg);
                },
            }
            i = i + 1;
        }
        assert(texts(names@).take(i as int) =~= texts(names@));
        Ok(Config { paths, names: compiled, entry_types })
    }
}

/// What is known of an entry that the search came upon.
#[derive(Debug)]
pub struct Entry {
    pub is_dir: bool,
    pub is_file: bool,
    pub is_symlink: bool,
    /// The last part of its path.
    pub file_name: String,
}

/// Whether the entry is of the kind.
pub open spec fn is_of_type(entry: &Entry, kind: EntryType) -> bool {
    match kind {
        EntryType::Dir => entry.is_dir,
        EntryType::File => entry.is_file,
        EntryType::Link => entry.is_symlink,
    }
}

/// How many of `kinds` the entry is of.
pub open spec fn type_hits(entry: &Entry, kinds: Seq<EntryType>) -> nat
    decreases kinds.len(),
{
    if kinds.len() == 0 {
        0
    } else {
        type_hits(entry, kinds.drop_last()) + if is_of_type(entry, kinds.last()) {
            1nat
        } else {
            0nat
        }
    }
}

/// How many of `names` match the name of the entry.
pub open spec fn name_hits(entry: &Entry, names: Seq<Pattern>) -> nat
    decreases names.len(),
{
    if names.len() == 0 {
        0
    } else {
        name_hits(entry, names.drop_last()) + if pattern_matches(
            names.last().source(),
            names.last().insensitive(),
            entry.file_name@,
        ) {
            1nat
        } else {
            0nat
        }
    }
}

/// How often the entry is listed: once for each wanted kind that it is of
/// and each wanted name that matches it, where no wanted kinds count as one
/// kind that it is of, and no wanted names as one name that matches.
pub open spec fn listings(config: &Config, entry: &Entry) -> nat {
    (if config.entry_types@.len() == 0 {
        1nat
    } else {
        type_hits(entry, config.entry_types@)
    }) * (if config.names@.len() == 0 {
        1nat
    } else {
        name_hits(entry, config.names@)
    })
}

/// Hits are at most as many as there is to hit.
pub proof fn hits_are_bounded(entry: &Entry, kinds: Seq<EntryType>, names: Seq<Pattern>)
    ensures
        type_hits(entry, kinds) <= kinds.len(),
        name_hits(entry, names) <= names.len(),
    decreases kinds.len() + names.len(),
{
    if kinds.len() > 0 {
        hits_are_bounded(entry, kinds.drop_last(), names);
    }
    if names.len() > 0 {
        hits_are_bounded(entry, kinds, names.drop_last());
    }
}

/// How often to list `entry`.
pub fn times_listed(config: &Config, entry: &Entry) -> (times: u128)
    ensures
        times == listings(config, entry),
{
    let mut kinds: usize = 0;
    let mut i: usize = 0;
    while i < config.entry_types.len()
        invariant
            0 <= i <= config.entry_types@.len(),
            kinds <= i,
            kinds == type_hits(entry, config.entry_types@.take(i as int)),
        decreases config.entry_types@.len() - i,
    {
        proof {
            assert(config.entry_types@.take(i + 1).drop_last() =~= config.entry_types@.take(
                i as int,
            ));
            assert(config.entry_types@.take(i + 1).last() == config.entry_types@[i as int]);
        }
        let hit: bool = match config.entry_types[i] {
            EntryType::Dir => entry.is_dir,
            EntryType::File => entry.is_file,
            EntryType::Link => entry.is_symlink,
        };
        if hit {
            kinds = kinds + 1;
        }
        i = i + 1;
    }
    assert(config.entry_types@.take(i as int) =~= config.entry_types@);
    let mut names: usize = 0;
    let mut j: usize = 0;
    while j < config.names.len()
        invariant
            0 <= j <= config.names@.len(),
            names <= j,
            names == name_hits(entry, config.names@.take(j as int)),
        decreases config.names@.len() - j,
    {
        proof {
            assert(config.names@.take(j + 1).drop_last() =~= config.names@.take(j as int));
            assert(config.names@.take(j + 1).last() == config.names@[j as int]);
        }
        if config.names[j].is_match(entry.file_name.as_str()) {
            names = names + 1;
        }
        j = j + 1;
    }
    assert(config.names@.take(j as int) =~= config.names@);
    let by_kind: u128 = if config.entry_types.len() == 0 {
        1
    } else {
        kinds as u128
    };
    let by_name: u128 = if config.names.len() == 0 {
        1
    } else {
        names as u128
    };
    assert(by_kind * by_name <= u128::MAX) by (nonlinear_arith)
        requires
            0 <= by_kind <= 0xffff_ffff_ffff_ffff,
            0 <= by_name <= 0xffff_ffff_ffff_ffff,
    ;
    by_kind * by_name
}

/// With nothing asked for, every entry is listed once; with kinds or names
/// asked for, an entry of no wanted kind or with no matching name is not
/// listed.
pub proof fn listing_follows_the_filters(config: &Config, entry: &Entry)
    ensures
        config.entry_types@.len() == 0 && config.names@.len() == 0 ==> listings(config, entry)
            == 1,
        config.entry_types@.len() > 0 && type_hits(entry, config.entry_types@) == 0 ==> listings(
            config,
            entry,
        ) == 0,
        config.names@.len() > 0 && name_hits(entry, config.names@) == 0 ==> listings(
            config,
            entry,
        ) == 0,
{
    let by_kind: nat = if config.entry_types@.len() == 0 {
        1nat
    } else {
        type_hits(entry, config.entry_types@)
    };
    let by_name: nat = if config.names@.len() == 0 {
        1nat
    } else {
        name_hits(entry, config.names@)
    };
    assert(by_kind == 0 || by_name == 0 ==> by_kind * by_name == 0) by (nonlinear_arith);
}

} // verus!
