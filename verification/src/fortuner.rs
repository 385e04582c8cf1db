//! Picking a saying from files of sayings.

use crate::decimal::{parse_unsigned, unsigned_reading};
use crate::pattern::{pattern_compiles, pattern_matches, Pattern};
use crate::text::{chars_of, decode_lossy, string_of, texts, utf8_lossy, views};
use rand::seq::SliceRandom;
use rand::SeedableRng;
use vstd::prelude::*;
use vstd::string::StringExecFns;

verus! {

/// The complaint about a seed that is no number.
pub open spec fn not_an_integer(val: Seq<char>) -> Seq<char> {
    "\""@ + val + "\" not a valid integer"@
}

/// Reads `val` as a seed: an unsigned number of 64 bits.
pub fn parse_u64(val: &str) -> (r: Result<u64, String>)
    ensures
        match unsigned_reading(val@, u64::MAX as nat) {
            Ok(n) => r == Ok::<u64, String>(n as u64),
            Err(_) => r is Err && r->Err_0@ == not_an_integer(val@),
        },
{
    let chars = chars_of(val);
    match parse_unsigned(chars.as_slice(), u64::MAX) {
        Ok(n) => Ok(n),
        Err(_) => {
            let mut msg = String::from_str("\"");
            msg.append(val);
            msg.append("\" not a valid integer");
            Err(msg)
        },
    }
}

/// A saying, with the name of the file that it is from.
#[derive(Debug)]
pub struct Fortune {
    pub source: String,
    pub text: String,
}

impl Fortune {
    /// The saying itself.
    pub fn to_string(&self) -> (s: String)
        ensures
            s@ == self.text@,
    {
        self.text.clone()
    }
}

/// The settings of one run.
#[derive(Debug)]
pub struct Config {
    /// The files and directories of sayings.
    pub sources: Vec<String>,
    /// Show every saying that matches, in place of one picked at random.
    pub pattern: Option<Pattern>,
    /// What to start the random numbers from.
    pub seed: Option<u64>,
}

/// The complaint about a pattern that is no regular expression.
pub open spec fn invalid_pattern(pattern: Seq<char>) -> Seq<char> {
    "Invalid --pattern \""@ + pattern + "\""@
}

impl Config {
    /// Settings from what was given on the command line. The pattern is
    /// looked at before the seed.
    pub fn new(
        sources: Vec<String>,
        pattern: Option<&str>,
        insensitive: bool,
        seed: Option<&str>,
    ) -> (r: Result<Config, String>)
        ensures
            pattern is Some && !pattern_compiles(pattern->Some_0@, insensitive) ==> r is Err
                && r->Err_0@ == invalid_pattern(pattern->Some_0@),
            (pattern is Some ==> pattern_compiles(pattern->Some_0@, insensitive)) && seed is Some
                && unsigned_reading(seed->Some_0@, u64::MAX as nat) is Err ==> r is Err
                && r->Err_0@ == not_an_integer(seed->Some_0@),
            (pattern is Some ==> pattern_compiles(pattern->Some_0@, insensitive)) && (seed is Some
                ==> unsigned_reading(seed->Some_0@, u64::MAX as nat) is Ok) ==> {
                &&& r is Ok
                &&& r->Ok_0.sources == sources
                &&& r->Ok_0.pattern is Some == pattern is Some
                &&& pattern is Some ==> r->Ok_0.pattern->Some_0.source() == pattern->Some_0@
                    && r->Ok_0.pattern->Some_0.insensitive() == insensitive
                &&& r->Ok_0.seed is Some == seed is Some
                &&& seed is Some ==> r->Ok_0.seed->Some_0 == unsigned_reading(
                    seed->Some_0@,
                    u64::MAX as nat,
                )->Ok_0
            },
    {
        let pattern: Option<Pattern> = match pattern {
            None => None,
            Some(p) => match Pattern::new(p, insensitive) {
                Some(compiled) => Some(compiled),
                None => {
                    let mut msg = String::from_str("Invalid --pattern \"");
                    msg.append(p);
                    msg.append("\"");
                    return Err(msg);
                },
            },
        };
        let seed: Option<u64> = match seed {
            None => None,
            Some(text) => match parse_u64(text) {
                Ok(n) => Some(n),
                Err(msg) => {
                    return Err(msg);
                },
            },
        };
        Ok(Config { sources, pattern, seed })
    }
}

/// Whether `path` stands in `paths` before index `k`.
pub open spec fn seen_before(paths: Seq<Seq<char>>, k: int) -> bool {
    exists|j: int| 0 <= j < k && paths[j] == paths[k]
}

/// The paths without those that were given before, in the order given.
pub open spec fn first_mentions(paths: Seq<Seq<char>>) -> Seq<Seq<char>>
    decreases paths.len(),
{
    if paths.len() == 0 {
        Seq::empty()
    } else if seen_before(paths, paths.len() - 1) {
        first_mentions(paths.drop_last())
    } else {
        first_mentions(paths.drop_last()).push(paths.last())
    }
}

/// The paths to walk: each path once, where it is first given.
pub fn unique_sources(paths: &[String]) -> (out: Vec<String>)
    ensures
        texts(out@) == first_mentions(texts(paths@)),
{
    let ghost all = texts(paths@);
    let mut out: Vec<String> = Vec::new();
    let mut k: usize = 0;
    while k < paths.len()
        invariant
            0 <= k <= paths@.len(),
            all == texts(paths@),
            texts(out@) == first_mentions(all.take(k as int)),
        decreases paths@.len() - k,
    {
        let mut seen: bool = false;
        let mut j: usize = 0;
        while j < k
            invariant
                0 <= j <= k < paths@.len(),
                all == texts(paths@),
                seen == (exists|i: int| 0 <= i < j && all[i] == all[k as int]),
            decreases k - j,
        {
            if paths[j] == paths[k] {
                seen = true;
                assert(all[j as int] == all[k as int]);
            }
            j = j + 1;
        }
        proof {
            let next = all.take(k + 1);
            assert(next.drop_last() =~= all.take(k as int));
            assert(next.last() == all[k as int]);
            assert(seen == seen_before(next, k as int)) by {
                if seen {
                    let i = choose|i: int| 0 <= i < k && all[i] == all[k as int];
                    assert(next[i] == next[k as int]);
                }
                if seen_before(next, k as int) {
                    let i = choose|i: int| 0 <= i < k && next[i] == next[k as int];
                    assert(all[i] == all[k as int]);
                }
            }
        }
        if !seen {
            let ghost before = texts(out@);
            out.push(paths[k].clone());
            assert(texts(out@) =~= before.push(all[k as int]));
        }
        k = k + 1;
    }
    assert(all.take(k as int) =~= all);
    out
}

/// The parts of `data` that a delimiter has ended, each without the
/// delimiter.
pub open spec fn closed_parts(data: Seq<u8>, delimiter: u8) -> Seq<Seq<u8>>
    decreases data.len(),
{
    if data.len() == 0 {
        Seq::empty()
    } else if data.last() == delimiter {
        closed_parts(data.drop_last(), delimiter).push(open_part(data.drop_last(), delimiter))
    } else {
        closed_parts(data.drop_last(), delimiter)
    }
}

/// What follows the last delimiter of `data`.
pub open spec fn open_part(data: Seq<u8>, delimiter: u8) -> Seq<u8>
    decreases data.len(),
{
    if data.len() == 0 {
        Seq::empty()
    } else if data.last() == delimiter {
        Seq::empty()
    } else {
        open_part(data.drop_last(), delimiter).push(data.last())
    }
}

/// The parts of `data` between delimiters. What follows the last delimiter
/// is a part unless it is empty.
pub open spec fn parts_of(data: Seq<u8>, delimiter: u8) -> Seq<Seq<u8>> {
    if open_part(data, delimiter).len() > 0 {
        closed_parts(data, delimiter).push(open_part(data, delimiter))
    } else {
        closed_parts(data, delimiter)
    }
}

/// Cuts `data` at every `delimiter`.
pub fn split_parts(data: &[u8], delimiter: u8) -> (parts: Vec<Vec<u8>>)
    ensures
        views(parts@) == parts_of(data@, delimiter),
{
    let mut parts: Vec<Vec<u8>> = Vec::new();
    let mut current: Vec<u8> = Vec::new();
    let mut i: usize = 0;
    while i < data.len()
        invariant
            0 <= i <= data@.len(),
            views(parts@) == closed_parts(data@.take(i as int), delimiter),
            current@ == open_part(data@.take(i as int), delimiter),
        decreases data@.len() - i,
    {
        let b: u8 = data[i];
        proof {
            let next = data@.take(i + 1);
            assert(next.drop_last() =~= data@.take(i as int));
            assert(next.last() == b);
        }
        if b == delimiter {
            let ghost done = views(parts@);
            let ghost part = current@;
            parts.push(current);
            current = Vec::new();
            assert(views(parts@) =~= done.push(part));
        } else {
            current.push(b);
        }
        i = i + 1;
    }
    assert(data@.take(i as int) =~= data@);
    if current.len() > 0 {
        let ghost done = views(parts@);
        let ghost part = current@;
        parts.push(current);
        assert(views(parts@) =~= done.push(part));
    }
    parts
}

/// A text without one line feed at its start and one at its end, where it
/// has them.
pub open spec fn trimmed(text: Seq<char>) -> Seq<char> {
    let from: int = if text.len() > 0 && text[0] == '\n' {
        1
    } else {
        0
    };
    let to: int = if text.len() > from && text.last() == '\n' {
        text.len() - 1
    } else {
        text.len() as int
    };
    text.subrange(from, to)
}

/// Takes one line feed from the start of `text` and one from its end.
pub fn trim(text: &str) -> (out: String)
    ensures
        out@ == trimmed(text@),
{
    let chars = chars_of(text);
    let n: usize = chars.len();
    let from: usize = if n > 0 && chars[0] == '\n' {
        1
    } else {
        0
    };
    let to: usize = if n > from && chars[n - 1] == '\n' {
        n - 1
    } else {
        n
    };
    string_of(vstd::slice::slice_subrange(chars.as_slice(), from, to))
}

/// The sayings among `parts`: each part decoded leniently and trimmed, but
/// for those of which nothing is left.
pub open spec fn sayings(parts: Seq<Seq<u8>>) -> Seq<Seq<char>>
    decreases parts.len(),
{
    if parts.len() == 0 {
        Seq::empty()
    } else if trimmed(utf8_lossy(parts.last())).len() == 0 {
        sayings(parts.drop_last())
    } else {
        sayings(parts.drop_last()).push(trimmed(utf8_lossy(parts.last())))
    }
}

/// The sayings of a file: what stands between percent signs, each under the
/// name `source`.
pub fn read_fortunes(source: &str, data: &[u8]) -> (fortunes: Vec<Fortune>)
    ensures
        fortunes@.len() == sayings(parts_of(data@, 37u8)).len(),
        forall|k: int|
            0 <= k < fortunes@.len() ==> (#[trigger] fortunes@[k]).text@ == sayings(
                parts_of(data@, 37u8),
            )[k] && fortunes@[k].source@ == source@,
{
    let parts = split_parts(data, 37u8);
    let ghost all = views(parts@);
    let mut fortunes: Vec<Fortune> = Vec::new();
    let mut i: usize = 0;
    while i < parts.len()
        invariant
            0 <= i <= parts@.len(),
            all == views(parts@),
            fortunes@.len() == sayings(all.take(i as int)).len(),
            forall|k: int|
                0 <= k < fortunes@.len() ==> (#[trigger] fortunes@[k]).text@ == sayings(
                    all.take(i as int),
                )[k] && fortunes@[k].source@ == source@,
        decreases parts@.len() - i,
    {
        proof {
            assert(all.take(i + 1).drop_last() =~= all.take(i as int));
            assert(all.take(i + 1).last() == parts@[i as int]@);
        }
        let decoded = decode_lossy(parts[i].as_slice());
        let text = trim(decoded.as_str());
        if text.as_str().unicode_len() > 0 {
            fortunes.push(Fortune { source: String::from_str(source), text });
        }
        i = i + 1;
    }
    assert(all.take(i as int) =~= all);
    fortunes
}

/// The index at which `SliceRandom::choose` picks in a slice of `len`
/// items, when its generator is a `StdRng` that `seed_from_u64` has just
/// made of `seed`: so the index depends on the seed and the length alone.
pub uninterp spec fn seeded_index(seed: u64, len: nat) -> nat;

/// `SliceRandom::choose`: one item of `items`, the same for the same seed
/// and number of items; nothing where there are no items.
/// `StdRng::seed_from_u64` turns the seed into the generator that is handed
/// over.
#[verifier::external_body]
fn choose_seeded<T>(items: &[T], seed: u64) -> (r: Option<&T>)
    ensures
        r is Some <==> items@.len() > 0,
        r is Some ==> seeded_index(seed, items@.len()) < items@.len(),
        r is Some ==> *r->Some_0 == items@[seeded_index(seed, items@.len()) as int],
{
    items.choose(&mut rand::rngs::StdRng::seed_from_u64(seed))
}

/// `SliceRandom::choose` with `rand::thread_rng`: one item of `items`,
/// whichever; nothing where there are no items.
#[verifier::external_body]
fn choose_any<T>(items: &[T]) -> (r: Option<&T>)
    ensures
        r is Some <==> items@.len() > 0,
        r is Some ==> items@.contains(*r->Some_0),
{
    items.choose(&mut rand::thread_rng())
}

/// One of the sayings: with a seed, the one that the seed decides; without,
/// any one. Nothing where there are no sayings.
pub fn pick_fortune(fortunes: &[Fortune], seed: Option<u64>) -> (r: Option<String>)
    ensures
        fortunes@.len() == 0 ==> r is None,
        fortunes@.len() > 0 ==> r is Some && exists|i: int|
            0 <= i < fortunes@.len() && r->Some_0@ == (#[trigger] fortunes@[i]).text@,
        fortunes@.len() > 0 && seed is Some ==> seeded_index(seed->Some_0, fortunes@.len())
            < fortunes@.len() && r->Some_0@ == fortunes@[seeded_index(
            seed->Some_0,
            fortunes@.len(),
        ) as int].text@,
{
    let picked: Option<&Fortune> = match seed {
        Some(s) => choose_seeded(fortunes, s),
        None => choose_any(fortunes),
    };
    match picked {
        Some(f) => Some(f.to_string()),
        None => None,
    }
}

/// The indices of the sayings that the pattern matches, in order.
pub open spec fn matching_indices(fortunes: Seq<Fortune>, pattern: &Pattern) -> Seq<int>
    decreases fortunes.len(),
{
    if fortunes.len() == 0 {
        Seq::empty()
    } else if pattern_matches(pattern.source(), pattern.insensitive(), fortunes.last().text@) {
        matching_indices(fortunes.drop_last(), pattern).push(fortunes.len() - 1)
    } else {
        matching_indices(fortunes.drop_last(), pattern)
    }
}

/// Where the sayings stand that `pattern` matches.
pub fn find_matching(fortunes: &[Fortune], pattern: &Pattern) -> (found: Vec<usize>)
    ensures
        found@.len() == matching_indices(fortunes@, pattern).len(),
        forall|k: int|
            0 <= k < found@.len() ==> #[trigger] found@[k] == matching_indices(
                fortunes@,
                pattern,
            )[k] && found@[k] < fortunes@.len(),
{
    let mut found: Vec<usize> = Vec::new();
    let mut i: usize = 0;
    while i < fortunes.len()
        invariant
            0 <= i <= fortunes@.len(),
            found@.len() == matching_indices(fortunes@.take(i as int), pattern).len(),
            forall|k: int|
                0 <= k < found@.len() ==> #[trigger] found@[k] == matching_indices(
                    fortunes@.take(i as int),
                    pattern,
                )[k] && found@[k] < i,
        decreases fortunes@.len() - i,
    {
        proof {
            assert(fortunes@.take(i + 1).drop_last() =~= fortunes@.take(i as int));
            assert(fortunes@.take(i + 1).last() == fortunes@[i as int]);
        }
        if pattern.is_match(fortunes[i].text.as_str()) {
            found.push(i);
        }
        i = i + 1;
    }
    assert(fortunes@.take(i as int) =~= fortunes@);
    found
}

/// A list without the items that repeat the item before them.
pub open spec fn without_repeats(items: Seq<Seq<char>>) -> Seq<Seq<char>>
    decreases items.len(),
{
    if items.len() == 0 {
        Seq::empty()
    } else if items.len() > 1 && items[items.len() - 2] == items.last() {
        without_repeats(items.drop_last())
    } else {
        without_repeats(items.drop_last()).push(items.last())
    }
}

/// The names of the files that the sayings at `found` are from, each once
/// for every run of sayings from it.
pub fn sources_of(fortunes: &[Fortune], found: &[usize]) -> (names: Vec<String>)
    requires
        forall|k: int| 0 <= k < found@.len() ==> #[trigger] found@[k] < fortunes@.len(),
    ensures
        texts(names@) == without_repeats(
            Seq::new(found@.len(), |k: int| fortunes@[found@[k] as int].source@),
        ),
{
    let ghost all = Seq::new(found@.len(), |k: int| fortunes@[found@[k] as int].source@);
    let mut names: Vec<String> = Vec::new();
    let mut i: usize = 0;
    while i < found.len()
        invariant
            0 <= i <= found@.len(),
            all == Seq::new(found@.len(), |k: int| fortunes@[found@[k] as int].source@),
            forall|k: int| 0 <= k < found@.len() ==> #[trigger] found@[k] < fortunes@.len(),
            texts(names@) == without_repeats(all.take(i as int)),
        decreases found@.len() - i,
    {
        proof {
            let next = all.take(i + 1);
            assert(next.drop_last() =~= all.take(i as int));
            assert(next.last() == all[i as int]);
            if i > 0 {
                assert(next[i - 1] == all[i - 1]);
            }
        }
        let repeat: bool = i > 0 && fortunes[found[i - 1]].source == fortunes[found[i]].source;
        if !repeat {
            let ghost before = texts(names@);
            names.push(fortunes[found[i]].source.clone());
            assert(texts(names@) =~= before.push(all[i as int]));
        }
        i = i + 1;
    }
    assert(all.take(i as int) =~= all);
    names
}

} // verus!
