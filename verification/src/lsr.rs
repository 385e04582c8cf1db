//! Listing files: how the permission bits of a file are written.

use crate::decimal::{decimal_repr, render};
use crate::text::{chars_of, push_char, string_of, texts};
use chrono::DateTime;
use tabular::{Row, Table};
use vstd::prelude::*;
use vstd::string::StringExecFns;

verus! {

/// The letter for a permission that is granted, a hyphen for one that is
/// not. `bit` is the mode masked by the permission's bit.
pub open spec fn flag(bit: u32, letter: char) -> char {
    if bit != 0 {
        letter
    } else {
        '-'
    }
}

/// The three places for reading, writing and executing.
pub open spec fn chunk_text(r: u32, w: u32, x: u32) -> Seq<char> {
    seq![flag(r, 'r'), flag(w, 'w'), flag(x, 'x')]
}

/// The nine places of a mode: owner, group, others.
pub open spec fn mode_text(mode: u32) -> Seq<char> {
    chunk_text(mode & 0o400, mode & 0o200, mode & 0o100) + chunk_text(
        mode & 0o040,
        mode & 0o020,
        mode & 0o010,
    ) + chunk_text(mode & 0o004, mode & 0o002, mode & 0o001)
}

/// The three places for one class of users, from its three masked bits.
pub fn format_chunk(rwx: (u32, u32, u32)) -> (s: String)
    ensures
        s@ == chunk_text(rwx.0, rwx.1, rwx.2),
{
    let mut s = String::new();
    push_char(&mut s, if rwx.0 != 0 { 'r' } else { '-' });
    push_char(&mut s, if rwx.1 != 0 { 'w' } else { '-' });
    push_char(&mut s, if rwx.2 != 0 { 'x' } else { '-' });
    assert(s@ =~= chunk_text(rwx.0, rwx.1, rwx.2));
    s
}

/// The permissions of `mode` in the form `rwxr-xr-x`.
pub fn format_mode(mode: u32) -> (s: String)
    ensures
        s@ == mode_text(mode),
        s@.len() == 9,
{
    let user = (mode & 0o400, mode & 0o200, mode & 0o100);
    let group = (mode & 0o040, mode & 0o020, mode & 0o010);
    let others = (mode & 0o004, mode & 0o002, mode & 0o001);
    let mut s = format_chunk(user);
    s.append(format_chunk(group).as_str());
    s.append(format_chunk(others).as_str());
    s
}

/// The settings of one run.
#[derive(Debug)]
pub struct Config {
    /// The files and directories to list.
    pub paths: Vec<String>,
    /// Show what is known of each entry, in place of its path alone.
    pub long: bool,
    /// Show the entries whose names begin with a dot.
    pub show_hidden: bool,
}

/// Whether a name begins with a dot.
pub open spec fn is_hidden(file_name: Seq<char>) -> bool {
    file_name.len() > 0 && file_name[0] == '.'
}

/// Whether an entry of a directory is listed: unless its name begins with
/// a dot and such entries are not shown.
pub fn is_listed(file_name: &str, show_hidden: bool) -> (listed: bool)
    ensures
        listed == (show_hidden || !is_hidden(file_name@)),
{
    if show_hidden {
        return true;
    }
    let name = chars_of(file_name);
    !(name.len() > 0 && name[0] == '.')
}

/// The complaint about a path that cannot be looked at.
pub fn missing(path: &str, reason: &str) -> (s: String)
    ensures
        s@ == path@ + ": "@ + reason@,
{
    let mut s = String::from_str(path);
    s.append(": ");
    s.append(reason);
    s
}

/// What is known of an entry.
#[derive(Debug)]
pub struct LongEntry {
    pub is_dir: bool,
    /// The mode bits.
    pub mode: u32,
    /// The number of links.
    pub nlink: u64,
    /// The name of the owner.
    pub user: String,
    /// The name of the group.
    pub group: String,
    /// The size in bytes.
    pub size: u64,
    /// When it was last modified, in seconds since 1970.
    pub modified: i64,
    pub path: String,
}

/// How the columns of the long listing are laid out.
pub open spec fn listing_spec() -> Seq<char> {
    "{:<}{:<}  {:>}  {:<}  {:<}  {:>}  {:<}  {:<}"@
}

/// The number of columns that `Table::new_safe` finds in a row
/// specification, which `Table::column_count` hands out, or nothing where
/// the specification is malformed.
pub uninterp spec fn row_spec_columns(spec: Seq<char>) -> Option<nat>;

/// What the `Display` of a `Table` writes. The table is the one that
/// `Table::new` makes of the row specification and to which `add_row` has
/// given the rows of cells in order: so the text depends on the
/// specification and the cells alone.
pub uninterp spec fn table_text(spec: Seq<char>, rows: Seq<Seq<Seq<char>>>) -> Seq<char>;

/// What `DateTime::format` writes with `%b %d %g` for the moment so many
/// seconds after the start of 1970 in universal time, or nothing where
/// `DateTime::from_timestamp` has no such moment.
pub uninterp spec fn modified_text(seconds: int) -> Option<Seq<char>>;

/// The cells of each row.
pub open spec fn cell_texts(rows: Seq<Vec<String>>) -> Seq<Seq<Seq<char>>> {
    Seq::new(rows.len(), |k: int| texts(rows[k]@))
}

/// `Table::new_safe` and `Table::column_count`: the number of columns of
/// a row specification.
#[verifier::external_body]
fn spec_columns(spec: &str) -> (n: Option<usize>)
    ensures
        match row_spec_columns(spec@) {
            Some(c) => n == Some(c as usize) && c <= usize::MAX,
            None => n is None,
        },
{
    Table::new_safe(spec).ok().map(|t| t.column_count())
}

/// The `Display` of a `Table`: the rows set out as a table. `Table::new`
/// and `Table::add_row` with `Row::from_cells` turn the row specification
/// and the cells into the table that is written.
#[verifier::external_body]
fn render_table(spec: &str, rows: &Vec<Vec<String>>) -> (out: String)
    requires
        row_spec_columns(spec@) is Some,
        forall|k: int|
            0 <= k < rows@.len() ==> (#[trigger] rows@[k])@.len() == row_spec_columns(
                spec@,
            )->Some_0,
    ensures
        out@ == table_text(spec@, cell_texts(rows@)),
{
    let mut table = Table::new(spec);
    for row in rows {
        table.add_row(Row::from_cells(row.iter().cloned()));
    }
    table.to_string()
}

/// `DateTime::format`: the moment `seconds` after the start of 1970, as
/// month, day and year of the week. `DateTime::from_timestamp` turns the
/// seconds into the moment that is written.
#[verifier::external_body]
fn format_modified(seconds: i64) -> (out: Option<String>)
    ensures
        match modified_text(seconds as int) {
            Some(text) => out is Some && out->Some_0@ == text,
            None => out is None,
        },
{
    DateTime::from_timestamp(seconds, 0).map(|moment| moment.format("%b %d %g").to_string())
}

/// The cells of the long listing for one entry: a `d` for a directory and
/// a hyphen for anything else, the permissions, the number of links, owner,
/// group, size, the time of the last change as given, and the path.
pub open spec fn entry_cells(entry: &LongEntry, modified: Seq<char>) -> Seq<Seq<char>> {
    seq![
        seq![if entry.is_dir {
            'd'
        } else {
            '-'
        }],
        mode_text(entry.mode),
        decimal_repr(entry.nlink as nat),
        entry.user@,
        entry.group@,
        decimal_repr(entry.size as nat),
        modified,
        entry.path@,
    ]
}

/// The cells of the long listing for `entry`, with `modified` as the
/// time of its last change.
pub fn format_entry(entry: &LongEntry, modified: &str) -> (cells: Vec<String>)
    ensures
        texts(cells@) == entry_cells(entry, modified@),
{
    let mut cells: Vec<String> = Vec::new();
    let mut kind = String::new();
    push_char(&mut kind, if entry.is_dir { 'd' } else { '-' });
    cells.push(kind);
    cells.push(format_mode(entry.mode));
    cells.push(string_of(render(entry.nlink).as_slice()));
    cells.push(entry.user.clone());
    cells.push(entry.group.clone());
    cells.push(string_of(render(entry.size).as_slice()));
    cells.push(String::from_str(modified));
    cells.push(entry.path.clone());
    assert(texts(cells@) =~= entry_cells(entry, modified@));
    cells
}

/// The rows of the long listing, or nothing where the time of some entry
/// cannot be written.
pub open spec fn listing_rows(entries: Seq<LongEntry>) -> Option<Seq<Seq<Seq<char>>>>
    decreases entries.len(),
{
    if entries.len() == 0 {
        Some(Seq::empty())
    } else {
        match listing_rows(entries.drop_last()) {
            None => None,
            Some(rows) => match modified_text(entries.last().modified as int) {
                None => None,
                Some(text) => Some(rows.push(entry_cells(&entries.last(), text))),
            },
        }
    }
}

/// Once an entry has no time that can be written, the listing has no rows
/// whatever follows.
pub proof fn no_rows_stays(entries: Seq<LongEntry>, k: int)
    requires
        0 <= k <= entries.len(),
    ensures
        listing_rows(entries.take(k)) is None ==> listing_rows(entries) is None,
    decreases entries.len() - k,
{
    if k < entries.len() {
        no_rows_stays(entries, k + 1);
        assert(entries.take(k + 1).drop_last() =~= entries.take(k));
    } else {
        assert(entries.take(k) =~= entries);
    }
}

/// The long listing of the entries as a table, one line for each, or
/// nothing where the table cannot be set out.
pub fn format_output(entries: &[LongEntry]) -> (out: Option<String>)
    ensures
        match listing_rows(entries@) {
            Some(rows) => if row_spec_columns(listing_spec()) == Some(8nat) {
                out is Some && out->Some_0@ == table_text(listing_spec(), rows)
            } else {
                out is None
            },
            None => out is None,
        },
{
    let spec = "{:<}{:<}  {:>}  {:<}  {:<}  {:>}  {:<}  {:<}";
    let mut rows: Vec<Vec<String>> = Vec::new();
    let mut i: usize = 0;
    while i < entries.len()
        invariant
            0 <= i <= entries@.len(),
            listing_rows(entries@.take(i as int)) == Some(cell_texts(rows@)),
            forall|k: int| 0 <= k < rows@.len() ==> (#[trigger] rows@[k])@.len() == 8,
        decreases entries@.len() - i,
    {
        proof {
            assert(entries@.take(i + 1).drop_last() =~= entries@.take(i as int));
            assert(entries@.take(i + 1).last() == entries@[i as int]);
            no_rows_stays(entries@, i + 1);
        }
        match format_modified(entries[i].modified) {
            None => {
                return None;
            },
            Some(modified) => {
                let ghost before = cell_texts(rows@);
                let cells = format_entry(&entries[i], modified.as_str());
                assert(cells@.len() == texts(cells@).len());
                rows.push(cells);
                assert(cell_texts(rows@) =~= before.push(
                    entry_cells(&entries@[i as int], modified@),
                ));
            },
        }
        i = i + 1;
    }
    assert(entries@.take(i as int) =~= entries@);
    match spec_columns(spec) {
        Some(8) => Some(render_table(spec, &rows)),
        _ => None,
    }
}

} // verus!
