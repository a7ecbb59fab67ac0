//! Desktop entries: the applications of a profile that have a window of
//! their own.

use crate::text::{bytes_eq_str, bytes_of, copy_bytes, copy_range, deep, lit, records, records_of};
use crate::text::{split, split_bytes, starts_with, starts_with_str, trim, trim_bytes, Delim};
use vstd::prelude::*;

verus! {

/// An application that a desktop entry describes.
#[derive(Debug, PartialEq, Eq)]
pub struct DesktopFile {
    /// Its name.
    pub name: Vec<u8>,
    /// The command that starts it.
    pub command: Vec<u8>,
    /// What it is, in a few words.
    pub comment: Option<Vec<u8>>,
}

/// What the lines read so far say.
pub struct Scan {
    pub name: Option<Seq<u8>>,
    pub command: Option<Seq<u8>>,
    pub comment: Option<Seq<u8>>,
    /// Whether the entry is not to be shown.
    pub hidden: bool,
}

/// What is known before any line is read.
pub open spec fn nothing_read() -> Scan {
    Scan { name: None, command: None, comment: None, hidden: false }
}

/// The value of a line that starts with `key`, trimmed.
pub open spec fn value_of(line: Seq<u8>, key: Seq<u8>) -> Seq<u8> {
    trim(line.skip(key.len() as int))
}

/// Whether a list of categories, separated by semicolons, names the
/// category of programs for the console.
pub open spec fn console_only(value: Seq<u8>) -> bool {
    split(value, Delim::Byte(59)).contains(lit("ConsoleOnly"))
}

/// What is known after one more line. A later `Exec`, `Name` or `Comment`
/// replaces an earlier one. An entry that asks not to be displayed, needs a
/// terminal or is for the console only is hidden, and stays hidden.
pub open spec fn scan_line(state: Scan, line: Seq<u8>) -> Scan {
    if starts_with(line, lit("Exec=")) {
        Scan { command: Some(value_of(line, lit("Exec="))), ..state }
    } else if starts_with(line, lit("Name=")) {
        Scan { name: Some(value_of(line, lit("Name="))), ..state }
    } else if starts_with(line, lit("Comment=")) {
        Scan { comment: Some(value_of(line, lit("Comment="))), ..state }
    } else if starts_with(line, lit("NoDisplay=true")) || starts_with(line, lit("Terminal=true")) {
        Scan { hidden: true, ..state }
    } else if starts_with(line, lit("Categories=")) && console_only(
        value_of(line, lit("Categories=")),
    ) {
        Scan { hidden: true, ..state }
    } else {
        state
    }
}

/// What is known after all the lines.
pub open spec fn scan(lines: Seq<Seq<u8>>) -> Scan
    decreases lines.len(),
{
    if lines.len() == 0 {
        nothing_read()
    } else {
        scan_line(scan(lines.drop_last()), lines.last())
    }
}

/// The name, command and comment of the application that a desktop entry
/// with the given contents describes: there is one if the entry is not
/// hidden and has both a name and a command.
pub open spec fn desktop_entry(content: Seq<u8>) -> Option<(Seq<u8>, Seq<u8>, Option<Seq<u8>>)> {
    let s = scan(records(content, Delim::Byte(10)));
    if !s.hidden && s.name is Some && s.command is Some {
        Some((s.name.unwrap(), s.command.unwrap(), s.comment))
    } else {
        None
    }
}

/// The bytes that an optional vector holds.
pub open spec fn opt_bytes(v: Option<Vec<u8>>) -> Option<Seq<u8>> {
    match v {
        Some(bytes) => Some(bytes@),
        None => None,
    }
}

/// The value of a line that starts with `key`, trimmed; nothing for a line
/// that starts otherwise.
fn keyed(line: &Vec<u8>, key: &str) -> (out: Option<Vec<u8>>)
    ensures
        match out {
            Some(value) => starts_with(line@, lit(key)) && value@ == value_of(line@, lit(key)),
            None => !starts_with(line@, lit(key)),
        },
{
    if !starts_with_str(line, key) {
        return None;
    }
    let skip = key.as_bytes().len();
    let rest = copy_range(line, skip, line.len());
    assert(rest@ =~= line@.skip(skip as int));
    Some(trim_bytes(&rest))
}

/// Whether a list of categories names the category of programs for the
/// console.
pub fn is_console_only(value: &Vec<u8>) -> (yes: bool)
    ensures
        yes == console_only(value@),
{
    let items = split_bytes(value, Delim::Byte(59));
    let ghost all = deep(&items);
    let mut i: usize = 0;
    while i < items.len()
        invariant
            i <= items.len(),
            all == deep(&items),
            all == split(value@, Delim::Byte(59)),
            forall|k: int| 0 <= k < i ==> #[trigger] all[k] != lit("ConsoleOnly"),
        decreases items.len() - i,
    {
        if bytes_eq_str(&items[i], "ConsoleOnly") {
            assert(all[i as int] == lit("ConsoleOnly"));
            return true;
        }
        i += 1;
    }
    false
}

impl DesktopFile {
    /// Reads a desktop entry.
    pub fn parse_file(content: &Vec<u8>) -> (out: Option<DesktopFile>)
        ensures
            match out {
                Some(d) => desktop_entry(content@) == Some((d.name@, d.command@, opt_bytes(d.comment))),
                None => desktop_entry(content@).is_none(),
            },
    {
        let lines = records_of(content, Delim::Byte(10));
        let ghost all = deep(&lines);
        let mut name: Option<Vec<u8>> = None;
        let mut command: Option<Vec<u8>> = None;
        let mut comment: Option<Vec<u8>> = None;
        let mut hidden = false;
        let mut i: usize = 0;
        assert(all.take(0) =~= Seq::<Seq<u8>>::empty());
        while i < lines.len()
            invariant
                i <= lines.len(),
                all == deep(&lines),
                scan(all.take(i as int)) == (Scan {
                    name: opt_bytes(name),
                    command: opt_bytes(command),
                    comment: opt_bytes(comment),
                    hidden,
                }),
            decreases lines.len() - i,
        {
            let line = &lines[i];
            proof {
                assert(all.take(i + 1).drop_last() =~= all.take(i as int));
                assert(all.take(i + 1).last() == line@);
            }
            if let Some(value) = keyed(line, "Exec=") {
                command = Some(value);
            } else if let Some(value) = keyed(line, "Name=") {
                name = Some(value);
            } else if let Some(value) = keyed(line, "Comment=") {
                comment = Some(value);
            } else if starts_with_str(line, "NoDisplay=true") || starts_with_str(
                line,
                "Terminal=true",
            ) {
                hidden = true;
            } else if let Some(value) = keyed(line, "Categories=") {
                if is_console_only(&value) {
                    hidden = true;
                }
            }
            i += 1;
        }
        assert(all.take(all.len() as int) =~= all);
        if hidden {
            return None;
        }
        match (name, command) {
            (Some(name), Some(command)) => Some(DesktopFile { name, command, comment }),
            _ => None,
        }
    }
}

/// The header of the list of applications.
pub open spec fn list_header() -> Seq<Seq<u8>> {
    seq![lit("ID"), lit("NAME"), lit("COMMAND"), lit("COMMENT")]
}

/// The row of the application `id` with the given desktop entry, if the
/// entry describes one that is shown: its id, name, command and comment.
pub open spec fn list_row(id: Seq<u8>, content: Seq<u8>) -> Option<Seq<Seq<u8>>> {
    match desktop_entry(content) {
        Some((name, command, comment)) => Some(
            seq![
                id,
                name,
                command,
                match comment {
                    Some(text) => text,
                    None => Seq::empty(),
                },
            ],
        ),
        None => None,
    }
}

/// The rows of the applications that are shown, in the order of the entries.
pub open spec fn list_rows(entries: Seq<(Seq<u8>, Seq<u8>)>) -> Seq<Seq<Seq<u8>>>
    decreases entries.len(),
{
    if entries.len() == 0 {
        Seq::empty()
    } else {
        let front = list_rows(entries.drop_last());
        match list_row(entries.last().0, entries.last().1) {
            Some(row) => front.push(row),
            None => front,
        }
    }
}

/// The ids and contents that a vector of entries holds.
pub open spec fn entry_views(entries: &Vec<(Vec<u8>, Vec<u8>)>) -> Seq<(Seq<u8>, Seq<u8>)> {
    Seq::new(entries@.len(), |i: int| (entries@[i].0@, entries@[i].1@))
}

/// The cells that a vector of rows holds.
pub open spec fn row_views(rows: &Vec<Vec<Vec<u8>>>) -> Seq<Seq<Seq<u8>>> {
    Seq::new(rows@.len(), |i: int| deep(&rows@[i]))
}

/// The header of the list of applications.
pub fn header() -> (out: Vec<Vec<u8>>)
    ensures
        deep(&out) == list_header(),
{
    let mut out: Vec<Vec<u8>> = Vec::new();
    out.push(bytes_of("ID"));
    out.push(bytes_of("NAME"));
    out.push(bytes_of("COMMAND"));
    out.push(bytes_of("COMMENT"));
    assert(deep(&out) =~= list_header());
    out
}

/// Lists the applications among `entries`, pairs of the id of a desktop
/// entry and its contents: one row for each that is shown.
pub fn list(entries: &Vec<(Vec<u8>, Vec<u8>)>) -> (rows: Vec<Vec<Vec<u8>>>)
    ensures
        row_views(&rows) == list_rows(entry_views(entries)),
{
    let ghost all = entry_views(entries);
    let mut rows: Vec<Vec<Vec<u8>>> = Vec::new();
    let mut i: usize = 0;
    assert(row_views(&rows) =~= Seq::<Seq<Seq<u8>>>::empty());
    assert(all.take(0) =~= Seq::<(Seq<u8>, Seq<u8>)>::empty());
    while i < entries.len()
        invariant
            i <= entries.len(),
            all == entry_views(entries),
            row_views(&rows) == list_rows(all.take(i as int)),
        decreases entries.len() - i,
    {
        let ghost before = row_views(&rows);
        proof {
            assert(all.take(i + 1).drop_last() =~= all.take(i as int));
            assert(all.take(i + 1).last() == (entries@[i as int].0@, entries@[i as int].1@));
        }
        match DesktopFile::parse_file(&entries[i].1) {
            Some(d) => {
                let mut row: Vec<Vec<u8>> = Vec::new();
                row.push(copy_bytes(&entries[i].0));
                row.push(d.name);
                row.push(d.command);
                row.push(
                    match d.comment {
                        Some(text) => text,
                        None => Vec::new(),
                    },
                );
                let ghost cells = deep(&row);
                assert(Some(cells) =~= list_row(entries@[i as int].0@, entries@[i as int].1@));
                rows.push(row);
                assert(row_views(&rows) =~= before.push(cells));
            },
            None => {},
        }
        i += 1;
    }
    assert(all.take(all.len() as int) =~= all);
    rows
}

} // verus!
