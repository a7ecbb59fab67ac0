//! `tmpfiles.d` directives.
//!
//! Of all directives only one form is honoured: `L+ <target> - - - - <source>`,
//! seven fields separated by whitespace, which asks for a symbolic link at
//! `<target>` with the text `<source>`. Every other line is passed over.

use crate::path::{lemma_parent_near, lemma_under_starts, parse_path, HostPathBuf, PathModel};
use crate::path::SEPARATOR;
use crate::plan::{append_actions, mounts_nothing, push_action, views, Action, ActionModel};
use crate::plan::{lemma_within_add, within};
use crate::text::{bytes_eq_str, copy_bytes, deep, fields, fields_of, lit, records, records_of};
use crate::text::Delim;
use vstd::prelude::*;

verus! {

/// The byte that ends a line.
pub const LINE_FEED: u8 = 10;

/// The target and the source of the link that `line` asks for, if it asks
/// for one.
pub open spec fn link_directive(line: Seq<u8>) -> Option<(Seq<u8>, Seq<u8>)> {
    let f = fields(line, Delim::AsciiWhitespace);
    if f.len() == 7 && f[0] == lit("L+") && f[2] == lit("-") && f[3] == lit("-") && f[4] == lit("-")
        && f[5] == lit("-") {
        Some((f[1], f[6]))
    } else {
        None
    }
}

/// What one line asks of the sandbox rooted at `chroot`: for a link directive
/// whose target starts with a separator, the directory that will hold the
/// link and then the link, both below `chroot`; for anything else, nothing.
pub open spec fn line_plan(chroot: PathModel, line: Seq<u8>) -> Seq<ActionModel> {
    match link_directive(line) {
        Some((target, source)) => if target.len() > 0 && target[0] == SEPARATOR {
            let link = chroot.under(parse_path(target));
            seq![
                ActionModel::CreateDirAll { path: link.parent_or_root(), optional: false },
                ActionModel::Symlink { text: source, link },
            ]
        } else {
            Seq::empty()
        },
        None => Seq::empty(),
    }
}

/// What the lines ask, one after the other.
pub open spec fn lines_plan(chroot: PathModel, lines: Seq<Seq<u8>>) -> Seq<ActionModel>
    decreases lines.len(),
{
    if lines.len() == 0 {
        Seq::empty()
    } else {
        lines_plan(chroot, lines.drop_last()) + line_plan(chroot, lines.last())
    }
}

/// What the contents of one `tmpfiles.d` file ask.
pub open spec fn file_plan(chroot: PathModel, content: Seq<u8>) -> Seq<ActionModel> {
    lines_plan(chroot, records(content, Delim::Byte(LINE_FEED)))
}

/// Reads one line: the target and the source of the link it asks for.
pub fn parse_line(line: &Vec<u8>) -> (out: Option<(Vec<u8>, Vec<u8>)>)
    ensures
        match out {
            Some((target, source)) => link_directive(line@) == Some((target@, source@)),
            None => link_directive(line@).is_none(),
        },
{
    let f = fields_of(line, Delim::AsciiWhitespace);
    if f.len() != 7 {
        return None;
    }
    assert(forall|i: int| 0 <= i < 7 ==> deep(&f)[i] == f@[i]@);
    if bytes_eq_str(&f[0], "L+") && bytes_eq_str(&f[2], "-") && bytes_eq_str(&f[3], "-")
        && bytes_eq_str(&f[4], "-") && bytes_eq_str(&f[5], "-") {
        Some((copy_bytes(&f[1]), copy_bytes(&f[6])))
    } else {
        None
    }
}

/// The actions that one line asks of the sandbox rooted at `chroot`.
pub fn plan_line(chroot: &HostPathBuf, line: &Vec<u8>) -> (plan: Vec<Action>)
    ensures
        views(&plan) == line_plan(chroot@, line@),
{
    let mut plan: Vec<Action> = Vec::new();
    assert(views(&plan) =~= Seq::empty());
    match parse_line(line) {
        Some((target, source)) => {
            if target.len() > 0 && target[0] == SEPARATOR {
                let link = chroot.under(&HostPathBuf::from_bytes(&target));
                push_action(
                    &mut plan,
                    Action::CreateDirAll { path: link.parent_or_root(), optional: false },
                );
                push_action(&mut plan, Action::Symlink { text: source, link });
                assert(views(&plan) =~= line_plan(chroot@, line@));
            }
        },
        None => {},
    }
    plan
}

/// The actions that the contents of one `tmpfiles.d` file ask of the sandbox
/// rooted at `chroot`.
pub fn plan_file(chroot: &HostPathBuf, content: &Vec<u8>) -> (plan: Vec<Action>)
    ensures
        views(&plan) == file_plan(chroot@, content@),
{
    let lines = records_of(content, Delim::Byte(LINE_FEED));
    let ghost all = deep(&lines);
    let mut plan: Vec<Action> = Vec::new();
    let mut i: usize = 0;
    assert(views(&plan) =~= Seq::empty());
    assert(all.take(0) =~= Seq::<Seq<u8>>::empty());
    while i < lines.len()
        invariant
            i <= lines.len(),
            all == deep(&lines),
            views(&plan) == lines_plan(chroot@, all.take(i as int)),
        decreases lines.len() - i,
    {
        let more = plan_line(chroot, &lines[i]);
        append_actions(&mut plan, more);
        proof {
            assert(all.take(i + 1).drop_last() =~= all.take(i as int));
            assert(all.take(i + 1).last() == lines@[i as int]@);
        }
        i += 1;
    }
    assert(all.take(all.len() as int) =~= all);
    plan
}

/// A line that is no link directive asks for nothing.
pub proof fn lemma_other_lines_ignored(chroot: PathModel, line: Seq<u8>)
    requires
        link_directive(line).is_none(),
    ensures
        line_plan(chroot, line) == Seq::<ActionModel>::empty(),
{
}

/// A link directive whose target does not start with a separator asks for
/// nothing.
pub proof fn lemma_relative_target_skipped(chroot: PathModel, line: Seq<u8>)
    requires
        link_directive(line) is Some,
        link_directive(line).unwrap().0.len() == 0 || link_directive(line).unwrap().0[0]
            != SEPARATOR,
    ensures
        line_plan(chroot, line) == Seq::<ActionModel>::empty(),
{
}

/// Every link that a line asks for lies below the sandbox root.
pub proof fn lemma_links_below_root(chroot: PathModel, line: Seq<u8>)
    ensures
        forall|i: int|
            0 <= i < line_plan(chroot, line).len() && (#[trigger] line_plan(chroot, line)[i])
                is Symlink ==> line_plan(chroot, line)[i]->Symlink_link.starts_with(chroot),
        mounts_nothing(line_plan(chroot, line)),
{
    match link_directive(line) {
        Some((target, source)) => {
            let link = chroot.under(parse_path(target));
            assert(link.parts.subrange(0, chroot.parts.len() as int) =~= chroot.parts);
        },
        None => {},
    }
}

/// Whatever a line asks for lies at or below the sandbox root.
pub proof fn lemma_line_within(chroot: PathModel, line: Seq<u8>)
    ensures
        within(line_plan(chroot, line), chroot),
{
    match link_directive(line) {
        Some((target, source)) => {
            let link = chroot.under(parse_path(target));
            lemma_under_starts(chroot, parse_path(target));
            lemma_parent_near(chroot, link);
        },
        None => {},
    }
}

/// Whatever the lines of a file ask for lies at or below the sandbox root.
pub proof fn lemma_lines_within(chroot: PathModel, lines: Seq<Seq<u8>>)
    ensures
        within(lines_plan(chroot, lines), chroot),
    decreases lines.len(),
{
    if lines.len() > 0 {
        lemma_lines_within(chroot, lines.drop_last());
        lemma_line_within(chroot, lines.last());
        lemma_within_add(
            lines_plan(chroot, lines.drop_last()),
            line_plan(chroot, lines.last()),
            chroot,
        );
    }
}

} // verus!
