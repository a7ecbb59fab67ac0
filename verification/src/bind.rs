//! The bind engine: how one host path is shown inside a target directory.
//!
//! A directory is mounted where nothing stands yet and merged, entry by
//! entry, where a directory stands already. Merging instead of mounting over
//! is what lets the guest's `/etc` and the host's `/etc` share one directory.

use crate::path::{HostPathBuf, PathModel};
use crate::plan::{bind_mount, mounts_nothing, mounts_private, push_action, views, within};
use crate::plan::{Action, ActionModel, MountFlags};
use crate::snapshot::{Node, NodeModel};
use crate::text::{append_bytes, bytes_of, copy_bytes, lit};
use vstd::prelude::*;

verus! {

/// What stands at the place where a source is to appear, links followed.
#[derive(Clone, Copy, Debug, PartialEq, Eq, Structural)]
pub enum TargetKind {
    /// Nothing.
    Missing,
    /// A directory.
    Dir,
    /// Something that is not a directory.
    Other,
}

/// Why a source cannot be bound.
#[derive(Clone, Copy, Debug, PartialEq, Eq, Structural)]
pub enum BindError {
    /// The source path has no last name to appear under.
    NoFileName,
    /// The source is missing or could not be examined.
    Stat,
}

/// The text of the warning about a source that is neither directory, file
/// nor link.
pub open spec fn unknown_kind_warning(source: PathModel) -> Seq<u8> {
    lit("Could not bind: unknown kind of file: ") + source.render()
}

/// What binding a directory onto `target` takes: where nothing stands, the
/// directory is made and the source mounted on it; where a directory stands,
/// the entries are bound one by one and nothing is mounted over it; where
/// something else stands, nothing is done.
pub open spec fn bind_dir_plan(source: PathModel, target: PathModel, target_kind: TargetKind) -> Seq<
    ActionModel,
> {
    match target_kind {
        TargetKind::Missing => seq![
            ActionModel::CreateDirAll { path: target, optional: false },
            ActionModel::Mount { source, target, flags: MountFlags::spec_private_bind() },
        ],
        TargetKind::Dir => seq![ActionModel::BindEntries { source, target_dir: target }],
        TargetKind::Other => Seq::empty(),
    }
}

/// What binding a regular file onto `target` takes: an empty placeholder,
/// then the source mounted on it.
pub open spec fn bind_file_plan(source: PathModel, target: PathModel) -> Seq<ActionModel> {
    seq![
        ActionModel::CreateFile(target),
        ActionModel::Mount { source, target, flags: MountFlags::spec_private_bind() },
    ]
}

/// What binding a link onto `target` takes: a link with the same text.
pub open spec fn bind_symlink_plan(text: Seq<u8>, target: PathModel) -> Seq<ActionModel> {
    seq![ActionModel::Symlink { text, link: target }]
}

/// What binding `source`, found to be `node`, onto `target` takes.
pub open spec fn bind_plan(
    source: PathModel,
    target: PathModel,
    node: NodeModel,
    target_kind: TargetKind,
) -> Seq<ActionModel> {
    match node {
        NodeModel::Dir => bind_dir_plan(source, target, target_kind),
        NodeModel::File => bind_file_plan(source, target),
        NodeModel::Symlink(text) => bind_symlink_plan(text.render(), target),
        NodeModel::Other => seq![ActionModel::Warn(unknown_kind_warning(source))],
        NodeModel::Missing | NodeModel::Unreadable => Seq::empty(),
    }
}

/// Binds the directory `source` onto `target`.
pub fn bind_dir(source: &HostPathBuf, target: &HostPathBuf, target_kind: TargetKind) -> (plan: Vec<
    Action,
>)
    ensures
        views(&plan) == bind_dir_plan(source@, target@, target_kind),
{
    let mut plan: Vec<Action> = Vec::new();
    assert(views(&plan) =~= Seq::empty());
    match target_kind {
        TargetKind::Missing => {
            push_action(&mut plan, Action::CreateDirAll { path: target.clone(), optional: false });
            push_action(&mut plan, bind_mount(source, target));
            assert(views(&plan) =~= bind_dir_plan(source@, target@, target_kind));
        },
        TargetKind::Dir => {
            push_action(
                &mut plan,
                Action::BindEntries { source: source.clone(), target_dir: target.clone() },
            );
            assert(views(&plan) =~= bind_dir_plan(source@, target@, target_kind));
        },
        TargetKind::Other => {},
    }
    plan
}

/// Binds the regular file `source` onto `target`.
pub fn bind_file(source: &HostPathBuf, target: &HostPathBuf) -> (plan: Vec<Action>)
    ensures
        views(&plan) == bind_file_plan(source@, target@),
{
    let mut plan: Vec<Action> = Vec::new();
    assert(views(&plan) =~= Seq::empty());
    push_action(&mut plan, Action::CreateFile(target.clone()));
    push_action(&mut plan, bind_mount(source, target));
    assert(views(&plan) =~= bind_file_plan(source@, target@));
    plan
}

/// Replicates a link with the given text at `target`.
pub fn bind_symlink(text: &Vec<u8>, target: &HostPathBuf) -> (plan: Vec<Action>)
    ensures
        views(&plan) == bind_symlink_plan(text@, target@),
{
    let mut plan: Vec<Action> = Vec::new();
    assert(views(&plan) =~= Seq::empty());
    push_action(&mut plan, Action::Symlink { text: copy_bytes(text), link: target.clone() });
    assert(views(&plan) =~= bind_symlink_plan(text@, target@));
    plan
}

/// The place where `source` appears under `target_dir`: `target_dir` with
/// the last name of `source`. A source without a last name has no place.
pub fn target_of(source: &HostPathBuf, target_dir: &HostPathBuf) -> (out: Option<HostPathBuf>)
    ensures
        match out {
            Some(target) => source@.file_name() is Some && target@ == target_dir@.push(
                source@.file_name().unwrap(),
            ),
            None => source@.file_name().is_none(),
        },
{
    match source.file_name() {
        Some(name) => {
            source.well_formed();
            assert(source@.parts.last() == name@);
            Some(target_dir.push_name(&name))
        },
        None => None,
    }
}

/// Decides how `source` appears under `target_dir`, as `target_dir` joined
/// with the last name of `source`.
///
/// `node` is what a look at `source` found, links not followed; `target_kind`
/// is what stands at the target, links followed. A source without a last
/// name, or one that is missing or unreadable, cannot be bound.
pub fn bind(source: &HostPathBuf, target_dir: &HostPathBuf, node: &Node, target_kind: TargetKind) -> (out:
    Result<Vec<Action>, BindError>)
    ensures
        match out {
            Ok(plan) => {
                &&& source@.file_name() is Some
                &&& !(node@ is Missing) && !(node@ is Unreadable)
                &&& views(&plan) == bind_plan(
                    source@,
                    target_dir@.push(source@.file_name().unwrap()),
                    node@,
                    target_kind,
                )
            },
            Err(BindError::NoFileName) => source@.file_name() is None,
            Err(BindError::Stat) => source@.file_name() is Some && (node@ is Missing
                || node@ is Unreadable),
        },
        out is Ok ==> mounts_private(views(&out.unwrap())),
{
    let target = match target_of(source, target_dir) {
        Some(target) => target,
        None => {
            return Err(BindError::NoFileName);
        },
    };
    match node {
        Node::Missing => Err(BindError::Stat),
        Node::Unreadable => Err(BindError::Stat),
        Node::Dir => Ok(bind_dir(source, &target, target_kind)),
        Node::File => Ok(bind_file(source, &target)),
        Node::Symlink(text) => {
            let bytes = text.to_bytes();
            Ok(bind_symlink(&bytes, &target))
        },
        Node::Other => {
            let mut message = bytes_of("Could not bind: unknown kind of file: ");
            let rendered = source.to_bytes();
            append_bytes(&mut message, &rendered);
            let mut plan: Vec<Action> = Vec::new();
            assert(views(&plan) =~= Seq::empty());
            push_action(&mut plan, Action::Warn(message));
            assert(views(&plan) =~= seq![ActionModel::Warn(unknown_kind_warning(source@))]);
            Ok(plan)
        },
    }
}

/// A directory bound onto a directory that stands already is merged: its
/// entries are bound one by one, and nothing is mounted over the target.
pub proof fn lemma_merge_does_not_overmount(source: PathModel, target: PathModel)
    ensures
        bind_plan(source, target, NodeModel::Dir, TargetKind::Dir) == seq![
            ActionModel::BindEntries { source, target_dir: target },
        ],
        mounts_nothing(bind_plan(source, target, NodeModel::Dir, TargetKind::Dir)),
{
}

/// Whatever is bound, every mount it takes is a recursive, private bind.
pub proof fn lemma_bind_mounts_private(
    source: PathModel,
    target: PathModel,
    node: NodeModel,
    target_kind: TargetKind,
)
    ensures
        mounts_private(bind_plan(source, target, node, target_kind)),
{
}

/// Whatever is bound appears at or below the directory that it is bound
/// into.
pub proof fn lemma_bind_within(
    source: PathModel,
    target_dir: PathModel,
    name: Seq<u8>,
    node: NodeModel,
    target_kind: TargetKind,
)
    ensures
        within(bind_plan(source, target_dir.push(name), node, target_kind), target_dir),
{
    let target = target_dir.push(name);
    assert(target.parts.subrange(0, target_dir.parts.len() as int) =~= target_dir.parts);
    assert(target.starts_with(target_dir));
}

} // verus!
