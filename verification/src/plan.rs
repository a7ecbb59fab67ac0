//! What the sandbox does to the system, as data.
//!
//! The library decides; its caller acts. Every decision comes out as a list
//! of [`Action`]s that the caller carries out in order, failing as a whole if
//! one that is not marked optional fails.

use crate::path::{HostPathBuf, PathModel};
use crate::text::copy_bytes;
use vstd::prelude::*;

verus! {

/// The flags of a mount request.
#[derive(Clone, Copy, Debug, PartialEq, Eq, Structural)]
pub struct MountFlags {
    /// The mount shows an existing tree at a second place.
    pub bind: bool,
    /// Mounts below the source come along.
    pub recursive: bool,
    /// Mount events do not travel between this mount and its peers.
    pub private: bool,
}

impl MountFlags {
    /// The one set of flags that the sandbox mounts with: a recursive, private
    /// bind.
    pub open spec fn spec_private_bind() -> MountFlags {
        MountFlags { bind: true, recursive: true, private: true }
    }

    /// The one set of flags that the sandbox mounts with.
    #[verifier::when_used_as_spec(spec_private_bind)]
    pub fn private_bind() -> (flags: MountFlags)
        ensures
            flags == MountFlags::spec_private_bind(),
    {
        MountFlags { bind: true, recursive: true, private: true }
    }
}

/// One thing for the caller to do.
#[derive(Debug, PartialEq, Eq)]
pub enum Action {
    /// Make this directory; that it exists already is no failure.
    CreateDir(HostPathBuf),
    /// Make this directory and the ones above it; that they exist is no
    /// failure. Where `optional` is set, no failure counts.
    CreateDirAll { path: HostPathBuf, optional: bool },
    /// Make this an empty regular file.
    CreateFile(HostPathBuf),
    /// Mount `source` on `target`, with file system type `none` and no data.
    Mount { source: HostPathBuf, target: HostPathBuf, flags: MountFlags },
    /// Make a symbolic link at `link` whose text is `text`.
    Symlink { text: Vec<u8>, link: HostPathBuf },
    /// Copy the contents of `from` to `to`. Where `optional` is set, a failure
    /// does not count.
    Copy { from: HostPathBuf, to: HostPathBuf, optional: bool },
    /// Remove the link or file at this path.
    Unlink(HostPathBuf),
    /// Remove this empty directory.
    RemoveDir(HostPathBuf),
    /// Allow or forbid writing to this path.
    SetReadOnly { path: HostPathBuf, readonly: bool },
    /// Write `data` to the file at `path`. Where `optional` is set, a failure
    /// does not count.
    WriteFile { path: HostPathBuf, data: Vec<u8>, optional: bool },
    /// Leave the current namespaces of the given kinds for new ones.
    Unshare { user: bool, mount: bool, uts: bool },
    /// Open this namespace file read-only and close-on-exec, and join the
    /// namespace.
    Setns(HostPathBuf),
    /// Make this directory the root.
    Chroot(HostPathBuf),
    /// Make this directory the working directory.
    Chdir(HostPathBuf),
    /// Go back to the working directory held before the plan began; a failure
    /// does not count.
    RestoreCwd,
    /// Set the host name.
    SetHostname(Vec<u8>),
    /// Tell the user.
    Warn(Vec<u8>),
    /// Look at `source` and at its place under `target_dir`, and carry out
    /// what the bind engine decides for the pair.
    Bind { source: HostPathBuf, target_dir: HostPathBuf },
    /// List the directory `source` and bind each entry into `target_dir`.
    BindEntries { source: HostPathBuf, target_dir: HostPathBuf },
    /// List the directory at `path` and remove each entry, directories with
    /// all they hold.
    RemoveEntries(HostPathBuf),
}

/// The mathematical content of an [`Action`].
pub enum ActionModel {
    CreateDir(PathModel),
    CreateDirAll { path: PathModel, optional: bool },
    CreateFile(PathModel),
    Mount { source: PathModel, target: PathModel, flags: MountFlags },
    Symlink { text: Seq<u8>, link: PathModel },
    Copy { from: PathModel, to: PathModel, optional: bool },
    Unlink(PathModel),
    RemoveDir(PathModel),
    SetReadOnly { path: PathModel, readonly: bool },
    WriteFile { path: PathModel, data: Seq<u8>, optional: bool },
    Unshare { user: bool, mount: bool, uts: bool },
    Setns(PathModel),
    Chroot(PathModel),
    Chdir(PathModel),
    RestoreCwd,
    SetHostname(Seq<u8>),
    Warn(Seq<u8>),
    Bind { source: PathModel, target_dir: PathModel },
    BindEntries { source: PathModel, target_dir: PathModel },
    RemoveEntries(PathModel),
}

impl View for Action {
    type V = ActionModel;

    open spec fn view(&self) -> ActionModel {
        match self {
            Action::CreateDir(p) => ActionModel::CreateDir(p@),
            Action::CreateDirAll { path, optional } => ActionModel::CreateDirAll {
                path: path@,
                optional: *optional,
            },
            Action::CreateFile(p) => ActionModel::CreateFile(p@),
            Action::Mount { source, target, flags } => ActionModel::Mount {
                source: source@,
                target: target@,
                flags: *flags,
            },
            Action::Symlink { text, link } => ActionModel::Symlink { text: text@, link: link@ },
            Action::Copy { from, to, optional } => ActionModel::Copy {
                from: from@,
                to: to@,
                optional: *optional,
            },
            Action::Unlink(p) => ActionModel::Unlink(p@),
            Action::RemoveDir(p) => ActionModel::RemoveDir(p@),
            Action::SetReadOnly { path, readonly } => ActionModel::SetReadOnly {
                path: path@,
                readonly: *readonly,
            },
            Action::WriteFile { path, data, optional } => ActionModel::WriteFile {
                path: path@,
                data: data@,
                optional: *optional,
            },
            Action::Unshare { user, mount, uts } => ActionModel::Unshare {
                user: *user,
                mount: *mount,
                uts: *uts,
            },
            Action::Setns(p) => ActionModel::Setns(p@),
            Action::Chroot(p) => ActionModel::Chroot(p@),
            Action::Chdir(p) => ActionModel::Chdir(p@),
            Action::RestoreCwd => ActionModel::RestoreCwd,
            Action::SetHostname(name) => ActionModel::SetHostname(name@),
            Action::Warn(text) => ActionModel::Warn(text@),
            Action::Bind { source, target_dir } => ActionModel::Bind {
                source: source@,
                target_dir: target_dir@,
            },
            Action::BindEntries { source, target_dir } => ActionModel::BindEntries {
                source: source@,
                target_dir: target_dir@,
            },
            Action::RemoveEntries(p) => ActionModel::RemoveEntries(p@),
        }
    }
}

/// The contents of a list of actions.
pub open spec fn views(plan: &Vec<Action>) -> Seq<ActionModel> {
    Seq::new(plan@.len(), |i: int| plan@[i]@)
}

/// Whether every mount in the plan is a recursive, private bind.
pub open spec fn mounts_private(plan: Seq<ActionModel>) -> bool {
    forall|i: int|
        0 <= i < plan.len() && (#[trigger] plan[i]) is Mount ==> plan[i]->Mount_flags
            == MountFlags::spec_private_bind()
}

/// Whether the plan mounts nothing itself.
pub open spec fn mounts_nothing(plan: Seq<ActionModel>) -> bool {
    forall|i: int| 0 <= i < plan.len() ==> !((#[trigger] plan[i]) is Mount)
}

/// The place where an action makes, fills or mounts something, if it does.
pub open spec fn place(action: ActionModel) -> Option<PathModel> {
    match action {
        ActionModel::CreateDir(path) => Some(path),
        ActionModel::CreateDirAll { path, .. } => Some(path),
        ActionModel::CreateFile(path) => Some(path),
        ActionModel::Mount { target, .. } => Some(target),
        ActionModel::Symlink { link, .. } => Some(link),
        ActionModel::Copy { to, .. } => Some(to),
        ActionModel::Bind { target_dir, .. } => Some(target_dir),
        ActionModel::BindEntries { target_dir, .. } => Some(target_dir),
        _ => None,
    }
}

/// Whether an action stays within `root`: what it makes, fills or mounts
/// lies at or below `root`. Making a directory with the ones above it may
/// also name a directory above `root`, which stands already.
pub open spec fn stays_within(action: ActionModel, root: PathModel) -> bool {
    match place(action) {
        Some(path) => path.starts_with(root) || (action is CreateDirAll && root.starts_with(path)),
        None => true,
    }
}

/// Whether every action of the plan stays within `root`.
pub open spec fn within(plan: Seq<ActionModel>, root: PathModel) -> bool {
    forall|i: int| 0 <= i < plan.len() ==> stays_within(#[trigger] plan[i], root)
}

/// Two plans that stay within `root` make one such plan.
pub proof fn lemma_within_add(a: Seq<ActionModel>, b: Seq<ActionModel>, root: PathModel)
    requires
        within(a, root),
        within(b, root),
    ensures
        within(a + b, root),
{
    assert forall|i: int| 0 <= i < (a + b).len() implies stays_within(
        #[trigger] (a + b)[i],
        root,
    ) by {
        if i < a.len() {
            assert((a + b)[i] == a[i]);
        } else {
            assert((a + b)[i] == b[i - a.len()]);
        }
    }
}

/// Adds one action to the end of a plan.
pub fn push_action(plan: &mut Vec<Action>, action: Action)
    ensures
        views(final(plan)) == views(old(plan)).push(action@),
{
    plan.push(action);
    assert(views(plan) =~= views(old(plan)).push(action@));
}

/// Moves the actions of `more` to the end of `plan`.
pub fn append_actions(plan: &mut Vec<Action>, more: Vec<Action>)
    ensures
        views(final(plan)) == views(old(plan)) + views(&more),
{
    let mut more = more;
    let ghost tail = views(&more);
    plan.append(&mut more);
    assert(views(plan) =~= views(old(plan)) + tail);
}

/// The request to mount `source` on `target` as a recursive, private bind.
pub fn bind_mount(source: &HostPathBuf, target: &HostPathBuf) -> (action: Action)
    ensures
        action@ == (ActionModel::Mount {
            source: source@,
            target: target@,
            flags: MountFlags::spec_private_bind(),
        }),
{
    Action::Mount {
        source: source.clone(),
        target: target.clone(),
        flags: MountFlags::private_bind(),
    }
}

/// The warning with the given text.
pub fn warn(text: &Vec<u8>) -> (action: Action)
    ensures
        action@ == ActionModel::Warn(text@),
{
    Action::Warn(copy_bytes(text))
}

} // verus!
