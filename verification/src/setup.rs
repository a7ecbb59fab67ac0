//! The sandbox builder: the whole plan that turns an empty directory into
//! the guest's root and enters it.
//!
//! The plan has a fixed order. The process first leaves the host's
//! namespaces and maps its own user and group. Then the guest's view is
//! assembled: the OpenGL driver, the guest's `/etc`, the trust bundle,
//! `/usr/share`, the links of the system profile; after them the common
//! binds (the store, the home, the host's root and its top-level
//! directories); last the links that `tmpfiles.d` asks for. The root is
//! then made read-only and entered.
//!
//! The common binds come after the guest's view because they bring whole
//! host trees into the root, and the merging of directories that the
//! earlier steps rely on must not walk into those.

use crate::certs::{certs_plan, copy_certs, path_views};
use crate::config::Config;
use crate::decimal::{decimal, push_decimal};
use crate::path::{lemma_join_starts, lemma_parent_near, lemma_relative_text};
use crate::path::{lemma_starts_with_trans, lemma_under_starts, parse_path, HostPathBuf, PathModel};
use crate::plan::{append_actions, bind_mount, lemma_within_add, push_action, views, within};
use crate::plan::{Action, ActionModel, MountFlags};
use crate::snapshot::{Node, NodeModel};
use crate::text::{append_bytes, append_str, bytes_eq, bytes_of, copy_bytes, deep, lit};
use crate::tmpfiles::{file_plan, plan_file};
use vstd::prelude::*;

verus! {

/// The path that `s` denotes.
pub open spec fn abs(s: &str) -> PathModel {
    parse_path(lit(s))
}

/// The path that `s` denotes, taken from `base`.
pub open spec fn at(base: PathModel, s: &str) -> PathModel {
    base.join(parse_path(lit(s)))
}

/// What was found on the host before the build.
#[derive(Debug)]
pub struct Survey {
    /// The real user id of the process.
    pub uid: u32,
    /// The real group id of the process.
    pub gid: u32,
    /// The user's home directory on the host.
    pub host_home: HostPathBuf,
    /// The `lib` directory of the store's OpenGL driver, resolved on the
    /// host, where it is a directory.
    pub opengl_lib: Option<HostPathBuf>,
    /// The canonical path of each candidate trust bundle that is a regular
    /// file, in the order of the candidates.
    pub cert_bundles: Vec<HostPathBuf>,
    /// Whether the system profile resolves on the host.
    pub system_profile: bool,
    /// The names of the entries of the system profile's `etc`.
    pub system_etc: Vec<Vec<u8>>,
    /// The names that stand in the guest's `/etc` before the build.
    pub guest_etc: Vec<Vec<u8>>,
    /// The contents of the `tmpfiles.d` files of the profile and of the
    /// current system, `lib` before `etc`.
    pub tmpfiles: Vec<Vec<u8>>,
}

/// The store's OpenGL driver, as the guest sees it.
pub open spec fn opengl_driver_path() -> PathModel {
    abs("/nix/var/nix/opengl-driver")
}

/// The system profile, as the guest sees it.
pub open spec fn system_profile_path() -> PathModel {
    abs("/nix/var/nix/profiles/system")
}

/// The directories that hold `tmpfiles.d` files: `lib/tmpfiles.d` and
/// `etc/tmpfiles.d` of a base directory.
pub open spec fn tmpfiles_dirs_of(base: Option<PathModel>) -> Seq<PathModel> {
    match base {
        Some(dir) => seq![at(dir, "lib/tmpfiles.d"), at(dir, "etc/tmpfiles.d")],
        None => Seq::empty(),
    }
}

/// The store's OpenGL driver, as the guest sees it. Its `lib` directory,
/// resolved on the host, is what a survey reports.
pub fn opengl_driver() -> (out: HostPathBuf)
    ensures
        out@ == opengl_driver_path(),
{
    HostPathBuf::new("/nix/var/nix/opengl-driver")
}

/// The system profile, as the guest sees it.
pub fn system_profile() -> (out: HostPathBuf)
    ensures
        out@ == system_profile_path(),
{
    HostPathBuf::new("/nix/var/nix/profiles/system")
}

/// The directories whose files a survey reports as `tmpfiles.d` files, in
/// order: those of the profile, then those of the current system.
pub fn tmpfiles_dirs(config: &Config) -> (out: Vec<HostPathBuf>)
    ensures
        path_views(&out) == tmpfiles_dirs_of(opt_view(config.nix_profile)) + tmpfiles_dirs_of(
            opt_view(config.current_system),
        ),
{
    let mut out: Vec<HostPathBuf> = Vec::new();
    match &config.nix_profile {
        Some(dir) => {
            out.push(dir.join_str("lib/tmpfiles.d"));
            out.push(dir.join_str("etc/tmpfiles.d"));
        },
        None => {},
    }
    match &config.current_system {
        Some(dir) => {
            out.push(dir.join_str("lib/tmpfiles.d"));
            out.push(dir.join_str("etc/tmpfiles.d"));
        },
        None => {},
    }
    assert(path_views(&out) =~= tmpfiles_dirs_of(opt_view(config.nix_profile)) + tmpfiles_dirs_of(
        opt_view(config.current_system),
    ));
    out
}

/// Why no plan can be made.
#[derive(Clone, Copy, Debug, PartialEq, Eq, Structural)]
pub enum SetupError {
    /// The user's home on the host is not an absolute path below the root,
    /// so it has no place inside the guest.
    HomeNotAbsolute,
}

/// The line that maps the id `id` to itself and nothing else.
pub open spec fn id_map_line(id: nat) -> Seq<u8> {
    decimal(id) + lit(" ") + decimal(id) + lit(" 1")
}

/// Leaving the host's namespaces: the root directory is made, the process
/// moves to new user, mount and host-name namespaces, forbids `setgroups`
/// (which may fail) and maps its user and group to themselves.
pub open spec fn enter_plan(chroot: PathModel, uid: nat, gid: nat) -> Seq<ActionModel> {
    seq![
        ActionModel::CreateDirAll { path: chroot, optional: false },
        ActionModel::Unshare { user: true, mount: true, uts: true },
        ActionModel::WriteFile {
            path: abs("/proc/self/setgroups"),
            data: lit("deny"),
            optional: true,
        },
        ActionModel::WriteFile {
            path: abs("/proc/self/uid_map"),
            data: id_map_line(uid),
            optional: false,
        },
        ActionModel::WriteFile {
            path: abs("/proc/self/gid_map"),
            data: id_map_line(gid),
            optional: false,
        },
    ]
}

/// A link with its directory: the directory that will hold the link, then
/// the link.
pub open spec fn symlink_plan(text: Seq<u8>, link: PathModel) -> Seq<ActionModel> {
    seq![
        ActionModel::CreateDirAll { path: link.parent_or_root(), optional: false },
        ActionModel::Symlink { text, link },
    ]
}

/// The text of the warning that the store holds no OpenGL driver.
pub open spec fn no_opengl_warning() -> Seq<u8> {
    lit("Warning: No OpenGL driver found in the store")
}

/// The OpenGL driver: its `lib` is bound into `/run/opengl-driver/lib`;
/// without one there is a warning.
pub open spec fn opengl_plan(chroot: PathModel, lib: Option<PathModel>) -> Seq<ActionModel> {
    match lib {
        Some(source) => seq![
            ActionModel::CreateDirAll { path: at(chroot, "run/opengl-driver/lib"), optional: false },
            ActionModel::Bind { source, target_dir: at(chroot, "run/opengl-driver/lib") },
        ],
        None => seq![ActionModel::Warn(no_opengl_warning())],
    }
}

/// The host files that the guest's `/etc` shares.
pub open spec fn etc_plan(chroot: PathModel) -> Seq<ActionModel> {
    seq![
        ActionModel::CreateDir(at(chroot, "etc")),
        ActionModel::Bind { source: abs("/etc/resolv.conf"), target_dir: at(chroot, "etc") },
        ActionModel::Bind { source: abs("/etc/passwd"), target_dir: at(chroot, "etc") },
        ActionModel::Bind { source: abs("/etc/group"), target_dir: at(chroot, "etc") },
        ActionModel::Bind { source: abs("/etc/group-"), target_dir: at(chroot, "etc") },
        ActionModel::Bind { source: abs("/etc/fonts"), target_dir: at(chroot, "etc") },
    ]
}

/// The host directories that the guest's `/usr/share` shares.
pub open spec fn usr_share_plan(chroot: PathModel) -> Seq<ActionModel> {
    seq![
        ActionModel::CreateDirAll { path: at(chroot, "usr/share"), optional: false },
        ActionModel::Bind { source: abs("/usr/share/fonts"), target_dir: at(chroot, "usr/share") },
        ActionModel::Bind {
            source: abs("/usr/share/fontconfig"),
            target_dir: at(chroot, "usr/share"),
        },
        ActionModel::Bind { source: abs("/usr/share/icons"), target_dir: at(chroot, "usr/share") },
    ]
}

/// The names that the build itself puts into the guest's `/etc` before the
/// system profile is mirrored.
pub open spec fn built_etc_names(has_bundle: bool) -> Seq<Seq<u8>> {
    let shared = seq![
        lit("resolv.conf"),
        lit("passwd"),
        lit("group"),
        lit("group-"),
        lit("fonts"),
    ];
    if has_bundle {
        shared + seq![lit("ssl"), lit("pki")]
    } else {
        shared
    }
}

/// The link in the guest's `/etc` to the entry `name` of the system profile.
pub open spec fn etc_link_plan(chroot: PathModel, name: Seq<u8>) -> Seq<ActionModel> {
    symlink_plan(lit("/run/current-system/etc/") + name, at(chroot, "etc").under(parse_path(name)))
}

/// The mirror of the system profile's `etc`: a link for each name in turn,
/// unless the name is taken already. A name that gets a link is taken from
/// then on.
pub open spec fn etc_mirror_plan(chroot: PathModel, names: Seq<Seq<u8>>, taken: Seq<Seq<u8>>) -> Seq<
    ActionModel,
>
    decreases names.len(),
{
    if names.len() == 0 {
        Seq::empty()
    } else if taken.contains(names[0]) {
        etc_mirror_plan(chroot, names.skip(1), taken)
    } else {
        etc_link_plan(chroot, names[0]) + etc_mirror_plan(
            chroot,
            names.skip(1),
            taken.push(names[0]),
        )
    }
}

/// The text of the link to the system profile, as the guest sees it.
pub open spec fn system_profile_text() -> Seq<u8> {
    lit("/nix/var/nix/profiles/system")
}

/// The links of the system profile: `/run/current-system`, `/bin/sh`,
/// `/usr/bin/env`, and the mirror of its `etc`. Without a system profile,
/// nothing.
pub open spec fn system_profile_plan(
    chroot: PathModel,
    present: bool,
    names: Seq<Seq<u8>>,
    taken: Seq<Seq<u8>>,
) -> Seq<ActionModel> {
    if present {
        symlink_plan(system_profile_text(), at(chroot, "run/current-system")) + symlink_plan(
            lit("/nix/var/nix/profiles/system/sw/bin/sh"),
            at(chroot, "bin/sh"),
        ) + symlink_plan(lit("/nix/var/nix/profiles/system/sw/bin/env"), at(chroot, "usr/bin/env"))
            + etc_mirror_plan(chroot, names, taken)
    } else {
        Seq::empty()
    }
}

/// The guest's view, in order: OpenGL driver, `/etc`, trust bundle,
/// `/usr/share`, system profile.
pub open spec fn guest_plan(
    chroot: PathModel,
    opengl_lib: Option<PathModel>,
    bundles: Seq<PathModel>,
    system_profile: bool,
    system_etc: Seq<Seq<u8>>,
    guest_etc: Seq<Seq<u8>>,
) -> Seq<ActionModel> {
    opengl_plan(chroot, opengl_lib) + etc_plan(chroot) + certs_plan(chroot, bundles)
        + usr_share_plan(chroot) + system_profile_plan(
        chroot,
        system_profile,
        system_etc,
        guest_etc + built_etc_names(bundles.len() > 0),
    )
}

/// The host directories that stand in for a guest system where there is no
/// profile.
pub open spec fn host_plan(chroot: PathModel) -> Seq<ActionModel> {
    seq![
        ActionModel::Bind { source: abs("/bin"), target_dir: chroot },
        ActionModel::Bind { source: abs("/lib"), target_dir: chroot },
        ActionModel::Bind { source: abs("/lib64"), target_dir: chroot },
        ActionModel::Bind { source: abs("/usr"), target_dir: chroot },
        ActionModel::Bind { source: abs("/etc"), target_dir: chroot },
    ]
}

/// The common binds: the store on `/nix`, the guest's home at the place of
/// the host's home, the host's root on `/run/host`, and the host's top-level
/// directories.
pub open spec fn common_plan(
    chroot: PathModel,
    nix_home: PathModel,
    home: PathModel,
    host_home: PathModel,
) -> Seq<ActionModel> {
    seq![
        ActionModel::CreateDir(at(chroot, "nix")),
        ActionModel::Mount {
            source: nix_home,
            target: at(chroot, "nix"),
            flags: MountFlags::spec_private_bind(),
        },
        ActionModel::CreateDirAll { path: chroot.under(host_home), optional: false },
        ActionModel::Mount {
            source: home,
            target: chroot.under(host_home),
            flags: MountFlags::spec_private_bind(),
        },
        ActionModel::CreateDirAll { path: at(chroot, "run/host"), optional: false },
        ActionModel::Mount {
            source: PathModel::root(),
            target: at(chroot, "run/host"),
            flags: MountFlags::spec_private_bind(),
        },
        ActionModel::Bind { source: abs("/dev"), target_dir: chroot },
        ActionModel::Bind { source: abs("/proc"), target_dir: chroot },
        ActionModel::Bind { source: abs("/var"), target_dir: chroot },
        ActionModel::Bind { source: abs("/run"), target_dir: chroot },
        ActionModel::Bind { source: abs("/opt"), target_dir: chroot },
        ActionModel::Bind { source: abs("/srv"), target_dir: chroot },
        ActionModel::Bind { source: abs("/sys"), target_dir: chroot },
        ActionModel::Bind { source: abs("/tmp"), target_dir: chroot },
    ]
}

/// What the `tmpfiles.d` files ask, file after file.
pub open spec fn tmpfiles_plan(chroot: PathModel, files: Seq<Seq<u8>>) -> Seq<ActionModel>
    decreases files.len(),
{
    if files.len() == 0 {
        Seq::empty()
    } else {
        tmpfiles_plan(chroot, files.drop_last()) + file_plan(chroot, files.last())
    }
}

/// Entering the root: it is made read-only, becomes the root, and the
/// process moves to its top and then, if it can, back to where it was.
pub open spec fn finish_plan(chroot: PathModel) -> Seq<ActionModel> {
    seq![
        ActionModel::SetReadOnly { path: chroot, readonly: true },
        ActionModel::Chroot(chroot),
        ActionModel::Chdir(PathModel::root()),
        ActionModel::RestoreCwd,
    ]
}

/// What stands between leaving the host's namespaces and entering the root.
pub open spec fn build_plan(
    chroot: PathModel,
    nix_home: PathModel,
    home: PathModel,
    with_profile: bool,
    host_home: PathModel,
    opengl_lib: Option<PathModel>,
    bundles: Seq<PathModel>,
    system_profile: bool,
    system_etc: Seq<Seq<u8>>,
    guest_etc: Seq<Seq<u8>>,
    tmpfiles: Seq<Seq<u8>>,
) -> Seq<ActionModel> {
    if with_profile {
        guest_plan(chroot, opengl_lib, bundles, system_profile, system_etc, guest_etc)
            + common_plan(chroot, nix_home, home, host_home) + tmpfiles_plan(chroot, tmpfiles)
    } else {
        host_plan(chroot) + common_plan(chroot, nix_home, home, host_home)
    }
}

/// The path that an optional path holds.
pub open spec fn opt_view(p: Option<HostPathBuf>) -> Option<PathModel> {
    match p {
        Some(path) => Some(path@),
        None => None,
    }
}

impl Survey {
    /// The build that this survey and `config` call for.
    pub open spec fn build(&self, config: &Config) -> Seq<ActionModel> {
        build_plan(
            config.chroot_dir@,
            config.nix_home@,
            config.home@,
            config.nix_profile is Some,
            self.host_home@,
            opt_view(self.opengl_lib),
            path_views(&self.cert_bundles),
            self.system_profile,
            deep(&self.system_etc),
            deep(&self.guest_etc),
            deep(&self.tmpfiles),
        )
    }

    /// The whole plan that this survey and `config` call for.
    pub open spec fn plan(&self, config: &Config) -> Seq<ActionModel> {
        enter_plan(config.chroot_dir@, self.uid as nat, self.gid as nat) + self.build(config)
            + finish_plan(config.chroot_dir@)
    }
}

/// The line that maps `id` to itself.
pub fn format_id_map(id: u32) -> (line: Vec<u8>)
    ensures
        line@ == id_map_line(id as nat),
{
    let mut line: Vec<u8> = Vec::new();
    push_decimal(&mut line, id as u64);
    append_str(&mut line, " ");
    push_decimal(&mut line, id as u64);
    append_str(&mut line, " 1");
    assert(line@ =~= id_map_line(id as nat));
    line
}

/// Plans the move to new namespaces.
pub fn enter_namespaces(chroot: &HostPathBuf, uid: u32, gid: u32) -> (plan: Vec<Action>)
    ensures
        views(&plan) == enter_plan(chroot@, uid as nat, gid as nat),
{
    let mut plan: Vec<Action> = Vec::new();
    assert(views(&plan) =~= Seq::empty());
    push_action(&mut plan, Action::CreateDirAll { path: chroot.clone(), optional: false });
    push_action(&mut plan, Action::Unshare { user: true, mount: true, uts: true });
    push_action(
        &mut plan,
        Action::WriteFile {
            path: HostPathBuf::new("/proc/self/setgroups"),
            data: bytes_of("deny"),
            optional: true,
        },
    );
    push_action(
        &mut plan,
        Action::WriteFile {
            path: HostPathBuf::new("/proc/self/uid_map"),
            data: format_id_map(uid),
            optional: false,
        },
    );
    push_action(
        &mut plan,
        Action::WriteFile {
            path: HostPathBuf::new("/proc/self/gid_map"),
            data: format_id_map(gid),
            optional: false,
        },
    );
    assert(views(&plan) =~= enter_plan(chroot@, uid as nat, gid as nat));
    plan
}

/// Plans a link at `link` with the text `text`, and the directory for it.
pub fn create_symlink(text: Vec<u8>, link: HostPathBuf) -> (plan: Vec<Action>)
    ensures
        views(&plan) == symlink_plan(text@, link@),
{
    let mut plan: Vec<Action> = Vec::new();
    assert(views(&plan) =~= Seq::empty());
    push_action(&mut plan, Action::CreateDirAll { path: link.parent_or_root(), optional: false });
    push_action(&mut plan, Action::Symlink { text, link });
    assert(views(&plan) =~= symlink_plan(text@, link@));
    plan
}

/// The request to bind the host path `source` into `target_dir`.
fn bind_into(source: &str, target_dir: &HostPathBuf) -> (action: Action)
    ensures
        action@ == (ActionModel::Bind { source: abs(source), target_dir: target_dir@ }),
{
    Action::Bind { source: HostPathBuf::new(source), target_dir: target_dir.clone() }
}

/// Plans the OpenGL driver's place in the guest.
pub fn bind_opengl(chroot: &HostPathBuf, lib: &Option<HostPathBuf>) -> (plan: Vec<Action>)
    ensures
        views(&plan) == opengl_plan(chroot@, opt_view(*lib)),
{
    let mut plan: Vec<Action> = Vec::new();
    assert(views(&plan) =~= Seq::empty());
    match lib {
        Some(source) => {
            let target = chroot.join_str("run/opengl-driver/lib");
            push_action(&mut plan, Action::CreateDirAll { path: target.clone(), optional: false });
            push_action(&mut plan, Action::Bind { source: source.clone(), target_dir: target });
            assert(views(&plan) =~= opengl_plan(chroot@, opt_view(*lib)));
        },
        None => {
            push_action(
                &mut plan,
                Action::Warn(bytes_of("Warning: No OpenGL driver found in the store")),
            );
            assert(views(&plan) =~= opengl_plan(chroot@, opt_view(*lib)));
        },
    }
    plan
}

/// Plans the host files in the guest's `/etc`.
pub fn bind_etc(chroot: &HostPathBuf) -> (plan: Vec<Action>)
    ensures
        views(&plan) == etc_plan(chroot@),
{
    let etc = chroot.join_str("etc");
    let mut plan: Vec<Action> = Vec::new();
    assert(views(&plan) =~= Seq::empty());
    push_action(&mut plan, Action::CreateDir(etc.clone()));
    push_action(&mut plan, bind_into("/etc/resolv.conf", &etc));
    push_action(&mut plan, bind_into("/etc/passwd", &etc));
    push_action(&mut plan, bind_into("/etc/group", &etc));
    push_action(&mut plan, bind_into("/etc/group-", &etc));
    push_action(&mut plan, bind_into("/etc/fonts", &etc));
    assert(views(&plan) =~= etc_plan(chroot@));
    plan
}

/// Plans the host directories in the guest's `/usr/share`.
pub fn bind_usr_share(chroot: &HostPathBuf) -> (plan: Vec<Action>)
    ensures
        views(&plan) == usr_share_plan(chroot@),
{
    let share = chroot.join_str("usr/share");
    let mut plan: Vec<Action> = Vec::new();
    assert(views(&plan) =~= Seq::empty());
    push_action(&mut plan, Action::CreateDirAll { path: share.clone(), optional: false });
    push_action(&mut plan, bind_into("/usr/share/fonts", &share));
    push_action(&mut plan, bind_into("/usr/share/fontconfig", &share));
    push_action(&mut plan, bind_into("/usr/share/icons", &share));
    assert(views(&plan) =~= usr_share_plan(chroot@));
    plan
}

/// Whether `names` holds `name`.
pub fn holds_name(names: &Vec<Vec<u8>>, name: &Vec<u8>) -> (yes: bool)
    ensures
        yes == deep(names).contains(name@),
{
    let ghost all = deep(names);
    let mut k: usize = 0;
    while k < names.len()
        invariant
            k <= names.len(),
            all == deep(names),
            forall|j: int| 0 <= j < k ==> #[trigger] all[j] != name@,
        decreases names.len() - k,
    {
        if bytes_eq(&names[k], name) {
            assert(all[k as int] == name@);
            return true;
        }
        k += 1;
    }
    false
}

/// The names that the build itself puts into the guest's `/etc`.
pub fn etc_names(has_bundle: bool) -> (names: Vec<Vec<u8>>)
    ensures
        deep(&names) == built_etc_names(has_bundle),
{
    let mut names: Vec<Vec<u8>> = Vec::new();
    names.push(bytes_of("resolv.conf"));
    names.push(bytes_of("passwd"));
    names.push(bytes_of("group"));
    names.push(bytes_of("group-"));
    names.push(bytes_of("fonts"));
    if has_bundle {
        names.push(bytes_of("ssl"));
        names.push(bytes_of("pki"));
    }
    assert(deep(&names) =~= built_etc_names(has_bundle));
    names
}

/// Plans the mirror of the system profile's `etc`. `taken` holds the names
/// that already stand in the guest's `/etc`.
pub fn mirror_etc(chroot: &HostPathBuf, names: &Vec<Vec<u8>>, taken: Vec<Vec<u8>>) -> (plan: Vec<
    Action,
>)
    ensures
        views(&plan) == etc_mirror_plan(chroot@, deep(names), deep(&taken)),
{
    let etc = chroot.join_str("etc");
    let ghost goal = etc_mirror_plan(chroot@, deep(names), deep(&taken));
    let mut taken = taken;
    let mut plan: Vec<Action> = Vec::new();
    let mut i: usize = 0;
    assert(views(&plan) =~= Seq::empty());
    assert(deep(names).skip(0) =~= deep(names));
    while i < names.len()
        invariant
            i <= names.len(),
            etc@ == at(chroot@, "etc"),
            goal == views(&plan) + etc_mirror_plan(
                chroot@,
                deep(names).skip(i as int),
                deep(&taken),
            ),
        decreases names.len() - i,
    {
        let ghost rest = deep(names).skip(i as int);
        let ghost before = views(&plan);
        let ghost had = deep(&taken);
        let name = &names[i];
        proof {
            assert(rest[0] == name@);
            assert(rest.skip(1) =~= deep(names).skip(i + 1));
        }
        if !holds_name(&taken, name) {
            let mut text = bytes_of("/run/current-system/etc/");
            append_bytes(&mut text, name);
            let link = etc.under(&HostPathBuf::from_bytes(name));
            append_actions(&mut plan, create_symlink(text, link));
            let copy = copy_bytes(name);
            taken.push(copy);
            proof {
                assert(deep(&taken) =~= had.push(name@));
                let next = etc_mirror_plan(chroot@, rest.skip(1), had.push(name@));
                assert(before + (etc_link_plan(chroot@, name@) + next) =~= (before + etc_link_plan(
                    chroot@,
                    name@,
                )) + next);
            }
        }
        i += 1;
    }
    assert(views(&plan) + Seq::<ActionModel>::empty() =~= views(&plan));
    plan
}

/// Plans the links of the system profile.
pub fn bind_system_profile(
    chroot: &HostPathBuf,
    present: bool,
    names: &Vec<Vec<u8>>,
    taken: Vec<Vec<u8>>,
) -> (plan: Vec<Action>)
    ensures
        views(&plan) == system_profile_plan(chroot@, present, deep(names), deep(&taken)),
{
    let mut plan: Vec<Action> = Vec::new();
    assert(views(&plan) =~= Seq::empty());
    if present {
        append_actions(
            &mut plan,
            create_symlink(
                bytes_of("/nix/var/nix/profiles/system"),
                chroot.join_str("run/current-system"),
            ),
        );
        append_actions(
            &mut plan,
            create_symlink(
                bytes_of("/nix/var/nix/profiles/system/sw/bin/sh"),
                chroot.join_str("bin/sh"),
            ),
        );
        append_actions(
            &mut plan,
            create_symlink(
                bytes_of("/nix/var/nix/profiles/system/sw/bin/env"),
                chroot.join_str("usr/bin/env"),
            ),
        );
        let ghost had = deep(&taken);
        append_actions(&mut plan, mirror_etc(chroot, names, taken));
        assert(views(&plan) =~= system_profile_plan(chroot@, present, deep(names), had));
    }
    plan
}

/// Joins two lists of names.
fn concat_names(a: &Vec<Vec<u8>>, b: Vec<Vec<u8>>) -> (out: Vec<Vec<u8>>)
    ensures
        deep(&out) == deep(a) + deep(&b),
{
    let mut out: Vec<Vec<u8>> = Vec::new();
    let mut i: usize = 0;
    assert(deep(&out) =~= deep(a).take(0));
    while i < a.len()
        invariant
            i <= a.len(),
            deep(&out) == deep(a).take(i as int),
        decreases a.len() - i,
    {
        let ghost before = deep(&out);
        let name = copy_bytes(&a[i]);
        out.push(name);
        assert(deep(&out) =~= before.push(name@));
        assert(deep(a).take(i + 1) =~= deep(a).take(i as int).push(a@[i as int]@));
        i += 1;
    }
    assert(deep(a).take(a.len() as int) =~= deep(a));
    let mut b = b;
    let ghost tail = deep(&b);
    let ghost head = deep(&out);
    out.append(&mut b);
    assert(deep(&out) =~= head + tail);
    out
}

/// Plans the guest's view: OpenGL driver, `/etc`, trust bundle, `/usr/share`
/// and system profile, in this order.
pub fn bind_guest(chroot: &HostPathBuf, survey: &Survey) -> (plan: Vec<Action>)
    ensures
        views(&plan) == guest_plan(
            chroot@,
            opt_view(survey.opengl_lib),
            path_views(&survey.cert_bundles),
            survey.system_profile,
            deep(&survey.system_etc),
            deep(&survey.guest_etc),
        ),
{
    let mut plan = bind_opengl(chroot, &survey.opengl_lib);
    append_actions(&mut plan, bind_etc(chroot));
    append_actions(&mut plan, copy_certs(chroot, &survey.cert_bundles));
    append_actions(&mut plan, bind_usr_share(chroot));
    let taken = concat_names(&survey.guest_etc, etc_names(survey.cert_bundles.len() > 0));
    append_actions(
        &mut plan,
        bind_system_profile(chroot, survey.system_profile, &survey.system_etc, taken),
    );
    plan
}

/// Plans the host directories that stand in for a guest system.
pub fn bind_host(chroot: &HostPathBuf) -> (plan: Vec<Action>)
    ensures
        views(&plan) == host_plan(chroot@),
{
    let mut plan: Vec<Action> = Vec::new();
    assert(views(&plan) =~= Seq::empty());
    push_action(&mut plan, bind_into("/bin", chroot));
    push_action(&mut plan, bind_into("/lib", chroot));
    push_action(&mut plan, bind_into("/lib64", chroot));
    push_action(&mut plan, bind_into("/usr", chroot));
    push_action(&mut plan, bind_into("/etc", chroot));
    assert(views(&plan) =~= host_plan(chroot@));
    plan
}

/// Plans the common binds.
pub fn bind_common(
    chroot: &HostPathBuf,
    nix_home: &HostPathBuf,
    home: &HostPathBuf,
    host_home: &HostPathBuf,
) -> (plan: Vec<Action>)
    ensures
        views(&plan) == common_plan(chroot@, nix_home@, home@, host_home@),
{
    let nix_mount = chroot.join_str("nix");
    let home_mount = chroot.under(host_home);
    let host_mount = chroot.join_str("run/host");
    let mut plan: Vec<Action> = Vec::new();
    assert(views(&plan) =~= Seq::empty());
    push_action(&mut plan, Action::CreateDir(nix_mount.clone()));
    push_action(&mut plan, bind_mount(nix_home, &nix_mount));
    push_action(&mut plan, Action::CreateDirAll { path: home_mount.clone(), optional: false });
    push_action(&mut plan, bind_mount(home, &home_mount));
    push_action(&mut plan, Action::CreateDirAll { path: host_mount.clone(), optional: false });
    push_action(&mut plan, bind_mount(&HostPathBuf::root(), &host_mount));
    push_action(&mut plan, bind_into("/dev", chroot));
    push_action(&mut plan, bind_into("/proc", chroot));
    push_action(&mut plan, bind_into("/var", chroot));
    push_action(&mut plan, bind_into("/run", chroot));
    push_action(&mut plan, bind_into("/opt", chroot));
    push_action(&mut plan, bind_into("/srv", chroot));
    push_action(&mut plan, bind_into("/sys", chroot));
    push_action(&mut plan, bind_into("/tmp", chroot));
    assert(views(&plan) =~= common_plan(chroot@, nix_home@, home@, host_home@));
    plan
}

/// Plans the links that the given `tmpfiles.d` files ask for.
pub fn bind_tmpfiles(chroot: &HostPathBuf, files: &Vec<Vec<u8>>) -> (plan: Vec<Action>)
    ensures
        views(&plan) == tmpfiles_plan(chroot@, deep(files)),
{
    let ghost all = deep(files);
    let mut plan: Vec<Action> = Vec::new();
    let mut i: usize = 0;
    assert(views(&plan) =~= Seq::empty());
    assert(all.take(0) =~= Seq::<Seq<u8>>::empty());
    while i < files.len()
        invariant
            i <= files.len(),
            all == deep(files),
            views(&plan) == tmpfiles_plan(chroot@, all.take(i as int)),
        decreases files.len() - i,
    {
        append_actions(&mut plan, plan_file(chroot, &files[i]));
        proof {
            assert(all.take(i + 1).drop_last() =~= all.take(i as int));
            assert(all.take(i + 1).last() == files@[i as int]@);
        }
        i += 1;
    }
    assert(all.take(all.len() as int) =~= all);
    plan
}

/// Plans the entry into the finished root.
pub fn enter_root(chroot: &HostPathBuf) -> (plan: Vec<Action>)
    ensures
        views(&plan) == finish_plan(chroot@),
{
    let mut plan: Vec<Action> = Vec::new();
    assert(views(&plan) =~= Seq::empty());
    push_action(&mut plan, Action::SetReadOnly { path: chroot.clone(), readonly: true });
    push_action(&mut plan, Action::Chroot(chroot.clone()));
    push_action(&mut plan, Action::Chdir(HostPathBuf::root()));
    push_action(&mut plan, Action::RestoreCwd);
    assert(views(&plan) =~= finish_plan(chroot@));
    plan
}

/// Plans the whole construction of the sandbox and the entry into it.
///
/// There is a plan exactly if the user's home on the host is an absolute
/// path other than the root.
pub fn setup(config: &Config, survey: &Survey) -> (out: Result<Vec<Action>, SetupError>)
    ensures
        out is Ok <==> survey.host_home@.absolute && survey.host_home@.parts.len() > 0,
        out is Ok ==> views(&out.unwrap()) == survey.plan(config),
        out is Err ==> out == Err::<Vec<Action>, SetupError>(SetupError::HomeNotAbsolute),
{
    if !survey.host_home.is_absolute() || survey.host_home.len() == 0 {
        return Err(SetupError::HomeNotAbsolute);
    }
    let chroot = &config.chroot_dir;
    let mut plan = enter_namespaces(chroot, survey.uid, survey.gid);
    let ghost entered = views(&plan);
    let mut build: Vec<Action>;
    if config.nix_profile.is_some() {
        build = bind_guest(chroot, survey);
        append_actions(
            &mut build,
            bind_common(chroot, &config.nix_home, &config.home, &survey.host_home),
        );
        append_actions(&mut build, bind_tmpfiles(chroot, &survey.tmpfiles));
    } else {
        build = bind_host(chroot);
        append_actions(
            &mut build,
            bind_common(chroot, &config.nix_home, &config.home, &survey.host_home),
        );
    }
    assert(views(&build) == survey.build(config));
    append_actions(&mut plan, build);
    append_actions(&mut plan, enter_root(chroot));
    Ok(plan)
}

/// What removing the thing at `path` takes, where a look at it found `node`.
pub open spec fn remove_plan(path: PathModel, node: NodeModel) -> Seq<ActionModel> {
    match node {
        NodeModel::Missing | NodeModel::Unreadable => Seq::empty(),
        NodeModel::Dir => seq![
            ActionModel::SetReadOnly { path, readonly: false },
            ActionModel::RemoveEntries(path),
            ActionModel::RemoveDir(path),
        ],
        NodeModel::Symlink(_) => seq![ActionModel::Unlink(path)],
        NodeModel::File | NodeModel::Other => seq![
            ActionModel::SetReadOnly { path, readonly: false },
            ActionModel::Unlink(path),
        ],
    }
}

/// Plans the removal of an old root, or of one thing inside it.
///
/// `node` is what a look at `path` found, links not followed. What is
/// missing needs no removal; a directory is made writable, emptied and
/// removed; a link is removed and never followed. What could not be looked
/// at cannot be removed.
pub fn remove_chroot(path: &HostPathBuf, node: &Node) -> (out: Option<Vec<Action>>)
    ensures
        out is Some <==> !(node@ is Unreadable),
        out is Some ==> views(&out.unwrap()) == remove_plan(path@, node@),
{
    let mut plan: Vec<Action> = Vec::new();
    assert(views(&plan) =~= Seq::empty());
    match node {
        Node::Unreadable => {
            return None;
        },
        Node::Missing => {},
        Node::Dir => {
            push_action(&mut plan, Action::SetReadOnly { path: path.clone(), readonly: false });
            push_action(&mut plan, Action::RemoveEntries(path.clone()));
            push_action(&mut plan, Action::RemoveDir(path.clone()));
            assert(views(&plan) =~= remove_plan(path@, node@));
        },
        Node::Symlink(_) => {
            push_action(&mut plan, Action::Unlink(path.clone()));
            assert(views(&plan) =~= remove_plan(path@, node@));
        },
        Node::File => {
            push_action(&mut plan, Action::SetReadOnly { path: path.clone(), readonly: false });
            push_action(&mut plan, Action::Unlink(path.clone()));
            assert(views(&plan) =~= remove_plan(path@, node@));
        },
        Node::Other => {
            push_action(&mut plan, Action::SetReadOnly { path: path.clone(), readonly: false });
            push_action(&mut plan, Action::Unlink(path.clone()));
            assert(views(&plan) =~= remove_plan(path@, node@));
        },
    }
    Some(plan)
}

/// Whether an action only assembles the guest's view: it makes directories,
/// files and links, copies, warns, asks for a bind, or mounts a recursive,
/// private bind.
pub open spec fn assembles(action: ActionModel) -> bool {
    match action {
        ActionModel::CreateDir(_) => true,
        ActionModel::CreateDirAll { .. } => true,
        ActionModel::CreateFile(_) => true,
        ActionModel::Symlink { .. } => true,
        ActionModel::Copy { .. } => true,
        ActionModel::Warn(_) => true,
        ActionModel::Bind { .. } => true,
        ActionModel::BindEntries { .. } => true,
        ActionModel::Mount { flags, .. } => flags == MountFlags::spec_private_bind(),
        _ => false,
    }
}

/// Whether every action of the plan only assembles the guest's view.
pub open spec fn all_assemble(plan: Seq<ActionModel>) -> bool {
    forall|i: int| 0 <= i < plan.len() ==> assembles(#[trigger] plan[i])
}

proof fn lemma_all_assemble_add(a: Seq<ActionModel>, b: Seq<ActionModel>)
    requires
        all_assemble(a),
        all_assemble(b),
    ensures
        all_assemble(a + b),
{
    assert forall|i: int| 0 <= i < (a + b).len() implies assembles(#[trigger] (a + b)[i]) by {
        if i < a.len() {
            assert((a + b)[i] == a[i]);
        } else {
            assert((a + b)[i] == b[i - a.len()]);
        }
    }
}

proof fn lemma_etc_mirror_assembles(chroot: PathModel, names: Seq<Seq<u8>>, taken: Seq<Seq<u8>>)
    ensures
        all_assemble(etc_mirror_plan(chroot, names, taken)),
    decreases names.len(),
{
    if names.len() == 0 {
    } else if taken.contains(names[0]) {
        lemma_etc_mirror_assembles(chroot, names.skip(1), taken);
    } else {
        lemma_etc_mirror_assembles(chroot, names.skip(1), taken.push(names[0]));
        lemma_symlink_assembles(
            lit("/run/current-system/etc/") + names[0],
            at(chroot, "etc").under(parse_path(names[0])),
        );
        lemma_all_assemble_add(
            etc_link_plan(chroot, names[0]),
            etc_mirror_plan(chroot, names.skip(1), taken.push(names[0])),
        );
    }
}

proof fn lemma_lines_assemble(chroot: PathModel, lines: Seq<Seq<u8>>)
    ensures
        all_assemble(crate::tmpfiles::lines_plan(chroot, lines)),
    decreases lines.len(),
{
    if lines.len() > 0 {
        lemma_lines_assemble(chroot, lines.drop_last());
        lemma_all_assemble_add(
            crate::tmpfiles::lines_plan(chroot, lines.drop_last()),
            crate::tmpfiles::line_plan(chroot, lines.last()),
        );
    }
}

proof fn lemma_tmpfiles_assemble(chroot: PathModel, files: Seq<Seq<u8>>)
    ensures
        all_assemble(tmpfiles_plan(chroot, files)),
    decreases files.len(),
{
    if files.len() > 0 {
        lemma_tmpfiles_assemble(chroot, files.drop_last());
        lemma_lines_assemble(
            chroot,
            crate::text::records(files.last(), crate::text::Delim::Byte(crate::tmpfiles::LINE_FEED)),
        );
        lemma_all_assemble_add(
            tmpfiles_plan(chroot, files.drop_last()),
            file_plan(chroot, files.last()),
        );
    }
}

proof fn lemma_certs_assemble(chroot: PathModel, bundles: Seq<PathModel>)
    ensures
        all_assemble(certs_plan(chroot, bundles)),
{
    if bundles.len() > 0 {
        let count = crate::certs::distinct(bundles).len();
        let warning = if count >= 2 {
            seq![ActionModel::Warn(crate::certs::several_found_warning(count))]
        } else {
            Seq::empty()
        };
        let c = crate::certs::candidates();
        let first = crate::certs::copy_to(chroot, bundles[0], c[0]);
        let second = crate::certs::copy_to(chroot, bundles[0], c[1]);
        let third = crate::certs::copy_to(chroot, bundles[0], c[2]);
        lemma_all_assemble_add(warning, first);
        lemma_all_assemble_add(warning + first, second);
        lemma_all_assemble_add(warning + first + second, third);
    }
}

proof fn lemma_symlink_assembles(text: Seq<u8>, link: PathModel)
    ensures
        all_assemble(symlink_plan(text, link)),
{
}

proof fn lemma_opengl_assembles(chroot: PathModel, lib: Option<PathModel>)
    ensures
        all_assemble(opengl_plan(chroot, lib)),
{
}

proof fn lemma_etc_assembles(chroot: PathModel)
    ensures
        all_assemble(etc_plan(chroot)),
{
}

proof fn lemma_usr_share_assembles(chroot: PathModel)
    ensures
        all_assemble(usr_share_plan(chroot)),
{
}

proof fn lemma_host_assembles(chroot: PathModel)
    ensures
        all_assemble(host_plan(chroot)),
{
}

proof fn lemma_common_assembles(
    chroot: PathModel,
    nix_home: PathModel,
    home: PathModel,
    host_home: PathModel,
)
    ensures
        all_assemble(common_plan(chroot, nix_home, home, host_home)),
{
}

proof fn lemma_system_profile_assembles(
    chroot: PathModel,
    present: bool,
    names: Seq<Seq<u8>>,
    taken: Seq<Seq<u8>>,
)
    ensures
        all_assemble(system_profile_plan(chroot, present, names, taken)),
{
    if present {
        let l1 = symlink_plan(system_profile_text(), at(chroot, "run/current-system"));
        let l2 = symlink_plan(lit("/nix/var/nix/profiles/system/sw/bin/sh"), at(chroot, "bin/sh"));
        let l3 = symlink_plan(
            lit("/nix/var/nix/profiles/system/sw/bin/env"),
            at(chroot, "usr/bin/env"),
        );
        lemma_symlink_assembles(system_profile_text(), at(chroot, "run/current-system"));
        lemma_symlink_assembles(
            lit("/nix/var/nix/profiles/system/sw/bin/sh"),
            at(chroot, "bin/sh"),
        );
        lemma_symlink_assembles(
            lit("/nix/var/nix/profiles/system/sw/bin/env"),
            at(chroot, "usr/bin/env"),
        );
        lemma_etc_mirror_assembles(chroot, names, taken);
        lemma_all_assemble_add(l1, l2);
        lemma_all_assemble_add(l1 + l2, l3);
        lemma_all_assemble_add(l1 + l2 + l3, etc_mirror_plan(chroot, names, taken));
    }
}

proof fn lemma_guest_assembles(
    chroot: PathModel,
    opengl_lib: Option<PathModel>,
    bundles: Seq<PathModel>,
    system_profile: bool,
    system_etc: Seq<Seq<u8>>,
    guest_etc: Seq<Seq<u8>>,
)
    ensures
        all_assemble(
            guest_plan(chroot, opengl_lib, bundles, system_profile, system_etc, guest_etc),
        ),
{
    let taken = guest_etc + built_etc_names(bundles.len() > 0);
    let a = opengl_plan(chroot, opengl_lib);
    let b = etc_plan(chroot);
    let c = certs_plan(chroot, bundles);
    let d = usr_share_plan(chroot);
    let e = system_profile_plan(chroot, system_profile, system_etc, taken);
    lemma_opengl_assembles(chroot, opengl_lib);
    lemma_etc_assembles(chroot);
    lemma_certs_assemble(chroot, bundles);
    lemma_usr_share_assembles(chroot);
    lemma_system_profile_assembles(chroot, system_profile, system_etc, taken);
    lemma_all_assemble_add(a, b);
    lemma_all_assemble_add(a + b, c);
    lemma_all_assemble_add(a + b + c, d);
    lemma_all_assemble_add(a + b + c + d, e);
}

/// Everything between leaving the host's namespaces and entering the root
/// only assembles the guest's view.
pub proof fn lemma_build_assembles(config: &Config, survey: &Survey)
    ensures
        all_assemble(survey.build(config)),
{
    let chroot = config.chroot_dir@;
    let common = common_plan(chroot, config.nix_home@, config.home@, survey.host_home@);
    if config.nix_profile is Some {
        let guest = guest_plan(
            chroot,
            opt_view(survey.opengl_lib),
            path_views(&survey.cert_bundles),
            survey.system_profile,
            deep(&survey.system_etc),
            deep(&survey.guest_etc),
        );
        lemma_guest_assembles(
            chroot,
            opt_view(survey.opengl_lib),
            path_views(&survey.cert_bundles),
            survey.system_profile,
            deep(&survey.system_etc),
            deep(&survey.guest_etc),
        );
        lemma_tmpfiles_assemble(chroot, deep(&survey.tmpfiles));
        lemma_common_assembles(chroot, config.nix_home@, config.home@, survey.host_home@);
        lemma_all_assemble_add(guest, common);
        lemma_all_assemble_add(guest + common, tmpfiles_plan(chroot, deep(&survey.tmpfiles)));
    } else {
        lemma_host_assembles(chroot);
        lemma_common_assembles(chroot, config.nix_home@, config.home@, survey.host_home@);
        lemma_all_assemble_add(host_plan(chroot), common);
    }
}

/// Every mount of the plan is a recursive, private bind, so nothing that is
/// mounted in the sandbox shows on the host.
pub proof fn lemma_plan_mounts_private(config: &Config, survey: &Survey)
    ensures
        crate::plan::mounts_private(survey.plan(config)),
{
    let enter = enter_plan(config.chroot_dir@, survey.uid as nat, survey.gid as nat);
    let build = survey.build(config);
    let finish = finish_plan(config.chroot_dir@);
    let plan = survey.plan(config);
    lemma_build_assembles(config, survey);
    assert forall|i: int| 0 <= i < plan.len() && (#[trigger] plan[i]) is Mount implies plan[i]->Mount_flags
        == MountFlags::spec_private_bind() by {
        if i < enter.len() {
            assert(plan[i] == enter[i]);
        } else if i < enter.len() + build.len() {
            assert(plan[i] == build[i - enter.len()]);
            assert(assembles(build[i - enter.len()]));
        } else {
            assert(plan[i] == finish[i - enter.len() - build.len()]);
        }
    }
}

/// The root is entered once, at the end of the plan, and is made read-only
/// by the action just before: at the moment of entry it is read-only, and
/// everything that is mounted is mounted before that.
pub proof fn lemma_plan_enters_read_only(config: &Config, survey: &Survey)
    ensures
        survey.plan(config).len() >= 9,
        survey.plan(config)[survey.plan(config).len() - 4] == (ActionModel::SetReadOnly {
            path: config.chroot_dir@,
            readonly: true,
        }),
        survey.plan(config)[survey.plan(config).len() - 3] == ActionModel::Chroot(
            config.chroot_dir@,
        ),
        forall|i: int|
            0 <= i < survey.plan(config).len() && ((#[trigger] survey.plan(config)[i]) is Chroot
                || survey.plan(config)[i] is SetReadOnly) ==> i >= survey.plan(config).len() - 4,
        forall|i: int|
            0 <= i < survey.plan(config).len() && ((#[trigger] survey.plan(config)[i]) is Mount
                || survey.plan(config)[i] is Bind) ==> i < survey.plan(config).len() - 4,
{
    let enter = enter_plan(config.chroot_dir@, survey.uid as nat, survey.gid as nat);
    let build = survey.build(config);
    let finish = finish_plan(config.chroot_dir@);
    let plan = survey.plan(config);
    lemma_build_assembles(config, survey);
    assert(plan.len() == enter.len() + build.len() + finish.len());
    assert(plan[plan.len() - 4] == finish[0]);
    assert(plan[plan.len() - 3] == finish[1]);
    assert forall|i: int|
        0 <= i < plan.len() && ((#[trigger] plan[i]) is Chroot || plan[i] is SetReadOnly) implies i
        >= plan.len() - 4 by {
        if i < enter.len() {
            assert(plan[i] == enter[i]);
        } else if i < enter.len() + build.len() {
            assert(plan[i] == build[i - enter.len()]);
            assert(assembles(build[i - enter.len()]));
        }
    }
    assert forall|i: int|
        0 <= i < plan.len() && ((#[trigger] plan[i]) is Mount || plan[i] is Bind) implies i
        < plan.len() - 4 by {
        if i >= enter.len() + build.len() {
            assert(plan[i] == finish[i - enter.len() - build.len()]);
        }
    }
}

/// With a profile, the guest's view is assembled in a fixed order: first the
/// guest's own view, then the common binds, last the `tmpfiles.d` links.
pub proof fn lemma_build_order(config: &Config, survey: &Survey)
    requires
        config.nix_profile is Some,
    ensures
        survey.build(config) == guest_plan(
            config.chroot_dir@,
            opt_view(survey.opengl_lib),
            path_views(&survey.cert_bundles),
            survey.system_profile,
            deep(&survey.system_etc),
            deep(&survey.guest_etc),
        ) + common_plan(config.chroot_dir@, config.nix_home@, config.home@, survey.host_home@)
            + tmpfiles_plan(config.chroot_dir@, deep(&survey.tmpfiles)),
{
}

/// The places inside the root that the build names are relative paths.
proof fn lemma_places_relative()
    ensures
        !abs("run/opengl-driver/lib").absolute,
        !abs("etc").absolute,
        !abs("usr/share").absolute,
        !abs("run/current-system").absolute,
        !abs("bin/sh").absolute,
        !abs("usr/bin/env").absolute,
        !abs("nix").absolute,
        !abs("run/host").absolute,
{
    reveal_strlit("run/opengl-driver/lib");
    reveal_strlit("etc");
    reveal_strlit("usr/share");
    reveal_strlit("run/current-system");
    reveal_strlit("bin/sh");
    reveal_strlit("usr/bin/env");
    reveal_strlit("nix");
    reveal_strlit("run/host");
    assert("run/opengl-driver/lib"@[0] == 'r');
    assert("etc"@[0] == 'e');
    assert("usr/share"@[0] == 'u');
    assert("run/current-system"@[0] == 'r');
    assert("bin/sh"@[0] == 'b');
    assert("usr/bin/env"@[0] == 'u');
    assert("nix"@[0] == 'n');
    assert("run/host"@[0] == 'r');
    lemma_relative_text("run/opengl-driver/lib");
    lemma_relative_text("etc");
    lemma_relative_text("usr/share");
    lemma_relative_text("run/current-system");
    lemma_relative_text("bin/sh");
    lemma_relative_text("usr/bin/env");
    lemma_relative_text("nix");
    lemma_relative_text("run/host");
}

proof fn lemma_symlink_within(text: Seq<u8>, link: PathModel, chroot: PathModel)
    requires
        link.starts_with(chroot),
    ensures
        within(symlink_plan(text, link), chroot),
{
    lemma_parent_near(chroot, link);
}

proof fn lemma_etc_mirror_within(chroot: PathModel, names: Seq<Seq<u8>>, taken: Seq<Seq<u8>>)
    requires
        !abs("etc").absolute,
    ensures
        within(etc_mirror_plan(chroot, names, taken), chroot),
    decreases names.len(),
{
    if names.len() == 0 {
    } else if taken.contains(names[0]) {
        lemma_etc_mirror_within(chroot, names.skip(1), taken);
    } else {
        let etc = at(chroot, "etc");
        let link = etc.under(parse_path(names[0]));
        lemma_join_starts(chroot, abs("etc"));
        lemma_under_starts(etc, parse_path(names[0]));
        lemma_starts_with_trans(link, etc, chroot);
        lemma_symlink_within(lit("/run/current-system/etc/") + names[0], link, chroot);
        lemma_etc_mirror_within(chroot, names.skip(1), taken.push(names[0]));
        lemma_within_add(
            etc_link_plan(chroot, names[0]),
            etc_mirror_plan(chroot, names.skip(1), taken.push(names[0])),
            chroot,
        );
    }
}

proof fn lemma_system_profile_within(
    chroot: PathModel,
    present: bool,
    names: Seq<Seq<u8>>,
    taken: Seq<Seq<u8>>,
)
    ensures
        within(system_profile_plan(chroot, present, names, taken), chroot),
{
    if present {
        lemma_places_relative();
        let l1 = symlink_plan(system_profile_text(), at(chroot, "run/current-system"));
        let l2 = symlink_plan(lit("/nix/var/nix/profiles/system/sw/bin/sh"), at(chroot, "bin/sh"));
        let l3 = symlink_plan(
            lit("/nix/var/nix/profiles/system/sw/bin/env"),
            at(chroot, "usr/bin/env"),
        );
        lemma_join_starts(chroot, abs("run/current-system"));
        lemma_join_starts(chroot, abs("bin/sh"));
        lemma_join_starts(chroot, abs("usr/bin/env"));
        lemma_symlink_within(system_profile_text(), at(chroot, "run/current-system"), chroot);
        lemma_symlink_within(
            lit("/nix/var/nix/profiles/system/sw/bin/sh"),
            at(chroot, "bin/sh"),
            chroot,
        );
        lemma_symlink_within(
            lit("/nix/var/nix/profiles/system/sw/bin/env"),
            at(chroot, "usr/bin/env"),
            chroot,
        );
        lemma_etc_mirror_within(chroot, names, taken);
        lemma_within_add(l1, l2, chroot);
        lemma_within_add(l1 + l2, l3, chroot);
        lemma_within_add(l1 + l2 + l3, etc_mirror_plan(chroot, names, taken), chroot);
    }
}

proof fn lemma_opengl_within(chroot: PathModel, lib: Option<PathModel>)
    ensures
        within(opengl_plan(chroot, lib), chroot),
{
    lemma_places_relative();
    lemma_join_starts(chroot, abs("run/opengl-driver/lib"));
}

proof fn lemma_etc_within(chroot: PathModel)
    ensures
        within(etc_plan(chroot), chroot),
{
    lemma_places_relative();
    lemma_join_starts(chroot, abs("etc"));
}

proof fn lemma_usr_share_within(chroot: PathModel)
    ensures
        within(usr_share_plan(chroot), chroot),
{
    lemma_places_relative();
    lemma_join_starts(chroot, abs("usr/share"));
}

proof fn lemma_host_within(chroot: PathModel)
    ensures
        within(host_plan(chroot), chroot),
{
    assert(chroot.parts.subrange(0, chroot.parts.len() as int) =~= chroot.parts);
}

proof fn lemma_common_within(
    chroot: PathModel,
    nix_home: PathModel,
    home: PathModel,
    host_home: PathModel,
)
    ensures
        within(common_plan(chroot, nix_home, home, host_home), chroot),
{
    lemma_places_relative();
    lemma_join_starts(chroot, abs("nix"));
    lemma_join_starts(chroot, abs("run/host"));
    lemma_under_starts(chroot, host_home);
    assert(chroot.parts.subrange(0, chroot.parts.len() as int) =~= chroot.parts);
}

proof fn lemma_tmpfiles_within(chroot: PathModel, files: Seq<Seq<u8>>)
    ensures
        within(tmpfiles_plan(chroot, files), chroot),
    decreases files.len(),
{
    if files.len() > 0 {
        lemma_tmpfiles_within(chroot, files.drop_last());
        crate::tmpfiles::lemma_lines_within(
            chroot,
            crate::text::records(files.last(), crate::text::Delim::Byte(crate::tmpfiles::LINE_FEED)),
        );
        lemma_within_add(
            tmpfiles_plan(chroot, files.drop_last()),
            file_plan(chroot, files.last()),
            chroot,
        );
    }
}

proof fn lemma_guest_within(
    chroot: PathModel,
    opengl_lib: Option<PathModel>,
    bundles: Seq<PathModel>,
    system_profile: bool,
    system_etc: Seq<Seq<u8>>,
    guest_etc: Seq<Seq<u8>>,
)
    ensures
        within(
            guest_plan(chroot, opengl_lib, bundles, system_profile, system_etc, guest_etc),
            chroot,
        ),
{
    let taken = guest_etc + built_etc_names(bundles.len() > 0);
    let a = opengl_plan(chroot, opengl_lib);
    let b = etc_plan(chroot);
    let c = certs_plan(chroot, bundles);
    let d = usr_share_plan(chroot);
    let e = system_profile_plan(chroot, system_profile, system_etc, taken);
    lemma_opengl_within(chroot, opengl_lib);
    lemma_etc_within(chroot);
    crate::certs::lemma_certs_within(chroot, bundles);
    lemma_usr_share_within(chroot);
    lemma_system_profile_within(chroot, system_profile, system_etc, taken);
    lemma_within_add(a, b, chroot);
    lemma_within_add(a + b, c, chroot);
    lemma_within_add(a + b + c, d, chroot);
    lemma_within_add(a + b + c + d, e, chroot);
}

/// The build stays within the root: every directory, file and link that it
/// makes, every mount and every bind that it asks for lies at or below the
/// root directory.
pub proof fn lemma_build_within(config: &Config, survey: &Survey)
    ensures
        within(survey.build(config), config.chroot_dir@),
{
    let chroot = config.chroot_dir@;
    let common = common_plan(chroot, config.nix_home@, config.home@, survey.host_home@);
    lemma_common_within(chroot, config.nix_home@, config.home@, survey.host_home@);
    if config.nix_profile is Some {
        let guest = guest_plan(
            chroot,
            opt_view(survey.opengl_lib),
            path_views(&survey.cert_bundles),
            survey.system_profile,
            deep(&survey.system_etc),
            deep(&survey.guest_etc),
        );
        lemma_guest_within(
            chroot,
            opt_view(survey.opengl_lib),
            path_views(&survey.cert_bundles),
            survey.system_profile,
            deep(&survey.system_etc),
            deep(&survey.guest_etc),
        );
        lemma_tmpfiles_within(chroot, deep(&survey.tmpfiles));
        lemma_within_add(guest, common, chroot);
        lemma_within_add(guest + common, tmpfiles_plan(chroot, deep(&survey.tmpfiles)), chroot);
    } else {
        lemma_host_within(chroot);
        lemma_within_add(host_plan(chroot), common, chroot);
    }
}

/// The bytes of a short text of ASCII characters.
proof fn lemma_short_texts()
    ensures
        lit(" ") == seq![32u8],
        lit(" 1") == seq![32u8, 49u8],
        lit("1") == seq![49u8],
{
    reveal_strlit(" ");
    reveal_strlit(" 1");
    reveal_strlit("1");
    let a = " ";
    let b = " 1";
    let c = "1";
    assert(a@ =~= seq![' ']);
    assert(b@ =~= seq![' ', '1']);
    assert(c@ =~= seq!['1']);
    assert(vstd::string::is_ascii(a));
    assert(vstd::string::is_ascii(b));
    assert(vstd::string::is_ascii(c));
    vstd::string::is_ascii_spec_bytes(a);
    vstd::string::is_ascii_spec_bytes(b);
    vstd::string::is_ascii_spec_bytes(c);
    assert(lit(a) =~= seq![32u8]);
    assert(lit(b) =~= seq![32u8, 49u8]);
    assert(lit(c) =~= seq![49u8]);
}

/// Splitting at whitespace takes off a leading numeral that a space follows.
proof fn lemma_split_numeral(n: nat, rest: Seq<u8>)
    ensures
        crate::text::split(decimal(n) + seq![32u8] + rest, crate::text::Delim::AsciiWhitespace)
            == seq![decimal(n)] + crate::text::split(rest, crate::text::Delim::AsciiWhitespace),
{
    let d = crate::text::Delim::AsciiWhitespace;
    let numeral = decimal(n);
    let s = numeral + seq![32u8] + rest;
    crate::decimal::lemma_decimal(n);
    assert forall|k: int| 0 <= k < numeral.len() implies !d.spec_matches(#[trigger] s[k]) by {
        assert(s[k] == numeral[k]);
        assert(crate::decimal::is_digit(numeral[k]));
    }
    assert(s[numeral.len() as int] == 32u8);
    crate::text::lemma_run_len_is(s, d, numeral.len() as int);
    assert(s.take(numeral.len() as int) =~= numeral);
    assert(s.skip(numeral.len() as int + 1) =~= rest);
}

/// The line that maps an id has three fields: the id inside the namespace,
/// the same id outside it, and the count one.
pub proof fn lemma_id_map_fields(id: nat)
    ensures
        crate::text::fields(id_map_line(id), crate::text::Delim::AsciiWhitespace) == seq![
            decimal(id),
            decimal(id),
            lit("1"),
        ],
{
    let d = crate::text::Delim::AsciiWhitespace;
    let numeral = decimal(id);
    let one = seq![49u8];
    lemma_short_texts();
    crate::decimal::lemma_decimal(id);
    let tail = numeral + seq![32u8] + one;
    assert(id_map_line(id) =~= numeral + seq![32u8] + tail);
    lemma_split_numeral(id, tail);
    lemma_split_numeral(id, one);
    crate::text::lemma_run_len_is(one, d, 1);
    assert(crate::text::split(one, d) =~= seq![one]);
    let pieces = crate::text::split(id_map_line(id), d);
    assert(pieces =~= seq![numeral, numeral, one]);
    let none = Seq::<Seq<u8>>::empty();
    let keep = crate::text::non_empty();
    assert(none.filter(keep) =~= none) by {
        reveal(Seq::filter);
    }
    none.lemma_filter_push(numeral, keep);
    none.push(numeral).lemma_filter_push(numeral, keep);
    none.push(numeral).push(numeral).lemma_filter_push(one, keep);
    assert(none.push(numeral).push(numeral).push(one) =~= pieces);
}

} // verus!
