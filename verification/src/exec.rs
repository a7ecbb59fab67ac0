//! A sandbox assembled step by step.
//!
//! [`RunChroot`] holds the directory that becomes the guest's root and the
//! host directory of the store, and plans one step at a time: leaving the
//! host's namespaces, the default binds, the host's system directories or
//! the links of a profile, and at last the entry and the launch.

use crate::certs::{certs_plan, copy_certs, path_views};
use crate::command::run::{launch_entries, run, Launch};
use crate::config::Config;
use crate::env::Env;
use crate::path::{HostPathBuf, PathModel};
use crate::plan::{append_actions, bind_mount, push_action, views};
use crate::plan::{Action, ActionModel, MountFlags};
use crate::setup::{abs, at, bind_etc, bind_opengl, bind_usr_share, create_symlink};
use crate::setup::{enter_namespaces, enter_plan, enter_root, etc_plan, finish_plan};
use crate::setup::{opengl_plan, opt_view, symlink_plan, usr_share_plan};
use crate::snapshot::Snapshot;
use crate::text::deep;
use crate::util::resolve_symlink::{resolve, resolve_symlink, Outcome, Resolution};
use vstd::prelude::*;

verus! {

/// A root directory under construction and the store that it will show.
#[derive(Debug)]
pub struct RunChroot {
    rootdir: HostPathBuf,
    nixdir: HostPathBuf,
}

/// The store in the guest, the host's top-level directories, the shared
/// files of `/etc`, the trust bundle and the shared parts of `/usr/share`.
pub open spec fn defaults_plan(rootdir: PathModel, nixdir: PathModel, bundles: Seq<PathModel>) -> Seq<
    ActionModel,
> {
    seq![
        ActionModel::CreateDir(at(rootdir, "nix")),
        ActionModel::Mount {
            source: nixdir,
            target: at(rootdir, "nix"),
            flags: MountFlags::spec_private_bind(),
        },
        ActionModel::Bind { source: abs("/dev"), target_dir: rootdir },
        ActionModel::Bind { source: abs("/proc"), target_dir: rootdir },
        ActionModel::Bind { source: abs("/home"), target_dir: rootdir },
        ActionModel::Bind { source: abs("/var"), target_dir: rootdir },
        ActionModel::Bind { source: abs("/run"), target_dir: rootdir },
        ActionModel::Bind { source: abs("/opt"), target_dir: rootdir },
        ActionModel::Bind { source: abs("/srv"), target_dir: rootdir },
        ActionModel::Bind { source: abs("/sys"), target_dir: rootdir },
        ActionModel::Bind { source: abs("/tmp"), target_dir: rootdir },
    ] + etc_plan(rootdir) + certs_plan(rootdir, bundles) + usr_share_plan(rootdir)
}

/// The host's system directories in the guest.
pub open spec fn host_dirs_plan(rootdir: PathModel) -> Seq<ActionModel> {
    seq![
        ActionModel::Bind { source: abs("/bin"), target_dir: rootdir },
        ActionModel::Bind { source: abs("/lib"), target_dir: rootdir },
        ActionModel::Bind { source: abs("/lib64"), target_dir: rootdir },
        ActionModel::Bind { source: abs("/usr"), target_dir: rootdir },
    ]
}

/// The links into the user's profile, and the OpenGL driver.
pub open spec fn profile_plan(rootdir: PathModel, profile: PathModel, opengl_lib: Option<PathModel>) -> Seq<
    ActionModel,
> {
    symlink_plan(at(profile, "bin/sh").render(), at(rootdir, "bin/sh")) + symlink_plan(
        at(profile, "bin/bash").render(),
        at(rootdir, "bin/bash"),
    ) + symlink_plan(at(profile, "bin/env").render(), at(rootdir, "usr/bin/env")) + opengl_plan(
        rootdir,
        opengl_lib,
    )
}

impl RunChroot {
    /// The directory that becomes the guest's root.
    pub closed spec fn root(&self) -> PathModel {
        self.rootdir@
    }

    /// The host directory of the store.
    pub closed spec fn store(&self) -> PathModel {
        self.nixdir@
    }

    /// Starts the construction of a root at `rootdir` that shows the store
    /// at `nixdir`.
    pub fn new(rootdir: HostPathBuf, nixdir: HostPathBuf) -> (out: Self)
        ensures
            out.root() == rootdir@,
            out.store() == nixdir@,
    {
        RunChroot { rootdir, nixdir }
    }

    /// Resolves a path as the guest sees it: `/nix` stands for the store.
    pub fn resolve(&self, path: &HostPathBuf, cwd: &HostPathBuf, snapshot: &Snapshot) -> (out:
        Resolution)
        ensures
            out@ == resolve(snapshot@, abs("/nix"), self.store(), cwd@, path@),
    {
        let mapping = (HostPathBuf::new("/nix"), self.nixdir.clone());
        resolve_symlink(&mapping, path, cwd, snapshot)
    }

    /// Resolves the user's profile, `.nix-profile` in `home`. Without a home
    /// there is no profile.
    pub fn nix_profile_path(
        &self,
        home: &Option<HostPathBuf>,
        cwd: &HostPathBuf,
        snapshot: &Snapshot,
    ) -> (out: Resolution)
        ensures
            out@ == match home {
                Some(dir) => resolve(
                    snapshot@,
                    abs("/nix"),
                    self.store(),
                    cwd@,
                    at(dir@, ".nix-profile"),
                ),
                None => Outcome::NotFound,
            },
    {
        match home {
            Some(dir) => self.resolve(&dir.join_str(".nix-profile"), cwd, snapshot),
            None => Resolution::NotFound,
        }
    }

    /// The request to bind the host's top-level `path` into the root.
    pub fn bind_root(&self, path: &HostPathBuf) -> (action: Action)
        ensures
            action@ == (ActionModel::Bind {
                source: PathModel::root().join(path@),
                target_dir: self.root(),
            }),
    {
        Action::Bind { source: HostPathBuf::root().join(path), target_dir: self.rootdir.clone() }
    }

    /// The request to bind `path` into the directory `reldir` of the root.
    pub fn bind(&self, path: &HostPathBuf, reldir: &HostPathBuf) -> (action: Action)
        ensures
            action@ == (ActionModel::Bind {
                source: path@,
                target_dir: self.root().join(reldir@),
            }),
    {
        Action::Bind { source: path.clone(), target_dir: self.rootdir.join(reldir) }
    }

    /// The request to bind the host's `source` into the root.
    fn bind_top(&self, source: &str) -> (action: Action)
        ensures
            action@ == (ActionModel::Bind { source: abs(source), target_dir: self.root() }),
    {
        Action::Bind { source: HostPathBuf::new(source), target_dir: self.rootdir.clone() }
    }

    /// Plans the move to new namespaces for the user `uid` of group `gid`.
    pub fn unshare(&self, uid: u32, gid: u32) -> (plan: Vec<Action>)
        ensures
            views(&plan) == enter_plan(self.root(), uid as nat, gid as nat),
    {
        enter_namespaces(&self.rootdir, uid, gid)
    }

    /// Plans the default binds. `bundles` holds the canonical path of each
    /// candidate trust bundle that is a regular file on the host.
    pub fn bind_defaults(&self, bundles: &Vec<HostPathBuf>) -> (plan: Vec<Action>)
        ensures
            views(&plan) == defaults_plan(self.root(), self.store(), path_views(bundles)),
    {
        let nix_mount = self.rootdir.join_str("nix");
        let mut plan: Vec<Action> = Vec::new();
        assert(views(&plan) =~= Seq::empty());
        push_action(&mut plan, Action::CreateDir(nix_mount.clone()));
        push_action(&mut plan, bind_mount(&self.nixdir, &nix_mount));
        push_action(&mut plan, self.bind_top("/dev"));
        push_action(&mut plan, self.bind_top("/proc"));
        push_action(&mut plan, self.bind_top("/home"));
        push_action(&mut plan, self.bind_top("/var"));
        push_action(&mut plan, self.bind_top("/run"));
        push_action(&mut plan, self.bind_top("/opt"));
        push_action(&mut plan, self.bind_top("/srv"));
        push_action(&mut plan, self.bind_top("/sys"));
        push_action(&mut plan, self.bind_top("/tmp"));
        let ghost head = views(&plan);
        assert(head =~= seq![
            ActionModel::CreateDir(at(self.root(), "nix")),
            ActionModel::Mount {
                source: self.store(),
                target: at(self.root(), "nix"),
                flags: MountFlags::spec_private_bind(),
            },
            ActionModel::Bind { source: abs("/dev"), target_dir: self.root() },
            ActionModel::Bind { source: abs("/proc"), target_dir: self.root() },
            ActionModel::Bind { source: abs("/home"), target_dir: self.root() },
            ActionModel::Bind { source: abs("/var"), target_dir: self.root() },
            ActionModel::Bind { source: abs("/run"), target_dir: self.root() },
            ActionModel::Bind { source: abs("/opt"), target_dir: self.root() },
            ActionModel::Bind { source: abs("/srv"), target_dir: self.root() },
            ActionModel::Bind { source: abs("/sys"), target_dir: self.root() },
            ActionModel::Bind { source: abs("/tmp"), target_dir: self.root() },
        ]);
        append_actions(&mut plan, bind_etc(&self.rootdir));
        append_actions(&mut plan, copy_certs(&self.rootdir, bundles));
        append_actions(&mut plan, bind_usr_share(&self.rootdir));
        plan
    }

    /// Plans the binds of the host's system directories.
    pub fn bind_host(&self) -> (plan: Vec<Action>)
        ensures
            views(&plan) == host_dirs_plan(self.root()),
    {
        let mut plan: Vec<Action> = Vec::new();
        assert(views(&plan) =~= Seq::empty());
        push_action(&mut plan, self.bind_top("/bin"));
        push_action(&mut plan, self.bind_top("/lib"));
        push_action(&mut plan, self.bind_top("/lib64"));
        push_action(&mut plan, self.bind_top("/usr"));
        assert(views(&plan) =~= host_dirs_plan(self.root()));
        plan
    }

    /// Plans the links into the user's profile, resolved to `profile`, and
    /// the place of the OpenGL driver.
    pub fn bind_nix_profile(&self, profile: &HostPathBuf, opengl_lib: &Option<HostPathBuf>) -> (plan:
        Vec<Action>)
        ensures
            views(&plan) == profile_plan(self.root(), profile@, opt_view(*opengl_lib)),
    {
        let mut plan = create_symlink(
            profile.join_str("bin/sh").to_bytes(),
            self.rootdir.join_str("bin/sh"),
        );
        append_actions(
            &mut plan,
            create_symlink(
                profile.join_str("bin/bash").to_bytes(),
                self.rootdir.join_str("bin/bash"),
            ),
        );
        append_actions(
            &mut plan,
            create_symlink(
                profile.join_str("bin/env").to_bytes(),
                self.rootdir.join_str("usr/bin/env"),
            ),
        );
        append_actions(&mut plan, bind_opengl(&self.rootdir, opengl_lib));
        plan
    }

    /// Plans the entry into the root and the launch of `cmd` with `args`
    /// inside it. The environment is put together as for every launch: what
    /// is forwarded from `host`, the assignments of `config`, then `envs`.
    pub fn exec(
        &self,
        config: &Config,
        host: &Env,
        cmd: &Vec<u8>,
        args: &Vec<Vec<u8>>,
        envs: &Env,
    ) -> (out: (Vec<Action>, Launch))
        ensures
            views(&out.0) == finish_plan(self.root()),
            out.1.program@ == cmd@,
            deep(&out.1.args) == deep(args),
            out.1.env.entries() == launch_entries(host@, config.env.entries(), envs.entries()),
    {
        (enter_root(&self.rootdir), run(config, host, cmd, args, envs))
    }
}

} // verus!
