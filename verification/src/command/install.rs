//! The first installation: the directories of a new store, the sandbox
//! around them, and the script that fills the store.

use crate::command::run::{launch_entries, run, Launch};
use crate::config::Config;
use crate::env::Env;
use crate::path::{HostPathBuf, PathModel};
use crate::plan::{append_actions, push_action, views, Action, ActionModel};
use crate::setup::{abs, at, setup, Survey};
use crate::text::{bytes_of, copy_bytes, deep, lit};
use vstd::prelude::*;

verus! {

/// Why nothing is installed.
#[derive(Clone, Copy, Debug, PartialEq, Eq, Structural)]
pub enum InstallError {
    /// The store directory exists already; it has to be deleted first.
    AlreadyInstalled,
    /// The user's home on the host is not an absolute path below the root.
    HomeNotAbsolute,
}

/// Where the install script is put inside the sandbox.
pub open spec fn script_path() -> PathModel {
    abs("/tmp/nixbox-install.sh")
}

/// The directories that an installation starts with.
pub open spec fn install_dirs(config: &Config) -> Seq<ActionModel> {
    seq![
        ActionModel::CreateDirAll { path: config.nix_home@, optional: false },
        ActionModel::CreateDirAll { path: at(config.data_dir@, "bin"), optional: false },
        ActionModel::CreateDirAll { path: at(config.data_dir@, "data"), optional: false },
        ActionModel::CreateDirAll { path: at(config.data_dir@, "config"), optional: false },
        ActionModel::CreateDirAll { path: at(config.data_dir@, "state"), optional: false },
    ]
}

/// What an installation does before its script runs: it makes the
/// directories, builds and enters the sandbox, and writes the script.
pub open spec fn install_plan(config: &Config, survey: &Survey, script: Seq<u8>) -> Seq<ActionModel> {
    install_dirs(config) + survey.plan(config) + seq![
        ActionModel::WriteFile { path: script_path(), data: script, optional: false },
    ]
}

/// Plans a first installation, and the launch of its script with `bash`.
///
/// `installed` says whether the store directory exists. An existing store
/// is never touched.
pub fn install(config: &Config, survey: &Survey, host: &Env, script: &Vec<u8>, installed: bool) -> (out:
    Result<(Vec<Action>, Launch), InstallError>)
    ensures
        out is Ok <==> !installed && survey.host_home@.absolute && survey.host_home@.parts.len()
            > 0,
        out is Err ==> out.unwrap_err() == if installed {
            InstallError::AlreadyInstalled
        } else {
            InstallError::HomeNotAbsolute
        },
        out is Ok ==> {
            &&& views(&out.unwrap().0) == install_plan(config, survey, script@)
            &&& out.unwrap().1.program@ == lit("bash")
            &&& deep(&out.unwrap().1.args) == seq![script_path().render()]
            &&& out.unwrap().1.env.entries() == launch_entries(
                host@,
                config.env.entries(),
                Seq::empty(),
            )
        },
{
    if installed {
        return Err(InstallError::AlreadyInstalled);
    }
    let build = match setup(config, survey) {
        Ok(build) => build,
        Err(_) => {
            return Err(InstallError::HomeNotAbsolute);
        },
    };
    let data = &config.data_dir;
    let mut plan: Vec<Action> = Vec::new();
    assert(views(&plan) =~= Seq::empty());
    push_action(&mut plan, Action::CreateDirAll { path: config.nix_home.clone(), optional: false });
    push_action(&mut plan, Action::CreateDirAll { path: data.join_str("bin"), optional: false });
    push_action(&mut plan, Action::CreateDirAll { path: data.join_str("data"), optional: false });
    push_action(&mut plan, Action::CreateDirAll { path: data.join_str("config"), optional: false });
    push_action(&mut plan, Action::CreateDirAll { path: data.join_str("state"), optional: false });
    assert(views(&plan) =~= install_dirs(config));
    append_actions(&mut plan, build);
    let target = HostPathBuf::new("/tmp/nixbox-install.sh");
    push_action(
        &mut plan,
        Action::WriteFile { path: target.clone(), data: copy_bytes(script), optional: false },
    );
    assert(views(&plan) =~= install_plan(config, survey, script@));
    let mut args: Vec<Vec<u8>> = Vec::new();
    args.push(target.to_bytes());
    assert(deep(&args) =~= seq![script_path().render()]);
    let program = bytes_of("bash");
    let none = Env::new();
    Ok((plan, run(config, host, &program, &args, &none)))
}

} // verus!
