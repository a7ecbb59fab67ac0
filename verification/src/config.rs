//! The configuration of one sandbox: where its parts live on the host, and
//! the environment that programs inside it start with.

use crate::env::Env;
use crate::path::{parse_path, HostPathBuf, PathModel};
use crate::snapshot::Snapshot;
use crate::text::{append_str, bytes_of, copy_bytes, lit};
use crate::util::resolve_symlink::{resolve, resolve_symlink, Resolution};
use vstd::prelude::*;

verus! {

/// What the user chose.
#[derive(Debug, PartialEq, Eq)]
pub struct UserConfig {
    /// The name of the login shell.
    pub shell: Vec<u8>,
}

impl Default for UserConfig {
    fn default() -> (out: Self)
        ensures
            out.shell@ == lit("bash"),
    {
        UserConfig { shell: bytes_of("bash") }
    }
}

impl Clone for UserConfig {
    fn clone(&self) -> (out: Self)
        ensures
            out.shell@ == self.shell@,
    {
        UserConfig { shell: copy_bytes(&self.shell) }
    }
}

impl UserConfig {
    /// What the user chose: what the configuration file held, or the
    /// defaults where it held nothing usable.
    pub fn from_file_or_default(parsed: Option<UserConfig>) -> (out: Self)
        ensures
            out.shell@ == match parsed {
                Some(user) => user.shell@,
                None => lit("bash"),
            },
    {
        match parsed {
            Some(user) => user,
            None => UserConfig::default(),
        }
    }
}

/// Why no configuration can be made.
#[derive(Clone, Copy, Debug, PartialEq, Eq, Structural)]
pub enum ConfigError {
    /// A variable that locates the data or runtime directory is not set.
    ConfigMissing,
}

/// The persistent directory that the host environment points to:
/// `XDG_DATA_HOME` if set, else `.local/share/nixbox` under `HOME`.
pub open spec fn spec_data_dir(env: Map<Seq<u8>, Seq<u8>>) -> Option<PathModel> {
    if env.dom().contains(lit("XDG_DATA_HOME")) {
        Some(parse_path(env[lit("XDG_DATA_HOME")]))
    } else if env.dom().contains(lit("HOME")) {
        Some(parse_path(env[lit("HOME")]).join(parse_path(lit(".local/share/nixbox"))))
    } else {
        None
    }
}

/// The per-user runtime directory: `nixbox` under `XDG_RUNTIME_DIR`.
pub open spec fn spec_runtime_dir(env: Map<Seq<u8>, Seq<u8>>) -> Option<PathModel> {
    if env.dom().contains(lit("XDG_RUNTIME_DIR")) {
        Some(parse_path(env[lit("XDG_RUNTIME_DIR")]).join(parse_path(lit("nixbox"))))
    } else {
        None
    }
}

/// Where the user's profile would be: `.nix-profile` under `HOME`.
pub open spec fn spec_nix_profile_dir(env: Map<Seq<u8>, Seq<u8>>) -> Option<PathModel> {
    if env.dom().contains(lit("HOME")) {
        Some(parse_path(env[lit("HOME")]).join(parse_path(lit(".nix-profile"))))
    } else {
        None
    }
}

/// Where the current system would be: `root` under the data directory.
pub open spec fn spec_current_system_dir(env: Map<Seq<u8>, Seq<u8>>) -> Option<PathModel> {
    match spec_data_dir(env) {
        Some(dir) => Some(dir.join(parse_path(lit("root")))),
        None => None,
    }
}

/// Whether `out` holds the path `model`, or neither holds anything.
pub open spec fn same_path(out: Option<HostPathBuf>, model: Option<PathModel>) -> bool {
    match out {
        Some(p) => model == Some(p@),
        None => model.is_none(),
    }
}

/// The persistent directory that the host environment points to.
pub fn data_dir(env: &Env) -> (out: Option<HostPathBuf>)
    ensures
        same_path(out, spec_data_dir(env@)),
{
    match env.get_str("XDG_DATA_HOME") {
        Some(value) => Some(HostPathBuf::from_bytes(value)),
        None => match env.get_str("HOME") {
            Some(home) => Some(HostPathBuf::from_bytes(home).join_str(".local/share/nixbox")),
            None => None,
        },
    }
}

/// The per-user runtime directory.
pub fn runtime_dir(env: &Env) -> (out: Option<HostPathBuf>)
    ensures
        same_path(out, spec_runtime_dir(env@)),
{
    match env.get_str("XDG_RUNTIME_DIR") {
        Some(value) => Some(HostPathBuf::from_bytes(value).join_str("nixbox")),
        None => None,
    }
}

/// Where the user's profile would be.
pub fn nix_profile_dir(env: &Env) -> (out: Option<HostPathBuf>)
    ensures
        same_path(out, spec_nix_profile_dir(env@)),
{
    match env.get_str("HOME") {
        Some(home) => Some(HostPathBuf::from_bytes(home).join_str(".nix-profile")),
        None => None,
    }
}

/// Where the current system would be.
pub fn current_system_dir(env: &Env) -> (out: Option<HostPathBuf>)
    ensures
        same_path(out, spec_current_system_dir(env@)),
{
    match data_dir(env) {
        Some(dir) => Some(dir.join_str("root")),
        None => None,
    }
}

/// The `PATH` inside the sandbox: the profile's `bin` first where there is a
/// profile, the local `bin` first where there is none.
pub open spec fn spec_search_path(nix_profile: Option<PathModel>) -> Seq<u8> {
    match nix_profile {
        Some(profile) => profile.join(parse_path(lit("bin"))).render() + lit(":/usr/bin:/bin"),
        None => lit("/usr/local/bin:/usr/bin:/bin"),
    }
}

/// The `PATH` inside the sandbox.
pub fn search_path(nix_profile: &Option<HostPathBuf>) -> (out: Vec<u8>)
    ensures
        out@ == spec_search_path(
            match nix_profile {
                Some(p) => Some(p@),
                None => None,
            },
        ),
{
    match nix_profile {
        Some(profile) => {
            let mut out = profile.join_str("bin").to_bytes();
            append_str(&mut out, ":/usr/bin:/bin");
            out
        },
        None => bytes_of("/usr/local/bin:/usr/bin:/bin"),
    }
}

/// The assignments that a configuration derives from its directories, in
/// order.
pub open spec fn derived_env(
    data_dir: PathModel,
    executable: PathModel,
    nix_profile: Option<PathModel>,
) -> Seq<(Seq<u8>, Seq<u8>)> {
    seq![
        (lit("SHELL"), lit("/bin/sh")),
        (lit("NIX_CONF_DIR"), lit("/nix/etc/nix")),
        (lit("NIXBOX_BINDIR"), data_dir.join(parse_path(lit("bin"))).render()),
        (lit("NIXBOX_ROOT"), data_dir.join(parse_path(lit("root"))).render()),
        (lit("NIXOS_CONFIG"), data_dir.join(parse_path(lit("nixos-configuration.nix"))).render()),
        (lit("XDG_DATA_HOME"), data_dir.join(parse_path(lit("data"))).render()),
        (lit("XDG_STATE_HOME"), data_dir.join(parse_path(lit("state"))).render()),
        (lit("XDG_CONFIG_HOME"), data_dir.join(parse_path(lit("config"))).render()),
        (lit("NIXBOX_EXECUTABLE"), executable.render()),
        (lit("PATH"), spec_search_path(nix_profile)),
    ]
}

/// The configuration of one sandbox.
#[derive(Debug)]
pub struct Config {
    /// What the user chose.
    pub user_config: UserConfig,
    /// The persistent directory.
    pub data_dir: HostPathBuf,
    /// The per-user runtime directory.
    pub runtime_dir: HostPathBuf,
    /// The host directory that the guest sees as `/nix`.
    pub nix_home: HostPathBuf,
    /// The host directory that the guest sees as the user's home.
    pub home: HostPathBuf,
    /// The directory that becomes the guest's root.
    pub chroot_dir: HostPathBuf,
    /// The user's profile, where there is one.
    pub nix_profile: Option<HostPathBuf>,
    /// The current system, where there is one.
    pub current_system: Option<HostPathBuf>,
    /// The assignments that every program in the sandbox starts with.
    pub env: Env,
}

impl Config {
    /// The guest prefix: `/nix`.
    pub open spec fn guest_prefix() -> PathModel {
        parse_path(lit("/nix"))
    }

    /// What the fields of a configuration are, given what went into it.
    pub open spec fn derived_from(
        self,
        shell: Seq<u8>,
        env: Map<Seq<u8>, Seq<u8>>,
        chroot_dir: PathModel,
        executable: PathModel,
        profile_present: bool,
        system_present: bool,
    ) -> bool {
        let data = spec_data_dir(env).unwrap();
        let profile = if profile_present {
            spec_nix_profile_dir(env)
        } else {
            None
        };
        &&& self.user_config.shell@ == shell
        &&& self.data_dir@ == data
        &&& self.runtime_dir@ == spec_runtime_dir(env).unwrap()
        &&& self.nix_home@ == data.join(parse_path(lit("nix")))
        &&& self.home@ == data.join(parse_path(lit("home")))
        &&& self.chroot_dir@ == chroot_dir
        &&& same_path(self.nix_profile, profile)
        &&& same_path(
            self.current_system,
            if system_present {
                spec_current_system_dir(env)
            } else {
                None
            },
        )
        &&& self.env.entries() == derived_env(data, executable, profile)
    }

    /// Makes the configuration for the host environment `env`.
    ///
    /// `chroot_dir` is the directory set aside for the guest's root and
    /// `executable` the path of the running program. `profile_present` and
    /// `system_present` say whether anything stands at
    /// [`nix_profile_dir`] and at [`current_system_dir`]. Without a data
    /// directory or a runtime directory there is no configuration.
    pub fn new(
        user_config: UserConfig,
        env: &Env,
        chroot_dir: HostPathBuf,
        executable: &HostPathBuf,
        profile_present: bool,
        system_present: bool,
    ) -> (out: Result<Config, ConfigError>)
        ensures
            out is Ok <==> spec_data_dir(env@) is Some && spec_runtime_dir(env@) is Some,
            out is Ok ==> out.unwrap().derived_from(
                user_config.shell@,
                env@,
                chroot_dir@,
                executable@,
                profile_present,
                system_present,
            ),
    {
        let data = match data_dir(env) {
            Some(dir) => dir,
            None => {
                return Err(ConfigError::ConfigMissing);
            },
        };
        let runtime = match runtime_dir(env) {
            Some(dir) => dir,
            None => {
                return Err(ConfigError::ConfigMissing);
            },
        };
        let nix_profile = if profile_present {
            nix_profile_dir(env)
        } else {
            None
        };
        let current_system = if system_present {
            current_system_dir(env)
        } else {
            None
        };
        let mut vars = Env::new();
        vars.set_str("SHELL", "/bin/sh");
        vars.set_str("NIX_CONF_DIR", "/nix/etc/nix");
        vars.set(bytes_of("NIXBOX_BINDIR"), data.join_str("bin").to_bytes());
        vars.set(bytes_of("NIXBOX_ROOT"), data.join_str("root").to_bytes());
        vars.set(bytes_of("NIXOS_CONFIG"), data.join_str("nixos-configuration.nix").to_bytes());
        vars.set(bytes_of("XDG_DATA_HOME"), data.join_str("data").to_bytes());
        vars.set(bytes_of("XDG_STATE_HOME"), data.join_str("state").to_bytes());
        vars.set(bytes_of("XDG_CONFIG_HOME"), data.join_str("config").to_bytes());
        vars.set(bytes_of("NIXBOX_EXECUTABLE"), executable.to_bytes());
        vars.set(bytes_of("PATH"), search_path(&nix_profile));
        let ghost profile = if profile_present {
            spec_nix_profile_dir(env@)
        } else {
            None
        };
        assert(vars.entries() =~= derived_env(data@, executable@, profile));
        Ok(
            Config {
                user_config,
                nix_home: data.join_str("nix"),
                home: data.join_str("home"),
                data_dir: data,
                runtime_dir: runtime,
                chroot_dir,
                nix_profile,
                current_system,
                env: vars,
            },
        )
    }

    /// Makes the configuration from what the user's configuration file held,
    /// or from the defaults where it held nothing usable.
    pub fn from_file_or_default(
        parsed: Option<UserConfig>,
        env: &Env,
        chroot_dir: HostPathBuf,
        executable: &HostPathBuf,
        profile_present: bool,
        system_present: bool,
    ) -> (out: Result<Config, ConfigError>)
        ensures
            out is Ok <==> spec_data_dir(env@) is Some && spec_runtime_dir(env@) is Some,
            out is Ok ==> out.unwrap().derived_from(
                match parsed {
                    Some(user) => user.shell@,
                    None => lit("bash"),
                },
                env@,
                chroot_dir@,
                executable@,
                profile_present,
                system_present,
            ),
    {
        let user_config = UserConfig::from_file_or_default(parsed);
        Config::new(user_config, env, chroot_dir, executable, profile_present, system_present)
    }

    /// Resolves a path as the guest sees it to the place on the host that it
    /// denotes: `/nix` stands for this configuration's store directory.
    pub fn guest_resolve_symlink(&self, path: &HostPathBuf, cwd: &HostPathBuf, snapshot: &Snapshot) -> (out:
        Resolution)
        ensures
            out@ == resolve(snapshot@, Config::guest_prefix(), self.nix_home@, cwd@, path@),
    {
        let mapping = (HostPathBuf::new("/nix"), self.nix_home.clone());
        resolve_symlink(&mapping, path, cwd, snapshot)
    }

    /// Adds assignments to this configuration's environment, after its own.
    pub fn add_env(&mut self, more: &Env)
        ensures
            final(self).env.entries() == old(self).env.entries() + more.entries(),
            final(self).env@ == old(self).env@.union_prefer_right(more@),
            final(self).user_config == old(self).user_config,
            final(self).data_dir == old(self).data_dir,
            final(self).runtime_dir == old(self).runtime_dir,
            final(self).nix_home == old(self).nix_home,
            final(self).home == old(self).home,
            final(self).chroot_dir == old(self).chroot_dir,
            final(self).nix_profile == old(self).nix_profile,
            final(self).current_system == old(self).current_system,
    {
        self.env.extend(more);
    }
}

} // verus!
