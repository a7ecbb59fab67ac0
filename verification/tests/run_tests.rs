use nixbox::command::enter::{enter, login_shell, run_command, shell_override, CommandError};
use nixbox::command::install::{install, InstallError};
use nixbox::command::run::{forward, run};
use nixbox::config::{current_system_dir, data_dir, nix_profile_dir, runtime_dir, search_path};
use nixbox::config::{Config, ConfigError, UserConfig};
use nixbox::env::Env;
use nixbox::path::HostPathBuf;
use nixbox::plan::Action;
use nixbox::setup::{setup, Survey};
use nixbox::snapshot::{Node, Snapshot};
use nixbox::util::resolve_symlink::Resolution;

fn p(s: &str) -> HostPathBuf {
    HostPathBuf::new(s)
}

fn b(s: &str) -> Vec<u8> {
    s.as_bytes().to_vec()
}

fn env_of(pairs: &[(&str, &str)]) -> Env {
    let mut env = Env::new();
    for (name, value) in pairs {
        env.set(b(name), b(value));
    }
    env
}

fn host() -> Env {
    env_of(&[
        ("DISPLAY", ":0"),
        ("FOO", "bar"),
        ("HOME", "/home/u"),
        ("XDG_RUNTIME_DIR", "/run/user/1000"),
        ("PATH", "/host/bin"),
    ])
}

fn config(with_profile: bool) -> Config {
    Config::new(
        UserConfig::default(),
        &host(),
        p("/tmp/chroot"),
        &p("/usr/bin/nixbox"),
        with_profile,
        with_profile,
    )
    .unwrap()
}

const FORWARDED: [&str; 26] = [
    "DBUS_SESSION_BUS_ADDRESS",
    "DESKTOP_SESSION",
    "DISPLAY",
    "GDMSESSION",
    "GDM_LANG",
    "GIO_LAUNCHED_DESKTOP_FILE_PID",
    "GNOME_SETUP_DISPLAY",
    "HOME",
    "INVOCATION_ID",
    "JOURNAL_STREAM",
    "LANG",
    "MANAGERPID",
    "SESSION_MANAGER",
    "SHLVL",
    "SSH_AUTH_SOCK",
    "SYSTEMD_EXEC_PID",
    "TERM",
    "USER",
    "VTE_VERSION",
    "WAYLAND_DISPLAY",
    "XAUTHORITY",
    "XDG_CURRENT_DESKTOP",
    "XDG_RUNTIME_DIR",
    "XDG_SESSION_DESKTOP",
    "XDG_SESSION_TYPE",
    "XMODIFIERS",
];

#[test]
fn environment_projection() {
    // DISPLAY is set, WAYLAND_DISPLAY is not, FOO is not forwarded.
    let launch = run(&config(true), &host(), &b("true"), &vec![], &Env::new());
    assert_eq!(launch.env.get_str("DISPLAY"), Some(&b(":0")));
    assert_eq!(launch.env.get_str("WAYLAND_DISPLAY"), None);
    assert_eq!(launch.env.get_str("FOO"), None);
}

#[test]
fn forwarded_variable_is_set_exactly_if_set_on_host() {
    for name in FORWARDED {
        let with = env_of(&[("XDG_DATA_HOME", "/d"), (name, "value"), ("OTHER", "x")]);
        let without = env_of(&[("XDG_DATA_HOME", "/d"), ("OTHER", "x")]);
        let cfg = Config::new(UserConfig::default(), &host(), p("/c"), &p("/x"), true, true)
            .unwrap();
        let set = run(&cfg, &with, &b("true"), &vec![], &Env::new());
        assert_eq!(set.env.get_str(name), Some(&b("value")), "{}", name);
        let unset = run(&cfg, &without, &b("true"), &vec![], &Env::new());
        assert_eq!(unset.env.get_str(name), None, "{}", name);
    }
}

#[test]
fn exactly_the_forwarded_set_is_forwarded() {
    let mut every = Env::new();
    for name in FORWARDED {
        every.set(b(name), b("v"));
    }
    every.set(b("FOO"), b("bar"));
    every.set(b("PATH"), b("/host"));
    every.set(b("XDG_DATA_HOME"), b("/d"));
    let forwarded = forward(&every);
    assert_eq!(forwarded.len(), 26);
    for (i, name) in FORWARDED.iter().enumerate() {
        assert_eq!(*forwarded.name(i), b(name));
        assert_eq!(*forwarded.value(i), b("v"));
    }
    assert_eq!(forward(&Env::new()).len(), 0);
}

#[test]
fn later_assignments_override_earlier() {
    let overrides = env_of(&[("DISPLAY", ":1"), ("PATH", "/mine"), ("NEW", "1")]);
    let launch = run(&config(true), &host(), &b("sh"), &vec![b("-c"), b("true")], &overrides);
    assert_eq!(launch.program, b("sh"));
    assert_eq!(launch.args, vec![b("-c"), b("true")]);
    // The caller has the last word, then the configuration, then the host.
    assert_eq!(launch.env.get_str("DISPLAY"), Some(&b(":1")));
    assert_eq!(launch.env.get_str("PATH"), Some(&b("/mine")));
    assert_eq!(launch.env.get_str("NEW"), Some(&b("1")));
    assert_eq!(launch.env.get_str("NIX_CONF_DIR"), Some(&b("/nix/etc/nix")));
    assert_eq!(launch.env.get_str("HOME"), Some(&b("/home/u")));
    let plain = run(&config(true), &host(), &b("sh"), &vec![], &Env::new());
    assert_eq!(plain.env.get_str("PATH"), Some(&b("/home/u/.nix-profile/bin:/usr/bin:/bin")));
}

#[test]
fn configuration_derives_its_directories_and_environment() {
    let cfg = config(true);
    assert_eq!(cfg.user_config.shell, b("bash"));
    assert_eq!(cfg.data_dir, p("/home/u/.local/share/nixbox"));
    assert_eq!(cfg.runtime_dir, p("/run/user/1000/nixbox"));
    assert_eq!(cfg.nix_home, p("/home/u/.local/share/nixbox/nix"));
    assert_eq!(cfg.home, p("/home/u/.local/share/nixbox/home"));
    assert_eq!(cfg.chroot_dir, p("/tmp/chroot"));
    assert_eq!(cfg.nix_profile, Some(p("/home/u/.nix-profile")));
    assert_eq!(cfg.current_system, Some(p("/home/u/.local/share/nixbox/root")));
    assert_eq!(
        cfg.env,
        env_of(&[
            ("SHELL", "/bin/sh"),
            ("NIX_CONF_DIR", "/nix/etc/nix"),
            ("NIXBOX_BINDIR", "/home/u/.local/share/nixbox/bin"),
            ("NIXBOX_ROOT", "/home/u/.local/share/nixbox/root"),
            ("NIXOS_CONFIG", "/home/u/.local/share/nixbox/nixos-configuration.nix"),
            ("XDG_DATA_HOME", "/home/u/.local/share/nixbox/data"),
            ("XDG_STATE_HOME", "/home/u/.local/share/nixbox/state"),
            ("XDG_CONFIG_HOME", "/home/u/.local/share/nixbox/config"),
            ("NIXBOX_EXECUTABLE", "/usr/bin/nixbox"),
            ("PATH", "/home/u/.nix-profile/bin:/usr/bin:/bin"),
        ])
    );
    let bare = config(false);
    assert_eq!(bare.nix_profile, None);
    assert_eq!(bare.current_system, None);
    assert_eq!(bare.env.get_str("PATH"), Some(&b("/usr/local/bin:/usr/bin:/bin")));
}

#[test]
fn search_path_depends_on_the_profile() {
    assert_eq!(search_path(&None), b("/usr/local/bin:/usr/bin:/bin"));
    assert_eq!(search_path(&Some(p("/h/.nix-profile"))), b("/h/.nix-profile/bin:/usr/bin:/bin"));
}

#[test]
fn directories_come_from_the_environment() {
    let xdg = env_of(&[("XDG_DATA_HOME", "/data"), ("HOME", "/home/u")]);
    assert_eq!(data_dir(&xdg), Some(p("/data")));
    assert_eq!(current_system_dir(&xdg), Some(p("/data/root")));
    assert_eq!(nix_profile_dir(&xdg), Some(p("/home/u/.nix-profile")));
    assert_eq!(runtime_dir(&xdg), None);
    let home_only = env_of(&[("HOME", "/home/u")]);
    assert_eq!(data_dir(&home_only), Some(p("/home/u/.local/share/nixbox")));
    assert_eq!(data_dir(&Env::new()), None);
    assert_eq!(nix_profile_dir(&Env::new()), None);
    assert_eq!(current_system_dir(&Env::new()), None);
    assert_eq!(runtime_dir(&env_of(&[("XDG_RUNTIME_DIR", "/tmp/r")])), Some(p("/tmp/r/nixbox")));
}

#[test]
fn missing_variables_leave_no_configuration() {
    let no_runtime = env_of(&[("HOME", "/home/u")]);
    let no_data = env_of(&[("XDG_RUNTIME_DIR", "/tmp/r")]);
    for env in [no_runtime, no_data, Env::new()] {
        let out = Config::new(UserConfig::default(), &env, p("/c"), &p("/x"), true, true);
        assert_eq!(out.err(), Some(ConfigError::ConfigMissing));
    }
}

#[test]
fn user_configuration_or_default() {
    assert_eq!(UserConfig::default().shell, b("bash"));
    assert_eq!(UserConfig::from_file_or_default(None).shell, b("bash"));
    let fish = UserConfig { shell: b("fish") };
    assert_eq!(UserConfig::from_file_or_default(Some(fish.clone())), fish);
    let cfg = Config::from_file_or_default(Some(fish), &host(), p("/c"), &p("/x"), false, false)
        .unwrap();
    assert_eq!(cfg.user_config.shell, b("fish"));
    let cfg = Config::from_file_or_default(None, &host(), p("/c"), &p("/x"), false, false).unwrap();
    assert_eq!(cfg.user_config.shell, b("bash"));
    assert!(Config::from_file_or_default(None, &Env::new(), p("/c"), &p("/x"), false, false)
        .is_err());
}

#[test]
fn service_environment_joins_the_configuration() {
    let mut cfg = config(true);
    cfg.add_env(&env_of(&[("PATH", "/guest/bin"), ("LOCALE_ARCHIVE", "/x")]));
    assert_eq!(cfg.env.len(), 12);
    assert_eq!(cfg.env.get_str("PATH"), Some(&b("/guest/bin")));
    assert_eq!(cfg.env.get_str("LOCALE_ARCHIVE"), Some(&b("/x")));
    assert_eq!(cfg.env.get_str("SHELL"), Some(&b("/bin/sh")));
}

#[test]
fn guest_paths_resolve_into_the_store() {
    let cfg = config(true);
    let mut snapshot = Snapshot::new();
    for dir in [
        "/home",
        "/home/u",
        "/home/u/.local",
        "/home/u/.local/share",
        "/home/u/.local/share/nixbox",
        "/home/u/.local/share/nixbox/nix",
        "/home/u/.local/share/nixbox/nix/store",
    ] {
        snapshot.insert(p(dir), Node::Dir);
    }
    snapshot.insert(p("/home/u/.local/share/nixbox/nix/sh"), Node::Symlink(p("/nix/store/sh")));
    snapshot.insert(p("/home/u/.local/share/nixbox/nix/store/sh"), Node::File);
    assert_eq!(
        cfg.guest_resolve_symlink(&p("/nix/sh"), &p("/"), &snapshot),
        Resolution::Found(p("/home/u/.local/share/nixbox/nix/store/sh"))
    );
    assert_eq!(
        cfg.guest_resolve_symlink(&p("/nix/other"), &p("/"), &snapshot),
        Resolution::Need(p("/home/u/.local/share/nixbox/nix/other"))
    );
}

#[test]
fn login_shell_follows_the_environment() {
    assert_eq!(login_shell(&Env::new()), Ok(p("/run/current-system/sw/bin/bash")));
    assert_eq!(login_shell(&env_of(&[("NIXBOX_SHELL", "/bin/zsh")])), Ok(p("/bin/zsh")));
    assert_eq!(
        login_shell(&env_of(&[("NIXBOX_SHELL", "fish"), ("HOME", "/home/u")])),
        Ok(p("/home/u/.nix-profile/bin/fish"))
    );
    assert_eq!(
        login_shell(&env_of(&[("NIXBOX_SHELL", "fish")])),
        Err(CommandError::ConfigMissing)
    );
    assert_eq!(shell_override(&p("/bin/zsh")), env_of(&[("SHELL", "/bin/zsh")]));
}

#[test]
fn enter_launches_the_login_shell() {
    let launch = enter(&config(true), &host()).unwrap();
    assert_eq!(launch.program, b("bash"));
    assert_eq!(launch.args, vec![b("-lc"), b("/run/current-system/sw/bin/bash")]);
    assert_eq!(launch.env.get_str("SHELL"), Some(&b("/run/current-system/sw/bin/bash")));
    let no_home = env_of(&[("NIXBOX_SHELL", "fish")]);
    assert_eq!(enter(&config(true), &no_home), Err(CommandError::ConfigMissing));
}

#[test]
fn run_launches_the_named_program() {
    let rest = vec![b("/bin/sh"), b("-c"), b("echo $$ > /tmp/out")];
    let launch = run_command(&config(true), &host(), &rest).unwrap();
    assert_eq!(launch.program, b("/bin/sh"));
    assert_eq!(launch.args, vec![b("-c"), b("echo $$ > /tmp/out")]);
    assert_eq!(launch.env.get_str("SHELL"), Some(&b("/run/current-system/sw/bin/bash")));
    assert_eq!(run_command(&config(true), &host(), &vec![]), Err(CommandError::NoProgram));
    let no_home = env_of(&[("NIXBOX_SHELL", "fish")]);
    assert_eq!(
        run_command(&config(true), &no_home, &vec![]),
        Err(CommandError::ConfigMissing)
    );
}

#[test]
fn installation_never_touches_an_existing_store() {
    let survey = Survey {
        uid: 1,
        gid: 1,
        host_home: p("/home/u"),
        opengl_lib: None,
        cert_bundles: vec![],
        system_profile: false,
        system_etc: vec![],
        guest_etc: vec![],
        tmpfiles: vec![],
    };
    let cfg = config(false);
    let script = b("set -eux\n");
    assert_eq!(
        install(&cfg, &survey, &host(), &script, true).err(),
        Some(InstallError::AlreadyInstalled)
    );
    let (plan, launch) = install(&cfg, &survey, &host(), &script, false).unwrap();
    let dir = |s: &str| Action::CreateDirAll { path: p(s), optional: false };
    let mut expect = vec![
        dir("/home/u/.local/share/nixbox/nix"),
        dir("/home/u/.local/share/nixbox/bin"),
        dir("/home/u/.local/share/nixbox/data"),
        dir("/home/u/.local/share/nixbox/config"),
        dir("/home/u/.local/share/nixbox/state"),
    ];
    expect.extend(setup(&cfg, &survey).unwrap());
    expect.push(Action::WriteFile {
        path: p("/tmp/nixbox-install.sh"),
        data: script.clone(),
        optional: false,
    });
    assert_eq!(plan, expect);
    assert_eq!(launch.program, b("bash"));
    assert_eq!(launch.args, vec![b("/tmp/nixbox-install.sh")]);
    let mut homeless = survey;
    homeless.host_home = p("");
    assert_eq!(
        install(&cfg, &homeless, &host(), &script, false).err(),
        Some(InstallError::HomeNotAbsolute)
    );
}

#[test]
fn environment_is_a_list_of_assignments() {
    let mut env = Env::new();
    assert_eq!(env.len(), 0);
    assert_eq!(env.get(&b("A")), None);
    env.set(b("A"), b("1"));
    env.set_str("B", "2");
    env.set(b("A"), b("3"));
    assert_eq!(env.len(), 3);
    assert_eq!(env.get(&b("A")), Some(&b("3")));
    assert_eq!(env.get_str("B"), Some(&b("2")));
    assert_eq!((env.name(0).clone(), env.value(0).clone()), (b("A"), b("1")));
    let copy = env.clone();
    assert_eq!(copy, env);
    let mut more = env_of(&[("B", "0")]);
    more.extend(&env);
    assert_eq!(more.len(), 4);
    assert_eq!(more.get_str("B"), Some(&b("2")));
    assert_eq!(more.get_str("A"), Some(&b("3")));
}
