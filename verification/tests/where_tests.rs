use nixbox::bind::target_of;
use nixbox::certs::candidate_files;
use nixbox::config::{Config, UserConfig};
use nixbox::env::Env;
use nixbox::init::{namespace_path, published_paths, unavailable_message};
use nixbox::path::HostPathBuf;
use nixbox::plan::Action;
use nixbox::setup::{opengl_driver, setup, system_profile, tmpfiles_dirs, Survey};

fn p(s: &str) -> HostPathBuf {
    HostPathBuf::new(s)
}

fn b(s: &str) -> Vec<u8> {
    s.as_bytes().to_vec()
}

fn config(with_profile: bool, with_system: bool) -> Config {
    let mut host = Env::new();
    host.set_str("HOME", "/home/u");
    host.set_str("XDG_DATA_HOME", "/data");
    host.set_str("XDG_RUNTIME_DIR", "/run/user/1");
    Config::new(UserConfig::default(), &host, p("/tmp/c"), &p("/x"), with_profile, with_system)
        .unwrap()
}

fn place(action: &Action) -> Option<&HostPathBuf> {
    match action {
        Action::CreateDir(path) => Some(path),
        Action::CreateDirAll { path, .. } => Some(path),
        Action::CreateFile(path) => Some(path),
        Action::Mount { target, .. } => Some(target),
        Action::Symlink { link, .. } => Some(link),
        Action::Copy { to, .. } => Some(to),
        Action::Bind { target_dir, .. } => Some(target_dir),
        Action::BindEntries { target_dir, .. } => Some(target_dir),
        _ => None,
    }
}

#[test]
fn build_stays_within_the_root() {
    let survey = Survey {
        uid: 1,
        gid: 1,
        host_home: p("/home/u"),
        opengl_lib: Some(p("/data/nix/store/ogl/lib")),
        cert_bundles: vec![p("/etc/ssl/certs/ca-certificates.crt"), p("/etc/pki/x.crt")],
        system_profile: true,
        system_etc: vec![b("profile"), b(".."), b("a/b"), b("/abs")],
        guest_etc: vec![],
        tmpfiles: vec![b("L+ /etc/x - - - - /y\nL+ //a/../../b - - - - z\nL+ / - - - - z\n")],
    };
    for with_profile in [true, false] {
        let plan = setup(&config(with_profile, false), &survey).unwrap();
        let root = p("/tmp/c");
        // The first five actions leave the namespaces, the last four enter
        // the root; what lies between is the build.
        for action in &plan[5..plan.len() - 4] {
            if let Some(path) = place(action) {
                let inside = path.starts_with(&root);
                let above = matches!(action, Action::CreateDirAll { .. }) && root.starts_with(path);
                assert!(inside || above, "{:?}", action);
            }
        }
    }
}

#[test]
fn places_that_are_looked_at() {
    assert_eq!(
        candidate_files(),
        vec![
            p("/etc/ssl/certs/ca-certificates.crt"),
            p("/etc/ssl/certs/ca-bundle.crt"),
            p("/etc/pki/tls/certs/ca-bundle.crt"),
        ]
    );
    assert_eq!(opengl_driver(), p("/nix/var/nix/opengl-driver"));
    assert_eq!(system_profile(), p("/nix/var/nix/profiles/system"));
    assert_eq!(
        tmpfiles_dirs(&config(true, true)),
        vec![
            p("/home/u/.nix-profile/lib/tmpfiles.d"),
            p("/home/u/.nix-profile/etc/tmpfiles.d"),
            p("/data/root/lib/tmpfiles.d"),
            p("/data/root/etc/tmpfiles.d"),
        ]
    );
    assert_eq!(
        tmpfiles_dirs(&config(true, false)),
        vec![p("/home/u/.nix-profile/lib/tmpfiles.d"), p("/home/u/.nix-profile/etc/tmpfiles.d")]
    );
    assert_eq!(tmpfiles_dirs(&config(false, false)), vec![]);
}

#[test]
fn places_of_the_service() {
    assert_eq!(
        published_paths(&p("/run/user/1/nixbox")),
        (
            p("/run/user/1/nixbox/server.pid"),
            p("/run/user/1/nixbox/chroot"),
            p("/run/user/1/nixbox/environ"),
        )
    );
    assert_eq!(namespace_path(42, "mnt"), p("/proc/42/ns/mnt"));
    assert_eq!(namespace_path(42, "user"), p("/proc/42/ns/user"));
    assert_eq!(
        unavailable_message(),
        b("nixbox initial process not started: run 'nixbox init'")
    );
}

#[test]
fn place_of_a_bound_source() {
    assert_eq!(target_of(&p("/etc/passwd"), &p("/c/etc")), Some(p("/c/etc/passwd")));
    assert_eq!(target_of(&p("/"), &p("/c")), None);
    assert_eq!(target_of(&p("/a/.."), &p("/c")), None);
}
