use nixbox::certs::copy_certs;
use nixbox::config::{Config, UserConfig};
use nixbox::env::Env;
use nixbox::exec::RunChroot;
use nixbox::path::HostPathBuf;
use nixbox::plan::{Action, MountFlags};
use nixbox::setup::{bind_etc, bind_opengl, bind_usr_share, enter_namespaces, enter_root};
use nixbox::snapshot::{Node, Snapshot};
use nixbox::util::resolve_symlink::Resolution;

fn p(s: &str) -> HostPathBuf {
    HostPathBuf::new(s)
}

fn b(s: &str) -> Vec<u8> {
    s.as_bytes().to_vec()
}

fn bind_of(source: &str, target_dir: &str) -> Action {
    Action::Bind { source: p(source), target_dir: p(target_dir) }
}

fn linked(text: &str, link: &str, dir: &str) -> Vec<Action> {
    vec![
        Action::CreateDirAll { path: p(dir), optional: false },
        Action::Symlink { text: b(text), link: p(link) },
    ]
}

fn chroot() -> RunChroot {
    RunChroot::new(p("/tmp/root"), p("/opt/store"))
}

#[test]
fn run_chroot_binds_host_directories() {
    assert_eq!(
        chroot().bind_host(),
        vec![
            bind_of("/bin", "/tmp/root"),
            bind_of("/lib", "/tmp/root"),
            bind_of("/lib64", "/tmp/root"),
            bind_of("/usr", "/tmp/root"),
        ]
    );
}

#[test]
fn run_chroot_single_binds() {
    assert_eq!(chroot().bind_root(&p("dev")), bind_of("/dev", "/tmp/root"));
    assert_eq!(chroot().bind_root(&p("/dev")), bind_of("/dev", "/tmp/root"));
    assert_eq!(chroot().bind(&p("/etc/passwd"), &p("etc")), bind_of("/etc/passwd", "/tmp/root/etc"));
}

#[test]
fn run_chroot_default_binds() {
    let bundles = vec![p("/etc/ssl/certs/ca-bundle.crt")];
    let plan = chroot().bind_defaults(&bundles);
    let mut expect = vec![
        Action::CreateDir(p("/tmp/root/nix")),
        Action::Mount {
            source: p("/opt/store"),
            target: p("/tmp/root/nix"),
            flags: MountFlags { bind: true, recursive: true, private: true },
        },
    ];
    for top in ["/dev", "/proc", "/home", "/var", "/run", "/opt", "/srv", "/sys", "/tmp"] {
        expect.push(bind_of(top, "/tmp/root"));
    }
    expect.extend(bind_etc(&p("/tmp/root")));
    expect.extend(copy_certs(&p("/tmp/root"), &bundles));
    expect.extend(bind_usr_share(&p("/tmp/root")));
    assert_eq!(plan, expect);
}

#[test]
fn run_chroot_profile_links() {
    let plan = chroot().bind_nix_profile(&p("/opt/store/profile"), &None);
    let mut expect = linked("/opt/store/profile/bin/sh", "/tmp/root/bin/sh", "/tmp/root/bin");
    expect.extend(linked("/opt/store/profile/bin/bash", "/tmp/root/bin/bash", "/tmp/root/bin"));
    expect.extend(linked(
        "/opt/store/profile/bin/env",
        "/tmp/root/usr/bin/env",
        "/tmp/root/usr/bin",
    ));
    expect.extend(bind_opengl(&p("/tmp/root"), &None));
    assert_eq!(plan, expect);
}

#[test]
fn run_chroot_unshare_and_exec() {
    assert_eq!(chroot().unshare(1000, 100), enter_namespaces(&p("/tmp/root"), 1000, 100));
    let mut host = Env::new();
    host.set_str("HOME", "/home/u");
    host.set_str("XDG_RUNTIME_DIR", "/run/user/1000");
    host.set_str("TERM", "xterm");
    let config =
        Config::new(UserConfig::default(), &host, p("/tmp/root"), &p("/x"), false, false).unwrap();
    let (plan, launch) = chroot().exec(&config, &host, &b("ls"), &vec![b("-l")], &Env::new());
    assert_eq!(plan, enter_root(&p("/tmp/root")));
    assert_eq!(launch.program, b("ls"));
    assert_eq!(launch.args, vec![b("-l")]);
    assert_eq!(launch.env.get_str("TERM"), Some(&b("xterm")));
    assert_eq!(launch.env.get_str("NIX_CONF_DIR"), Some(&b("/nix/etc/nix")));
}

#[test]
fn run_chroot_resolves_through_the_store() {
    let mut snapshot = Snapshot::new();
    snapshot.insert(p("/home"), Node::Dir);
    snapshot.insert(p("/home/u"), Node::Dir);
    snapshot.insert(p("/home/u/.nix-profile"), Node::Symlink(p("/nix/profiles/user")));
    snapshot.insert(p("/opt"), Node::Dir);
    snapshot.insert(p("/opt/store"), Node::Dir);
    snapshot.insert(p("/opt/store/profiles"), Node::Dir);
    snapshot.insert(p("/opt/store/profiles/user"), Node::Dir);
    let found = Resolution::Found(p("/opt/store/profiles/user"));
    assert_eq!(chroot().resolve(&p("/home/u/.nix-profile"), &p("/"), &snapshot), found);
    assert_eq!(chroot().nix_profile_path(&Some(p("/home/u")), &p("/"), &snapshot), found);
    assert_eq!(chroot().nix_profile_path(&None, &p("/"), &snapshot), Resolution::NotFound);
}
