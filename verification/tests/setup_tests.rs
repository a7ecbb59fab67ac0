use nixbox::certs::{copy_certs, count_distinct};
use nixbox::config::{Config, UserConfig};
use nixbox::env::Env;
use nixbox::path::HostPathBuf;
use nixbox::plan::{Action, MountFlags};
use nixbox::setup::{bind_common, bind_guest, bind_host, bind_tmpfiles, create_symlink};
use nixbox::setup::{enter_namespaces, enter_root, format_id_map, mirror_etc, remove_chroot, setup};
use nixbox::setup::{SetupError, Survey};
use nixbox::snapshot::Node;
use nixbox::tmpfiles::{parse_line, plan_file, plan_line};

fn p(s: &str) -> HostPathBuf {
    HostPathBuf::new(s)
}

fn b(s: &str) -> Vec<u8> {
    s.as_bytes().to_vec()
}

fn private() -> MountFlags {
    MountFlags { bind: true, recursive: true, private: true }
}

fn bind_of(source: &str, target_dir: &str) -> Action {
    Action::Bind { source: p(source), target_dir: p(target_dir) }
}

fn linked(text: &str, link: &str, dir: &str) -> Vec<Action> {
    vec![
        Action::CreateDirAll { path: p(dir), optional: false },
        Action::Symlink { text: b(text), link: p(link) },
    ]
}

fn host_env() -> Env {
    let mut env = Env::new();
    env.set_str("HOME", "/tmp/h");
    env.set_str("XDG_RUNTIME_DIR", "/tmp/r");
    env
}

fn config(with_profile: bool) -> Config {
    Config::new(
        UserConfig::default(),
        &host_env(),
        p("/tmp/chroot"),
        &p("/usr/bin/nixbox"),
        with_profile,
        false,
    )
    .unwrap()
}

fn survey() -> Survey {
    Survey {
        uid: 1000,
        gid: 100,
        host_home: p("/tmp/h"),
        opengl_lib: None,
        cert_bundles: vec![],
        system_profile: false,
        system_etc: vec![],
        guest_etc: vec![],
        tmpfiles: vec![],
    }
}

#[test]
fn id_map_line_maps_the_id_to_itself() {
    assert_eq!(format_id_map(1000), b("1000 1000 1"));
    assert_eq!(format_id_map(0), b("0 0 1"));
    assert_eq!(format_id_map(u32::MAX), b("4294967295 4294967295 1"));
}

#[test]
fn namespaces_are_left_before_anything_is_built() {
    assert_eq!(
        enter_namespaces(&p("/tmp/chroot"), 1000, 100),
        vec![
            Action::CreateDirAll { path: p("/tmp/chroot"), optional: false },
            Action::Unshare { user: true, mount: true, uts: true },
            Action::WriteFile {
                path: p("/proc/self/setgroups"),
                data: b("deny"),
                optional: true
            },
            Action::WriteFile {
                path: p("/proc/self/uid_map"),
                data: b("1000 1000 1"),
                optional: false
            },
            Action::WriteFile {
                path: p("/proc/self/gid_map"),
                data: b("100 100 1"),
                optional: false
            },
        ]
    );
}

#[test]
fn root_is_read_only_when_it_is_entered() {
    assert_eq!(
        enter_root(&p("/tmp/chroot")),
        vec![
            Action::SetReadOnly { path: p("/tmp/chroot"), readonly: true },
            Action::Chroot(p("/tmp/chroot")),
            Action::Chdir(p("/")),
            Action::RestoreCwd,
        ]
    );
    let mut s = survey();
    s.opengl_lib = Some(p("/opt/ogl/lib"));
    s.cert_bundles = vec![p("/etc/ssl/certs/ca-certificates.crt")];
    s.system_profile = true;
    s.system_etc = vec![b("profile"), b("passwd")];
    s.tmpfiles = vec![b("L+ /etc/x - - - - /nix/y\n")];
    for with_profile in [true, false] {
        let plan = setup(&config(with_profile), &s).unwrap();
        let n = plan.len();
        assert_eq!(plan[n - 4], Action::SetReadOnly { path: p("/tmp/chroot"), readonly: true });
        assert_eq!(plan[n - 3], Action::Chroot(p("/tmp/chroot")));
        for (i, action) in plan.iter().enumerate() {
            match action {
                Action::Mount { flags, .. } => {
                    assert_eq!(*flags, private());
                    assert!(i < n - 4);
                }
                Action::Bind { .. } => assert!(i < n - 4),
                Action::Chroot(_) => assert_eq!(i, n - 3),
                Action::SetReadOnly { .. } => assert_eq!(i, n - 4),
                _ => {}
            }
        }
    }
}

#[test]
fn whole_plan_without_a_profile() {
    let plan = setup(&config(false), &survey()).unwrap();
    let mut expect = enter_namespaces(&p("/tmp/chroot"), 1000, 100);
    expect.extend(bind_host(&p("/tmp/chroot")));
    expect.extend(bind_common(
        &p("/tmp/chroot"),
        &p("/tmp/h/.local/share/nixbox/nix"),
        &p("/tmp/h/.local/share/nixbox/home"),
        &p("/tmp/h"),
    ));
    expect.extend(enter_root(&p("/tmp/chroot")));
    assert_eq!(plan, expect);
}

#[test]
fn whole_plan_with_a_profile_follows_the_build_order() {
    let mut s = survey();
    s.tmpfiles = vec![b("L+ /etc/x - - - - /nix/y\n")];
    let plan = setup(&config(true), &s).unwrap();
    let mut expect = enter_namespaces(&p("/tmp/chroot"), 1000, 100);
    expect.extend(bind_guest(&p("/tmp/chroot"), &s));
    expect.extend(bind_common(
        &p("/tmp/chroot"),
        &p("/tmp/h/.local/share/nixbox/nix"),
        &p("/tmp/h/.local/share/nixbox/home"),
        &p("/tmp/h"),
    ));
    expect.extend(bind_tmpfiles(&p("/tmp/chroot"), &s.tmpfiles));
    expect.extend(enter_root(&p("/tmp/chroot")));
    assert_eq!(plan, expect);
    // OpenGL first, the store mount after the guest's view, tmpfiles last.
    let first_built = &plan[5];
    assert_eq!(*first_built, Action::Warn(b("Warning: No OpenGL driver found in the store")));
    let store = plan
        .iter()
        .position(|a| matches!(a, Action::Mount { target, .. } if *target == p("/tmp/chroot/nix")))
        .unwrap();
    let usr_share = plan
        .iter()
        .position(|a| *a == bind_of("/usr/share/icons", "/tmp/chroot/usr/share"))
        .unwrap();
    let tmpfile_link = plan
        .iter()
        .position(|a| matches!(a, Action::Symlink { link, .. } if *link == p("/tmp/chroot/etc/x")))
        .unwrap();
    assert!(usr_share < store);
    assert!(store < tmpfile_link);
}

#[test]
fn home_must_be_an_absolute_path_below_the_root() {
    for home in ["", "relative/home", "/"] {
        let mut s = survey();
        s.host_home = p(home);
        assert_eq!(setup(&config(true), &s), Err(SetupError::HomeNotAbsolute));
    }
}

#[test]
fn guest_view_in_order() {
    let mut s = survey();
    s.opengl_lib = Some(p("/opt/store/ogl/lib"));
    s.system_profile = true;
    s.system_etc = vec![b("profile"), b("passwd"), b("ssl"), b("nix")];
    s.guest_etc = vec![b("nix")];
    let plan = bind_guest(&p("/c"), &s);
    let mut expect = vec![
        Action::CreateDirAll { path: p("/c/run/opengl-driver/lib"), optional: false },
        bind_of("/opt/store/ogl/lib", "/c/run/opengl-driver/lib"),
        Action::CreateDir(p("/c/etc")),
        bind_of("/etc/resolv.conf", "/c/etc"),
        bind_of("/etc/passwd", "/c/etc"),
        bind_of("/etc/group", "/c/etc"),
        bind_of("/etc/group-", "/c/etc"),
        bind_of("/etc/fonts", "/c/etc"),
        Action::Warn(b("Warning: No SSL certificate bundles found on host system")),
        Action::CreateDirAll { path: p("/c/usr/share"), optional: false },
        bind_of("/usr/share/fonts", "/c/usr/share"),
        bind_of("/usr/share/fontconfig", "/c/usr/share"),
        bind_of("/usr/share/icons", "/c/usr/share"),
    ];
    expect.extend(linked("/nix/var/nix/profiles/system", "/c/run/current-system", "/c/run"));
    expect.extend(linked("/nix/var/nix/profiles/system/sw/bin/sh", "/c/bin/sh", "/c/bin"));
    expect.extend(linked(
        "/nix/var/nix/profiles/system/sw/bin/env",
        "/c/usr/bin/env",
        "/c/usr/bin",
    ));
    // `passwd` is put there by the build and `nix` stood there before; with
    // no bundle, `ssl` is free.
    expect.extend(linked("/run/current-system/etc/profile", "/c/etc/profile", "/c/etc"));
    expect.extend(linked("/run/current-system/etc/ssl", "/c/etc/ssl", "/c/etc"));
    assert_eq!(plan, expect);
}

#[test]
fn mirror_skips_names_that_are_taken() {
    let names = vec![b("a"), b("b"), b("a"), b("c")];
    let plan = mirror_etc(&p("/c"), &names, vec![b("b")]);
    let mut expect = linked("/run/current-system/etc/a", "/c/etc/a", "/c/etc");
    expect.extend(linked("/run/current-system/etc/c", "/c/etc/c", "/c/etc"));
    assert_eq!(plan, expect);
}

#[test]
fn common_binds() {
    let plan = bind_common(&p("/c"), &p("/data/nix"), &p("/data/home"), &p("/home/u"));
    assert_eq!(
        plan,
        vec![
            Action::CreateDir(p("/c/nix")),
            Action::Mount { source: p("/data/nix"), target: p("/c/nix"), flags: private() },
            Action::CreateDirAll { path: p("/c/home/u"), optional: false },
            Action::Mount { source: p("/data/home"), target: p("/c/home/u"), flags: private() },
            Action::CreateDirAll { path: p("/c/run/host"), optional: false },
            Action::Mount { source: p("/"), target: p("/c/run/host"), flags: private() },
            bind_of("/dev", "/c"),
            bind_of("/proc", "/c"),
            bind_of("/var", "/c"),
            bind_of("/run", "/c"),
            bind_of("/opt", "/c"),
            bind_of("/srv", "/c"),
            bind_of("/sys", "/c"),
            bind_of("/tmp", "/c"),
        ]
    );
}

#[test]
fn host_directories_without_a_profile() {
    assert_eq!(
        bind_host(&p("/c")),
        vec![
            bind_of("/bin", "/c"),
            bind_of("/lib", "/c"),
            bind_of("/lib64", "/c"),
            bind_of("/usr", "/c"),
            bind_of("/etc", "/c"),
        ]
    );
}

#[test]
fn missing_ssl_bundles_only_warn() {
    let plan = copy_certs(&p("/c"), &vec![]);
    assert_eq!(
        plan,
        vec![Action::Warn(b("Warning: No SSL certificate bundles found on host system"))]
    );
}

#[test]
fn single_ssl_bundle_fills_all_three_places() {
    let source = p("/etc/ssl/certs/ca-certificates.crt");
    let plan = copy_certs(&p("/c"), &vec![source.clone()]);
    let copy = |dir: &str, to: &str| {
        vec![
            Action::CreateDirAll { path: p(dir), optional: true },
            Action::Copy { from: source.clone(), to: p(to), optional: true },
        ]
    };
    let mut expect = copy("/c/etc/ssl/certs", "/c/etc/ssl/certs/ca-certificates.crt");
    expect.extend(copy("/c/etc/ssl/certs", "/c/etc/ssl/certs/ca-bundle.crt"));
    expect.extend(copy("/c/etc/pki/tls/certs", "/c/etc/pki/tls/certs/ca-bundle.crt"));
    assert_eq!(plan, expect);
}

#[test]
fn two_ssl_bundles_warn_and_first_wins() {
    let first = p("/etc/ssl/certs/ca-certificates.crt");
    let second = p("/etc/pki/tls/certs/ca-bundle.crt");
    let plan = copy_certs(&p("/c"), &vec![first.clone(), second.clone()]);
    assert_eq!(
        plan[0],
        Action::Warn(b(
            "Warning: Found 2 SSL certificate bundle candidates. Picking the first one."
        ))
    );
    assert_eq!(plan.len(), 7);
    for action in &plan {
        if let Action::Copy { from, .. } = action {
            assert_eq!(*from, first);
        }
    }
    // Two candidates that are the same file are one bundle.
    let same = copy_certs(&p("/c"), &vec![first.clone(), first.clone()]);
    assert_eq!(same.len(), 6);
    assert_eq!(count_distinct(&vec![first.clone(), second.clone(), first.clone()]), 2);
    assert_eq!(count_distinct(&vec![]), 0);
}

#[test]
fn tmpfiles_link_directive() {
    assert_eq!(
        parse_line(&b("L+ /etc/systemd - - - - /nix/store/x/etc/systemd")),
        Some((b("/etc/systemd"), b("/nix/store/x/etc/systemd")))
    );
    assert_eq!(
        plan_line(&p("/c"), &b("L+\t/etc/a/b  -\t- - -   /nix/y\r")),
        linked("/nix/y", "/c/etc/a/b", "/c/etc/a")
    );
}

#[test]
fn tmpfiles_other_lines_are_ignored() {
    for line in [
        "",
        "# comment",
        "d /run/foo 0755 root root -",
        "L /etc/a - - - - /nix/y",
        "L+ /etc/a - - - -",
        "L+ /etc/a - - - - /nix/y extra",
        "L+ /etc/a 0755 - - - /nix/y",
        "l+ /etc/a - - - - /nix/y",
    ] {
        assert_eq!(parse_line(&b(line)), None, "{:?}", line);
        assert_eq!(plan_line(&p("/c"), &b(line)), vec![], "{:?}", line);
    }
}

#[test]
fn tmpfiles_target_without_leading_slash_is_skipped() {
    let line = b("L+ etc/a - - - - /nix/y");
    assert_eq!(parse_line(&line), Some((b("etc/a"), b("/nix/y"))));
    assert_eq!(plan_line(&p("/c"), &line), vec![]);
}

#[test]
fn tmpfiles_file_and_files() {
    let content = b("# links\nL+ /etc/a - - - - /nix/a\n\nd /x\nL+ /b - - - - ../c");
    let mut expect = linked("/nix/a", "/c/etc/a", "/c/etc");
    expect.extend(linked("../c", "/c/b", "/c"));
    assert_eq!(plan_file(&p("/c"), &content), expect);
    let more = b("L+ /z - - - - /nix/z\n");
    let mut both = linked("/nix/a", "/c/etc/a", "/c/etc");
    both.extend(linked("../c", "/c/b", "/c"));
    both.extend(linked("/nix/z", "/c/z", "/c"));
    assert_eq!(bind_tmpfiles(&p("/c"), &vec![content, more]), both);
    assert_eq!(bind_tmpfiles(&p("/c"), &vec![]), vec![]);
}

#[test]
fn link_with_its_directory() {
    assert_eq!(create_symlink(b("/nix/x"), p("/c/bin/sh")), linked("/nix/x", "/c/bin/sh", "/c/bin"));
    assert_eq!(create_symlink(b("x"), p("/")), linked("x", "/", "/"));
}

#[test]
fn old_root_is_removed_without_following_links() {
    assert_eq!(remove_chroot(&p("/c"), &Node::Missing), Some(vec![]));
    assert_eq!(remove_chroot(&p("/c"), &Node::Unreadable), None);
    assert_eq!(
        remove_chroot(&p("/c"), &Node::Dir),
        Some(vec![
            Action::SetReadOnly { path: p("/c"), readonly: false },
            Action::RemoveEntries(p("/c")),
            Action::RemoveDir(p("/c")),
        ])
    );
    assert_eq!(
        remove_chroot(&p("/c/f"), &Node::File),
        Some(vec![
            Action::SetReadOnly { path: p("/c/f"), readonly: false },
            Action::Unlink(p("/c/f")),
        ])
    );
    assert_eq!(
        remove_chroot(&p("/c/l"), &Node::Symlink(p("/nix/store"))),
        Some(vec![Action::Unlink(p("/c/l"))])
    );
}
