use nixbox::bind::{bind, bind_dir, bind_file, bind_symlink, BindError, TargetKind};
use nixbox::path::HostPathBuf;
use nixbox::plan::{bind_mount, Action, MountFlags};
use nixbox::snapshot::Node;

fn p(s: &str) -> HostPathBuf {
    HostPathBuf::new(s)
}

fn private() -> MountFlags {
    MountFlags { bind: true, recursive: true, private: true }
}

#[test]
fn directory_onto_nothing_is_mounted() {
    let plan = bind(&p("/etc/fonts"), &p("/c/etc"), &Node::Dir, TargetKind::Missing).unwrap();
    assert_eq!(
        plan,
        vec![
            Action::CreateDirAll { path: p("/c/etc/fonts"), optional: false },
            Action::Mount { source: p("/etc/fonts"), target: p("/c/etc/fonts"), flags: private() },
        ]
    );
}

#[test]
fn directory_onto_directory_is_merged_not_overmounted() {
    let plan = bind(&p("/run"), &p("/c"), &Node::Dir, TargetKind::Dir).unwrap();
    assert_eq!(plan, vec![Action::BindEntries { source: p("/run"), target_dir: p("/c/run") }]);
    assert!(plan.iter().all(|a| !matches!(a, Action::Mount { .. })));
}

#[test]
fn directory_onto_a_file_is_left_alone() {
    let plan = bind(&p("/run"), &p("/c"), &Node::Dir, TargetKind::Other).unwrap();
    assert_eq!(plan, vec![]);
}

#[test]
fn file_gets_a_placeholder_and_a_mount() {
    for target in [TargetKind::Missing, TargetKind::Dir, TargetKind::Other] {
        let plan = bind(&p("/etc/passwd"), &p("/c/etc"), &Node::File, target).unwrap();
        assert_eq!(
            plan,
            vec![
                Action::CreateFile(p("/c/etc/passwd")),
                Action::Mount {
                    source: p("/etc/passwd"),
                    target: p("/c/etc/passwd"),
                    flags: private(),
                },
            ]
        );
    }
}

#[test]
fn link_is_replicated() {
    let node = Node::Symlink(p("../run/resolv.conf"));
    let plan = bind(&p("/etc/resolv.conf"), &p("/c/etc"), &node, TargetKind::Missing).unwrap();
    assert_eq!(
        plan,
        vec![Action::Symlink {
            text: b"../run/resolv.conf".to_vec(),
            link: p("/c/etc/resolv.conf")
        }]
    );
}

#[test]
fn unknown_kind_only_warns() {
    let plan = bind(&p("/dev/log"), &p("/c/dev"), &Node::Other, TargetKind::Missing).unwrap();
    assert_eq!(
        plan,
        vec![Action::Warn(b"Could not bind: unknown kind of file: /dev/log".to_vec())]
    );
}

#[test]
fn source_that_cannot_be_examined_is_an_error() {
    let missing = bind(&p("/etc/group-"), &p("/c/etc"), &Node::Missing, TargetKind::Missing);
    assert_eq!(missing, Err(BindError::Stat));
    let unreadable = bind(&p("/etc/group-"), &p("/c/etc"), &Node::Unreadable, TargetKind::Dir);
    assert_eq!(unreadable, Err(BindError::Stat));
}

#[test]
fn source_without_a_name_is_an_error() {
    assert_eq!(bind(&p("/"), &p("/c"), &Node::Dir, TargetKind::Dir), Err(BindError::NoFileName));
    assert_eq!(
        bind(&p("/a/.."), &p("/c"), &Node::Dir, TargetKind::Dir),
        Err(BindError::NoFileName)
    );
    // The name is missed before the source is looked at.
    assert_eq!(
        bind(&p(""), &p("/c"), &Node::Missing, TargetKind::Dir),
        Err(BindError::NoFileName)
    );
}

#[test]
fn every_mount_is_a_recursive_private_bind() {
    assert_eq!(MountFlags::private_bind(), private());
    assert_eq!(
        bind_mount(&p("/a"), &p("/b")),
        Action::Mount { source: p("/a"), target: p("/b"), flags: private() }
    );
    let all = [
        bind_dir(&p("/a"), &p("/b"), TargetKind::Missing),
        bind_dir(&p("/a"), &p("/b"), TargetKind::Dir),
        bind_file(&p("/a"), &p("/b")),
        bind_symlink(&b"/x".to_vec(), &p("/b")),
    ];
    for plan in all {
        for action in plan {
            if let Action::Mount { flags, .. } = action {
                assert!(flags.bind && flags.recursive && flags.private);
            }
        }
    }
}
