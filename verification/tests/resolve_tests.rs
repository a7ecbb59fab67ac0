use nixbox::path::HostPathBuf;
use nixbox::snapshot::{Node, Snapshot};
use nixbox::util::resolve_symlink::{resolve_symlink, Resolution, MAX_LINKS};
use std::path::Path;

fn p(s: &str) -> HostPathBuf {
    HostPathBuf::new(s)
}

fn mapping(guest: &str, host: &str) -> (HostPathBuf, HostPathBuf) {
    (p(guest), p(host))
}

fn link(text: &str) -> Node {
    Node::Symlink(p(text))
}

fn snapshot_of(entries: Vec<(&str, Node)>) -> Snapshot {
    let mut snapshot = Snapshot::new();
    for (path, node) in entries {
        snapshot.insert(p(path), node);
    }
    snapshot
}

/// Looks at the real filesystem, without following links.
fn probe(path: &HostPathBuf) -> Node {
    let text = String::from_utf8(path.to_bytes()).unwrap();
    let on_disk = Path::new(&text);
    match on_disk.symlink_metadata() {
        Err(err) => {
            if err.kind() == std::io::ErrorKind::NotFound {
                Node::Missing
            } else {
                Node::Unreadable
            }
        }
        Ok(meta) => {
            if meta.file_type().is_symlink() {
                match on_disk.read_link() {
                    Ok(target) => Node::Symlink(p(target.to_str().unwrap())),
                    Err(_) => Node::Unreadable,
                }
            } else if meta.is_dir() {
                Node::Dir
            } else if meta.is_file() {
                Node::File
            } else {
                Node::Other
            }
        }
    }
}

/// Resolves against the real filesystem, recording what each step needs.
fn resolve_on_disk(map: &(HostPathBuf, HostPathBuf), path: &str) -> Resolution {
    let mut snapshot = Snapshot::new();
    let cwd = p("/");
    loop {
        match resolve_symlink(map, &p(path), &cwd, &snapshot) {
            Resolution::Need(missing) => {
                let node = probe(&missing);
                snapshot.insert(missing, node);
            }
            done => return done,
        }
    }
}

#[test]
fn it_resolves_normal_symlinks() {
    assert!(Path::new("/bin/sh").is_absolute());
    assert!(p("/bin/sh").is_absolute());

    let expect = Path::new("/bin/sh").canonicalize().unwrap();
    let actual = resolve_on_disk(&mapping("/not-exist", "/mnt"), "/bin/sh");

    assert_eq!(actual, Resolution::Found(p(expect.to_str().unwrap())));
}

#[test]
fn it_resolves_simple_symlink() {
    // <dir>/file exists; <dir>/symlink -> /fake-directory/file
    let snapshot = snapshot_of(vec![
        ("/work", Node::Dir),
        ("/work/file", Node::File),
        ("/work/symlink", link("/fake-directory/file")),
    ]);
    let expect = p("/work").join_str("file");
    let actual = resolve_symlink(
        &mapping("/fake-directory", "/work"),
        &p("/work").join_str("symlink"),
        &p("/"),
        &snapshot,
    );
    assert_eq!(Resolution::Found(expect), actual);
}

#[test]
fn it_resolves_through_subdirectories() {
    // 'dir/file' -> 'file', 'symlink' -> 'dir'
    let snapshot = snapshot_of(vec![
        ("/work", Node::Dir),
        ("/work/file", Node::File),
        ("/work/dir", Node::Dir),
        ("/work/dir/file", link("/fake-directory/file")),
        ("/work/symlink", link("/fake-directory/dir")),
    ]);
    let expect = p("/work").join_str("file");
    let actual = resolve_symlink(
        &mapping("/fake-directory", "/work"),
        &p("/work").join_str("symlink/file"),
        &p("/"),
        &snapshot,
    );
    assert_eq!(Resolution::Found(expect), actual);
}

#[test]
fn it_errors_when_file_not_found() {
    let snapshot = snapshot_of(vec![
        ("/work", Node::Dir),
        ("/work/dir", Node::Dir),
        ("/work/dir/file", Node::Missing),
        ("/work/symlink", link("/fake-directory/dir")),
    ]);
    let actual = resolve_symlink(
        &mapping("/fake-directory", "/work"),
        &p("/work").join_str("symlink/file"),
        &p("/"),
        &snapshot,
    );
    assert_eq!(actual, Resolution::NotFound);
}

#[test]
fn symlink_mapping_of_the_system_profile() {
    // nix_home = /opt/store; the system profile is a link into the store.
    let snapshot = snapshot_of(vec![
        ("/opt", Node::Dir),
        ("/opt/store", Node::Dir),
        ("/opt/store/var", Node::Dir),
        ("/opt/store/var/nix", Node::Dir),
        ("/opt/store/var/nix/profiles", Node::Dir),
        ("/opt/store/var/nix/profiles/system", link("/opt/store/store/XYZ-system")),
        ("/opt/store/store", Node::Dir),
        ("/opt/store/store/XYZ-system", Node::Dir),
        ("/opt/store/store/XYZ-system/sw", Node::Dir),
        ("/opt/store/store/XYZ-system/sw/bin", Node::Dir),
        ("/opt/store/store/XYZ-system/sw/bin/sh", Node::File),
    ]);
    let actual = resolve_symlink(
        &mapping("/nix", "/opt/store"),
        &p("/nix/var/nix/profiles/system/sw/bin/sh"),
        &p("/"),
        &snapshot,
    );
    assert_eq!(actual, Resolution::Found(p("/opt/store/store/XYZ-system/sw/bin/sh")));
}

#[test]
fn guest_link_text_is_tunnelled_to_the_host_prefix() {
    // The same profile, with the link written for the guest.
    let snapshot = snapshot_of(vec![
        ("/opt", Node::Dir),
        ("/opt/store", Node::Dir),
        ("/opt/store/profile", link("/nix/store/abc")),
        ("/opt/store/store", Node::Dir),
        ("/opt/store/store/abc", Node::Dir),
    ]);
    let map = mapping("/nix", "/opt/store");
    let via_guest = resolve_symlink(&map, &p("/nix/profile"), &p("/"), &snapshot);
    let via_host = resolve_symlink(&map, &p("/opt/store/profile"), &p("/"), &snapshot);
    assert_eq!(via_guest, Resolution::Found(p("/opt/store/store/abc")));
    assert_eq!(via_guest, via_host);
}

#[test]
fn guest_path_equals_host_canonical_form() {
    let snapshot = snapshot_of(vec![
        ("/h", Node::Dir),
        ("/h/foo", link("bar")),
        ("/h/bar", Node::File),
    ]);
    let with_mapping = resolve_symlink(&mapping("/g", "/h"), &p("/g/foo"), &p("/"), &snapshot);
    let on_host = resolve_symlink(&mapping("/", "/"), &p("/h/foo"), &p("/"), &snapshot);
    assert_eq!(with_mapping, Resolution::Found(p("/h/bar")));
    assert_eq!(with_mapping, on_host);
}

#[test]
fn resolved_path_is_a_fixed_point() {
    let snapshot = snapshot_of(vec![
        ("/a", Node::Dir),
        ("/a/l", link("/a/b")),
        ("/a/b", Node::Dir),
        ("/a/b/c", Node::File),
    ]);
    let map = mapping("/nix", "/store");
    let first = resolve_symlink(&map, &p("/a/l/c"), &p("/"), &snapshot);
    assert_eq!(first, Resolution::Found(p("/a/b/c")));
    let again = resolve_symlink(&map, &p("/a/b/c"), &p("/"), &snapshot);
    assert_eq!(again, first);
}

#[test]
fn unknown_path_is_asked_for() {
    let mut snapshot = snapshot_of(vec![("/a", Node::Dir)]);
    let map = mapping("/nix", "/store");
    let first = resolve_symlink(&map, &p("/a/b"), &p("/"), &snapshot);
    assert_eq!(first, Resolution::Need(p("/a/b")));
    assert!(snapshot.lookup(&p("/a/b")).is_none());
    snapshot.insert(p("/a/b"), Node::File);
    assert_eq!(resolve_symlink(&map, &p("/a/b"), &p("/"), &snapshot), Resolution::Found(p("/a/b")));
}

#[test]
fn final_answer_survives_more_observations() {
    let mut snapshot = snapshot_of(vec![("/a", Node::Dir), ("/a/b", Node::File)]);
    let map = mapping("/nix", "/store");
    let before = resolve_symlink(&map, &p("/a/b"), &p("/"), &snapshot);
    snapshot.insert(p("/zzz"), Node::Dir);
    snapshot.insert(p("/a/other"), link("/nix/x"));
    let after = resolve_symlink(&map, &p("/a/b"), &p("/"), &snapshot);
    assert_eq!(before, after);
}

#[test]
fn relative_path_is_taken_from_the_working_directory() {
    let snapshot = snapshot_of(vec![
        ("/home", Node::Dir),
        ("/home/u", Node::Dir),
        ("/home/u/x", Node::File),
    ]);
    let map = mapping("/nix", "/store");
    let actual = resolve_symlink(&map, &p("x"), &p("/home/u"), &snapshot);
    assert_eq!(actual, Resolution::Found(p("/home/u/x")));
    // Without an absolute starting point there is nothing to resolve.
    assert_eq!(resolve_symlink(&map, &p("x"), &p("rel"), &snapshot), Resolution::Io);
}

#[test]
fn relative_link_and_dotdot() {
    let snapshot = snapshot_of(vec![
        ("/a", Node::Dir),
        ("/a/b", Node::Dir),
        ("/a/b/up", link("../c")),
        ("/a/c", Node::File),
    ]);
    let map = mapping("/nix", "/store");
    assert_eq!(
        resolve_symlink(&map, &p("/a/b/up"), &p("/"), &snapshot),
        Resolution::Found(p("/a/c"))
    );
    assert_eq!(
        resolve_symlink(&map, &p("/a/b/../c"), &p("/"), &snapshot),
        Resolution::Found(p("/a/c"))
    );
    assert_eq!(resolve_symlink(&map, &p("/.."), &p("/"), &snapshot), Resolution::Found(p("/")));
}

#[test]
fn file_in_the_middle_is_not_found() {
    let snapshot = snapshot_of(vec![("/a", Node::File)]);
    let map = mapping("/nix", "/store");
    assert_eq!(resolve_symlink(&map, &p("/a/b"), &p("/"), &snapshot), Resolution::NotFound);
    assert_eq!(resolve_symlink(&map, &p("/a"), &p("/"), &snapshot), Resolution::Found(p("/a")));
}

#[test]
fn unreadable_link_is_an_io_error() {
    let snapshot = snapshot_of(vec![("/a", Node::Unreadable)]);
    let map = mapping("/nix", "/store");
    assert_eq!(resolve_symlink(&map, &p("/a/b"), &p("/"), &snapshot), Resolution::Io);
}

#[test]
fn endless_links_are_an_io_error() {
    assert_eq!(MAX_LINKS, 40);
    let snapshot = snapshot_of(vec![("/loop", link("/loop"))]);
    let map = mapping("/nix", "/store");
    assert_eq!(resolve_symlink(&map, &p("/loop"), &p("/"), &snapshot), Resolution::Io);
    // The mapping can close a cycle that the host alone does not have.
    let snapshot = snapshot_of(vec![("/store", Node::Dir), ("/store/a", link("/nix/a"))]);
    assert_eq!(resolve_symlink(&map, &p("/nix/a"), &p("/"), &snapshot), Resolution::Io);
}

#[test]
fn later_observation_replaces_earlier() {
    let mut snapshot = Snapshot::new();
    snapshot.insert(p("/a"), Node::Missing);
    snapshot.insert(p("/a"), Node::Dir);
    assert_eq!(snapshot.len(), 2);
    assert_eq!(snapshot.lookup(&p("/a")), Some(&Node::Dir));
    assert_eq!(snapshot.lookup(&p("/b")), None);
}

#[test]
fn guest_path_is_canonical_where_the_host_has_no_guest_prefix() {
    // The store's links are written for the guest; the host has no `/g`.
    let snapshot = snapshot_of(vec![
        ("/g", Node::Missing),
        ("/h", Node::Dir),
        ("/h/foo", link("bar")),
        ("/h/bar", Node::Dir),
        ("/h/bar/x", Node::File),
        ("/h/into", link("/g/bar")),
    ]);
    let identity = mapping("/", "/");
    let map = mapping("/g", "/h");
    let on_host = resolve_symlink(&identity, &p("/h/foo/x"), &p("/"), &snapshot);
    assert_eq!(on_host, Resolution::Found(p("/h/bar/x")));
    assert_eq!(resolve_symlink(&map, &p("/g/foo/x"), &p("/"), &snapshot), on_host);
    // A link into the guest prefix leads nowhere on the host alone, and into
    // the store with the mapping.
    assert_eq!(
        resolve_symlink(&identity, &p("/h/into/x"), &p("/"), &snapshot),
        Resolution::NotFound
    );
    assert_eq!(
        resolve_symlink(&map, &p("/g/into/x"), &p("/"), &snapshot),
        Resolution::Found(p("/h/bar/x"))
    );
}

#[test]
fn host_with_a_guest_prefix_of_its_own_resolves_differently() {
    let snapshot = snapshot_of(vec![
        ("/g", Node::Dir),
        ("/g/bar", Node::File),
        ("/h", Node::Dir),
        ("/h/bar", Node::File),
        ("/h/foo", link("/g/bar")),
    ]);
    let on_host = resolve_symlink(&mapping("/", "/"), &p("/h/foo"), &p("/"), &snapshot);
    let mapped = resolve_symlink(&mapping("/g", "/h"), &p("/g/foo"), &p("/"), &snapshot);
    assert_eq!(on_host, Resolution::Found(p("/g/bar")));
    assert_eq!(mapped, Resolution::Found(p("/h/bar")));
}

#[test]
fn fresh_snapshot_records_nothing() {
    let mut snapshot = Snapshot::new();
    assert_eq!(snapshot.len(), 0);
    assert_eq!(snapshot.lookup(&p("/")), None);
    snapshot.insert(p("/a"), Node::Dir);
    assert_eq!(snapshot.len(), 1);
    assert_eq!(snapshot.lookup(&p("/a")), Some(&Node::Dir));
}
