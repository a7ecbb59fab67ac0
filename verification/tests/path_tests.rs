use nixbox::path::HostPathBuf;

#[test]
fn reading_drops_empty_names_and_dots() {
    let p = HostPathBuf::new("/nix//var/./nix/");
    assert!(p.is_absolute());
    assert_eq!(p.to_bytes(), b"/nix/var/nix".to_vec());
    assert_eq!(p, HostPathBuf::new("/nix/var/nix"));
}

#[test]
fn join_replaces_on_absolute() {
    let base = HostPathBuf::new("/opt/store");
    assert_eq!(base.join_str("var/nix").to_bytes(), b"/opt/store/var/nix".to_vec());
    assert_eq!(base.join_str("/etc").to_bytes(), b"/etc".to_vec());
}

#[test]
fn strip_prefix_goes_name_by_name() {
    let p = HostPathBuf::new("/nix/store/abc");
    let g = HostPathBuf::new("/nix");
    assert!(p.starts_with(&g));
    assert_eq!(p.strip_prefix(&g).unwrap().to_bytes(), b"store/abc".to_vec());
    assert!(!HostPathBuf::new("/nix-home/x").starts_with(&g));
    assert!(HostPathBuf::new("/nix-home/x").strip_prefix(&g).is_none());
}

#[test]
fn written_path_reads_back() {
    for text in ["/", "", "a", "/a", "a/b", "/a/../b", "..", "/nix/var/nix/profiles"] {
        let path = HostPathBuf::new(text);
        assert_eq!(path.to_bytes(), text.as_bytes().to_vec(), "{:?}", text);
        assert_eq!(HostPathBuf::from_bytes(&path.to_bytes()), path);
    }
    assert_eq!(HostPathBuf::new("./a/./b/").to_bytes(), b"a/b".to_vec());
    assert_eq!(HostPathBuf::new("//").to_bytes(), b"/".to_vec());
    assert_eq!(HostPathBuf::new("."), HostPathBuf::new(""));
}

#[test]
fn parent_and_file_name() {
    let p = HostPathBuf::new("/a/b");
    assert_eq!(p.parent(), Some(HostPathBuf::new("/a")));
    assert_eq!(p.file_name(), Some(b"b".to_vec()));
    assert_eq!(HostPathBuf::new("/").parent(), None);
    assert_eq!(HostPathBuf::new("/").file_name(), None);
    assert_eq!(HostPathBuf::new("").parent(), None);
    assert_eq!(HostPathBuf::new("a").parent(), Some(HostPathBuf::new("")));
    assert_eq!(HostPathBuf::new("/a/..").file_name(), None);
    assert_eq!(HostPathBuf::new("/").parent_or_root(), HostPathBuf::root());
    assert_eq!(HostPathBuf::new("/a/b").parent_or_root(), HostPathBuf::new("/a"));
}

#[test]
fn prefixes_follow_the_standard_library() {
    let cases = [
        ("/a/b", "/a"),
        ("/a/b", "/a/b"),
        ("/a/b", "/a/b/c"),
        ("/ab", "/a"),
        ("/a/b", "a"),
        ("a/b", "/a"),
        ("a/b", "a"),
        ("/a/b", ""),
        ("a/b", ""),
        ("/a", "/"),
        ("a", "/"),
        ("", ""),
        ("/", ""),
    ];
    for (path, base) in cases {
        let ours = HostPathBuf::new(path).starts_with(&HostPathBuf::new(base));
        let theirs = std::path::Path::new(path).starts_with(base);
        assert_eq!(ours, theirs, "{:?} starts_with {:?}", path, base);
        let stripped = HostPathBuf::new(path).strip_prefix(&HostPathBuf::new(base));
        let expect = std::path::Path::new(path)
            .strip_prefix(base)
            .ok()
            .map(|rest| HostPathBuf::new(rest.to_str().unwrap()));
        assert_eq!(stripped, expect, "{:?} strip_prefix {:?}", path, base);
    }
}

#[test]
fn joins_follow_the_standard_library() {
    let cases = [("/a", "b"), ("/a", "/b"), ("a", "b/c"), ("", "b"), ("/", "b"), ("/a", "")];
    for (base, other) in cases {
        let ours = HostPathBuf::new(base).join(&HostPathBuf::new(other));
        let theirs = std::path::Path::new(base).join(other);
        assert_eq!(ours, HostPathBuf::new(theirs.to_str().unwrap()), "{:?} join {:?}", base, other);
    }
    assert_eq!(
        HostPathBuf::new("/c").under(&HostPathBuf::new("/etc/x")),
        HostPathBuf::new("/c/etc/x")
    );
    assert_eq!(HostPathBuf::new("/c").push_name(&b"x".to_vec()), HostPathBuf::new("/c/x"));
}
