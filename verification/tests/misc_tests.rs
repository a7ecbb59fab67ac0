use nixbox::desktop::{header, is_console_only, list, DesktopFile};
use nixbox::init::Service;
use nixbox::env::Env;
use nixbox::mapper::{GuestPath, GuestPathBuf, Mapper};
use nixbox::path::HostPathBuf;
use nixbox::plan::MountFlags;
use nixbox::snapshot::{Node, Snapshot};
use nixbox::status::{not_running, replace_nul, status, ProcEntry};
use nixbox::supervisor::{supervise, Kill, Signal, WaitStatus, FAILURE};
use nixbox::sys::{mount_bits, unshare_bits};
use nixbox::table::{pad, Table};
use nixbox::util::resolve_symlink::Resolution;
use nixbox::util::SharedLock;

fn p(s: &str) -> HostPathBuf {
    HostPathBuf::new(s)
}

fn b(s: &str) -> Vec<u8> {
    s.as_bytes().to_vec()
}

fn proc_entry(name: &str, ns: Option<&str>, cmdline: &str) -> ProcEntry {
    ProcEntry { name: b(name), mnt_ns: ns.map(b), cmdline: b(cmdline) }
}

#[test]
fn status_lists_the_members_of_the_mount_namespace() {
    let service = Some(Service { pid: 4242, root: p("/c"), env: Env::new() });
    let procs = vec![
        proc_entry("1", Some("mnt:[1]"), "/sbin/init\0"),
        proc_entry("4242", Some("mnt:[77]"), "bash\0--login\0"),
        proc_entry("self", None, ""),
        proc_entry("4300", Some("mnt:[77]"), "/bin/sh\0-c\0echo $$ > /tmp/out\0"),
    ];
    let report = status(&service, &Some(b("mnt:[77]")), &procs);
    assert!(report.running);
    assert_eq!(
        report.lines,
        vec![
            b("nixbox running (PID: 4242)"),
            b(""),
            b("PID\t\tCOMMAND"),
            b("4242\t\tbash --login "),
            b("4300\t\t/bin/sh -c echo $$ > /tmp/out "),
        ]
    );
}

#[test]
fn status_without_service_or_namespace() {
    let service = Some(Service { pid: 4242, root: p("/c"), env: Env::new() });
    let procs = vec![proc_entry("1", Some("mnt:[1]"), "init\0")];
    for report in [
        status(&None, &Some(b("mnt:[1]")), &procs),
        status(&service, &None, &procs),
        status(&None, &None, &procs),
        not_running(),
    ] {
        assert!(!report.running);
        assert_eq!(report.lines, vec![b("nixbox not running")]);
    }
    assert_eq!(replace_nul(&b("a\0b\0\0")), b("a b  "));
}

#[test]
fn supervisor_follows_its_child() {
    let stopped = supervise(10, WaitStatus::Stopped { pid: 20, signal: Signal::Stop });
    assert_eq!(
        stopped.signals,
        vec![Kill { pid: 10, signal: Signal::Stop }, Kill { pid: 20, signal: Signal::Continue }]
    );
    assert_eq!(stopped.exit, None);
    assert!(!stopped.log);

    let killed = supervise(10, WaitStatus::Signaled { pid: 20, signal: Signal::Other(15) });
    assert_eq!(killed.signals, vec![Kill { pid: 10, signal: Signal::Other(15) }]);
    assert_eq!(killed.exit, Some(FAILURE));
    assert!(!killed.log);

    let exited = supervise(10, WaitStatus::Exited { pid: 20, code: 3 });
    assert_eq!(exited.signals, vec![]);
    assert_eq!(exited.exit, Some(3));
    let clean = supervise(10, WaitStatus::Exited { pid: 20, code: 0 });
    assert_eq!(clean.exit, Some(0));
}

#[test]
fn supervisor_fails_on_what_it_does_not_expect() {
    assert_eq!(FAILURE, 1);
    for status in [
        WaitStatus::Unexpected,
        WaitStatus::Stopped { pid: 20, signal: Signal::Other(20) },
        WaitStatus::Stopped { pid: 20, signal: Signal::Continue },
    ] {
        let out = supervise(10, status);
        assert_eq!(out.signals, vec![]);
        assert_eq!(out.exit, Some(1));
        assert!(out.log);
    }
}

#[test]
fn latch_is_set_once() {
    let mut latch: SharedLock<u32> = SharedLock::new();
    assert_eq!(latch.wait(), None);
    assert!(latch.send_value(7));
    assert_eq!(latch.wait(), Some(7));
    assert_eq!(latch.wait(), Some(7));
    assert!(!latch.send_value(8));
    assert_eq!(latch.wait(), Some(7));
    let mut unit: SharedLock<()> = SharedLock::new();
    assert_eq!(unit.wait(), None);
    assert!(unit.send_value(()));
    assert_eq!(unit.wait(), Some(()));
}

#[test]
fn mount_bits_are_the_kernel_bits() {
    let private = MountFlags::private_bind();
    assert_eq!(mount_bits(private), 0x45000);
    assert_eq!(
        mount_bits(private),
        (nix::mount::MsFlags::MS_BIND | nix::mount::MsFlags::MS_REC | nix::mount::MsFlags::MS_PRIVATE)
            .bits() as u64
    );
    assert_eq!(mount_bits(MountFlags { bind: false, recursive: false, private: false }), 0);
    assert_eq!(mount_bits(MountFlags { bind: true, recursive: false, private: false }), 0x1000);
    assert_eq!(mount_bits(MountFlags { bind: false, recursive: true, private: false }), 0x4000);
    assert_eq!(mount_bits(MountFlags { bind: false, recursive: false, private: true }), 0x40000);
}

#[test]
fn unshare_bits_are_the_kernel_bits() {
    assert_eq!(unshare_bits(true, true, true), 0x1402_0000);
    assert_eq!(
        unshare_bits(true, true, true),
        (nix::sched::CloneFlags::CLONE_NEWUSER
            | nix::sched::CloneFlags::CLONE_NEWNS
            | nix::sched::CloneFlags::CLONE_NEWUTS)
            .bits() as u64
    );
    assert_eq!(unshare_bits(false, false, false), 0);
    assert_eq!(unshare_bits(true, false, false), 0x1000_0000);
    assert_eq!(unshare_bits(false, true, false), 0x2_0000);
    assert_eq!(unshare_bits(false, false, true), 0x400_0000);
}

#[test]
fn host_paths_appear_below_run_host() {
    let mapper = Mapper::new(p("/nix"), p("/opt/store"));
    let guest = mapper.host_to_guest(&p("/etc/passwd")).unwrap();
    assert_eq!(guest, GuestPathBuf::from_path_buf(p("/run/host/etc/passwd")));
    assert_eq!(mapper.host_to_guest(&p("etc/passwd")), None);
    // Seen from the guest and mapped back, it is the same host path.
    let back = Mapper::new(p("/run/host"), p("/")).substitute(&guest.as_guest_path());
    assert_eq!(back, p("/etc/passwd"));
}

#[test]
fn guest_paths_map_by_prefix() {
    let mapper = Mapper::new(p("/nix"), p("/opt/store"));
    assert_eq!(mapper.substitute(&GuestPath::new(&p("/nix/store/x"))), p("/opt/store/store/x"));
    assert_eq!(mapper.substitute(&GuestPath::new(&p("/etc/passwd"))), p("/etc/passwd"));
    assert_eq!(mapper.substitute(&GuestPath::new(&p("/nixos/x"))), p("/nixos/x"));
    let sysroot = GuestPath::new(&p("/nix/var/nix/profiles/system"));
    assert!(sysroot.is_absolute());
    assert_eq!(*sysroot.as_path(), p("/nix/var/nix/profiles/system"));
    let sh = sysroot.join(&GuestPath::new(&p("sw/bin/sh")));
    assert_eq!(sh, GuestPathBuf::from_path_buf(p("/nix/var/nix/profiles/system/sw/bin/sh")));
    assert_eq!(
        sh.as_guest_path().strip_prefix(&GuestPath::new(&p("/nix"))),
        Some(GuestPath::new(&p("var/nix/profiles/system/sw/bin/sh")))
    );
    assert_eq!(sysroot.strip_prefix(&GuestPath::new(&p("/etc"))), None);

    let mut snapshot = Snapshot::new();
    snapshot.insert(p("/opt"), Node::Dir);
    snapshot.insert(p("/opt/store"), Node::Dir);
    snapshot.insert(p("/opt/store/x"), Node::File);
    let x = GuestPath::new(&p("/nix/x"));
    assert_eq!(x.to_host(&mapper, &p("/"), &snapshot), Resolution::Found(p("/opt/store/x")));
    assert_eq!(mapper.guest_to_host(&x, &p("/"), &snapshot), Resolution::Found(p("/opt/store/x")));
}

#[test]
fn table_pads_columns_to_the_widest_cell() {
    let mut table = Table::new();
    table.add_header(String::from("ID"));
    table.add_header(String::from("NAME"));
    table.add_row(vec![String::from("firefox"), String::from("Firefox")]);
    table.add_row(vec![String::from("vi")]);
    table.add_row(vec![String::from("a"), String::from("b"), String::from("extra")]);
    assert_eq!(table.column_width(0), 7);
    assert_eq!(table.column_width(1), 7);
    assert_eq!(table.column_width(2), 0);
    assert_eq!(
        table.render(),
        vec![
            format!("{:7}\t{:7}\t", "ID", "NAME"),
            format!("{:7}\t{:7}\t", "firefox", "Firefox"),
            format!("{:7}\t", "vi"),
            format!("{:7}\t{:7}\t{:0}\t", "a", "b", "extra"),
        ]
    );
}

#[test]
fn table_without_rows_has_a_header_line() {
    let mut table = Table::new();
    assert_eq!(table.render(), vec![String::new()]);
    table.add_header(String::from("PID"));
    assert_eq!(table.column_width(0), 3);
    assert_eq!(table.render(), vec![String::from("PID\t")]);
}

#[test]
fn table_counts_width_in_bytes_and_pads_in_characters() {
    assert_eq!(pad(&String::from("ab"), 5), "ab   \t");
    assert_eq!(pad(&String::from("abcdef"), 5), "abcdef\t");
    assert_eq!(pad(&String::from(""), 0), "\t");
    let mut table = Table::new();
    table.add_header(String::from("N"));
    table.add_row(vec![String::from("né")]);
    assert_eq!(table.column_width(0), 3);
    assert_eq!(table.render(), vec![format!("{:3}\t", "N"), format!("{:3}\t", "né")]);
}

#[test]
fn desktop_entry_is_read() {
    let content = b("[Desktop Entry]\nName= Firefox \nExec=firefox %U\r\nComment=Browse the web\n");
    assert_eq!(
        DesktopFile::parse_file(&content),
        Some(DesktopFile {
            name: b("Firefox"),
            command: b("firefox %U"),
            comment: Some(b("Browse the web")),
        })
    );
    let twice = b("Name=a\nExec=x\nName=b\n");
    assert_eq!(
        DesktopFile::parse_file(&twice),
        Some(DesktopFile { name: b("b"), command: b("x"), comment: None })
    );
}

#[test]
fn desktop_entry_that_is_hidden_or_incomplete_is_none() {
    for content in [
        "Name=a\n",
        "Exec=x\n",
        "",
        "Name=a\nExec=x\nNoDisplay=true\n",
        "NoDisplay=true\nName=a\nExec=x\n",
        "Name=a\nExec=x\nTerminal=true\n",
        "Name=a\nExec=x\nCategories=Utility;ConsoleOnly;\n",
        "Name=a\nExec=x\nCategories= ConsoleOnly \n",
    ] {
        assert_eq!(DesktopFile::parse_file(&b(content)), None, "{:?}", content);
    }
    for content in [
        "Name=a\nExec=x\nNoDisplay=false\n",
        "Name=a\nExec=x\n NoDisplay=true\n",
        "Name=a\nExec=x\nCategories=Utility;ConsoleOnlyNot;\n",
        "Name=a\nExec=x\nCategories=Utility; ConsoleOnly;\n",
    ] {
        assert!(DesktopFile::parse_file(&b(content)).is_some(), "{:?}", content);
    }
    assert!(is_console_only(&b("ConsoleOnly")));
    assert!(is_console_only(&b("A;ConsoleOnly;B")));
    assert!(!is_console_only(&b("A;B")));
}

#[test]
fn applications_are_listed() {
    let entries = vec![
        (b("firefox"), b("Name=Firefox\nExec=firefox\nComment=Web\n")),
        (b("htop"), b("Name=htop\nExec=htop\nTerminal=true\n")),
        (b("gimp"), b("Name=GIMP\nExec=gimp %F\n")),
    ];
    assert_eq!(header(), vec![b("ID"), b("NAME"), b("COMMAND"), b("COMMENT")]);
    assert_eq!(
        list(&entries),
        vec![
            vec![b("firefox"), b("Firefox"), b("firefox"), b("Web")],
            vec![b("gimp"), b("GIMP"), b("gimp %F"), b("")],
        ]
    );
    assert_eq!(list(&vec![]), Vec::<Vec<Vec<u8>>>::new());
}
