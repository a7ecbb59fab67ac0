//! The status report: whether the service runs, and which processes live in
//! its sandbox.

use crate::decimal::{decimal_int, format_i32};
use crate::init::Service;
use crate::text::{append_bytes, append_str, bytes_eq, bytes_of, copy_bytes, deep, lit};
use vstd::prelude::*;

verus! {

/// What `/proc` shows of one process.
#[derive(Debug, PartialEq, Eq)]
pub struct ProcEntry {
    /// The name of its directory in `/proc`.
    pub name: Vec<u8>,
    /// The identity of its mount namespace, where it can be read.
    pub mnt_ns: Option<Vec<u8>>,
    /// Its command line, arguments ending with a zero byte each.
    pub cmdline: Vec<u8>,
}

/// The report for the user.
#[derive(Debug, PartialEq, Eq)]
pub struct StatusReport {
    /// The lines to print, in order.
    pub lines: Vec<Vec<u8>>,
    /// Whether the service runs.
    pub running: bool,
}

/// `s` with a space in place of every zero byte.
pub open spec fn nul_to_space(s: Seq<u8>) -> Seq<u8> {
    Seq::new(s.len(), |i: int| if s[i] == 0u8 { 32u8 } else { s[i] })
}

/// The line that shows one process.
pub open spec fn member_line(name: Seq<u8>, cmdline: Seq<u8>) -> Seq<u8> {
    name + lit("\t\t") + nul_to_space(cmdline)
}

/// The mathematical content of a [`ProcEntry`].
pub struct ProcModel {
    pub name: Seq<u8>,
    pub mnt_ns: Option<Seq<u8>>,
    pub cmdline: Seq<u8>,
}

impl View for ProcEntry {
    type V = ProcModel;

    open spec fn view(&self) -> ProcModel {
        ProcModel {
            name: self.name@,
            mnt_ns: match self.mnt_ns {
                Some(id) => Some(id@),
                None => None,
            },
            cmdline: self.cmdline@,
        }
    }
}

/// The processes that a vector of entries shows.
pub open spec fn proc_views(procs: &Vec<ProcEntry>) -> Seq<ProcModel> {
    Seq::new(procs@.len(), |i: int| procs@[i]@)
}

/// The lines of the processes whose mount namespace is `mnt_ns`, in the
/// order in which `/proc` lists them.
pub open spec fn member_lines(procs: Seq<ProcModel>, mnt_ns: Seq<u8>) -> Seq<Seq<u8>>
    decreases procs.len(),
{
    if procs.len() == 0 {
        Seq::empty()
    } else {
        let front = member_lines(procs.drop_last(), mnt_ns);
        if procs.last().mnt_ns == Some(mnt_ns) {
            front.push(member_line(procs.last().name, procs.last().cmdline))
        } else {
            front
        }
    }
}

/// The line that says that the service runs.
pub open spec fn running_line(pid: i32) -> Seq<u8> {
    lit("nixbox running (PID: ") + decimal_int(pid as int) + lit(")")
}

/// The report on the service with pid `pid` and mount namespace `mnt_ns`.
pub open spec fn running_report(pid: i32, mnt_ns: Seq<u8>, procs: Seq<ProcModel>) -> Seq<Seq<u8>> {
    seq![running_line(pid), lit(""), lit("PID\t\tCOMMAND")] + member_lines(procs, mnt_ns)
}

/// The report that there is no service.
pub open spec fn not_running_report() -> Seq<Seq<u8>> {
    seq![lit("nixbox not running")]
}

/// `s` with a space in place of every zero byte.
pub fn replace_nul(s: &Vec<u8>) -> (out: Vec<u8>)
    ensures
        out@ == nul_to_space(s@),
{
    let mut out: Vec<u8> = Vec::new();
    let mut i: usize = 0;
    while i < s.len()
        invariant
            i <= s.len(),
            out@ == nul_to_space(s@.take(i as int)),
        decreases s.len() - i,
    {
        let b = s[i];
        out.push(if b == 0u8 { 32u8 } else { b });
        assert(out@ =~= nul_to_space(s@.take(i + 1)));
        i += 1;
    }
    assert(s@.take(s.len() as int) =~= s@);
    out
}

/// The report that there is no service.
pub fn not_running() -> (out: StatusReport)
    ensures
        deep(&out.lines) == not_running_report(),
        !out.running,
{
    let mut lines: Vec<Vec<u8>> = Vec::new();
    lines.push(bytes_of("nixbox not running"));
    assert(deep(&lines) =~= not_running_report());
    StatusReport { lines, running: false }
}

/// Reports on the service.
///
/// `service` is the service that was found, if one was. `mnt_ns` is the
/// identity of its mount namespace, where it can be read, and `procs` is
/// what `/proc` shows of every process. Without a service, or without its
/// namespace, the report is that nothing runs.
pub fn status(service: &Option<Service>, mnt_ns: &Option<Vec<u8>>, procs: &Vec<ProcEntry>) -> (out:
    StatusReport)
    ensures
        out.running == (service is Some && mnt_ns is Some),
        deep(&out.lines) == if service is Some && mnt_ns is Some {
            running_report(service.unwrap().pid, mnt_ns.unwrap()@, proc_views(procs))
        } else {
            not_running_report()
        },
{
    let (pid, id) = match (service, mnt_ns) {
        (Some(s), Some(id)) => (s.pid, id),
        _ => {
            return not_running();
        },
    };
    let mut lines: Vec<Vec<u8>> = Vec::new();
    let mut first = bytes_of("nixbox running (PID: ");
    let number = format_i32(pid);
    append_bytes(&mut first, &number);
    append_str(&mut first, ")");
    lines.push(first);
    lines.push(bytes_of(""));
    lines.push(bytes_of("PID\t\tCOMMAND"));
    let ghost head = deep(&lines);
    assert(head =~= seq![running_line(pid), lit(""), lit("PID\t\tCOMMAND")]);
    let ghost all = proc_views(procs);
    let mut i: usize = 0;
    assert(all.take(0) =~= Seq::<ProcModel>::empty());
    assert(head + Seq::<Seq<u8>>::empty() =~= head);
    while i < procs.len()
        invariant
            i <= procs.len(),
            all == proc_views(procs),
            deep(&lines) == head + member_lines(all.take(i as int), id@),
        decreases procs.len() - i,
    {
        let entry = &procs[i];
        let ghost before = deep(&lines);
        proof {
            assert(all.take(i + 1).drop_last() =~= all.take(i as int));
            assert(all.take(i + 1).last() == entry@);
        }
        let member = match &entry.mnt_ns {
            Some(other) => bytes_eq(other, id),
            None => false,
        };
        if member {
            let mut text = copy_bytes(&entry.name);
            append_str(&mut text, "\t\t");
            let command = replace_nul(&entry.cmdline);
            append_bytes(&mut text, &command);
            lines.push(text);
            assert(deep(&lines) =~= before.push(member_line(entry.name@, entry.cmdline@)));
            assert(deep(&lines) =~= head + member_lines(all.take(i + 1), id@));
        }
        i += 1;
    }
    assert(all.take(all.len() as int) =~= all);
    StatusReport { lines, running: true }
}

/// Every process whose mount namespace is the service's is listed.
pub proof fn lemma_members_listed(procs: Seq<ProcModel>, mnt_ns: Seq<u8>, i: int)
    requires
        0 <= i < procs.len(),
    ensures
        procs[i].mnt_ns == Some(mnt_ns) ==> member_lines(procs, mnt_ns).contains(
            member_line(procs[i].name, procs[i].cmdline),
        ),
    decreases procs.len(),
{
    let lines = member_lines(procs, mnt_ns);
    if i == procs.len() - 1 {
        if procs[i].mnt_ns == Some(mnt_ns) {
            assert(lines.last() == member_line(procs[i].name, procs[i].cmdline));
        }
    } else {
        lemma_members_listed(procs.drop_last(), mnt_ns, i);
        if procs[i].mnt_ns == Some(mnt_ns) {
            let front = member_lines(procs.drop_last(), mnt_ns);
            let want = member_line(procs[i].name, procs[i].cmdline);
            let k = choose|k: int| 0 <= k < front.len() && front[k] == want;
            assert(lines[k] == want);
        }
    }
}

/// Every line that is listed shows a process whose mount namespace is the
/// service's.
pub proof fn lemma_only_members_listed(procs: Seq<ProcModel>, mnt_ns: Seq<u8>, k: int)
    requires
        0 <= k < member_lines(procs, mnt_ns).len(),
    ensures
        exists|i: int|
            0 <= i < procs.len() && (#[trigger] procs[i]).mnt_ns == Some(mnt_ns) && member_lines(
                procs,
                mnt_ns,
            )[k] == member_line(procs[i].name, procs[i].cmdline),
    decreases procs.len(),
{
    let front = member_lines(procs.drop_last(), mnt_ns);
    let last = procs.len() - 1;
    if procs[last].mnt_ns == Some(mnt_ns) && k == front.len() {
        assert(procs[last].mnt_ns == Some(mnt_ns));
    } else {
        lemma_only_members_listed(procs.drop_last(), mnt_ns, k);
        let i = choose|i: int|
            0 <= i < procs.drop_last().len() && (#[trigger] procs.drop_last()[i]).mnt_ns == Some(
                mnt_ns,
            ) && front[k] == member_line(procs.drop_last()[i].name, procs.drop_last()[i].cmdline);
        assert(procs[i] == procs.drop_last()[i]);
    }
}

} // verus!
