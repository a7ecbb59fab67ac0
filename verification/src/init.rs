//! The service: the long-lived process whose namespaces later invocations
//! join.
//!
//! The service publishes itself in the runtime directory: its pid in
//! `server.pid`, its root as the link `chroot`, and the environment of a
//! login shell inside the sandbox in `environ`. Whoever finds all three, and
//! finds the process alive, has found the service.

use crate::command::run::{launch_entries, run, Launch};
use crate::config::Config;
use crate::decimal::{decimal_int, format_i32, parse_i32, parse_i32_spec};
use crate::decimal::{lemma_decimal, lemma_parse_decimal_int};
use crate::env::Env;
use crate::path::{parse_path, HostPathBuf, PathModel};
use crate::plan::{append_actions, push_action, views, Action, ActionModel};
use crate::setup::{abs, at, setup, SetupError, Survey};
use crate::text::{bytes_of, copy_range, deep, lit, records, records_of, run_len};
use crate::text::{is_space, lemma_run_len_is, lemma_trim_nothing, trim, trim_bytes, Delim};
use vstd::prelude::*;

verus! {

/// How often a caller looks for the service before it gives up.
pub const ATTEMPTS: u32 = 10;

/// How long a caller waits between two looks, in milliseconds.
pub const DELAY_MILLIS: u64 = 100;

/// The host name inside the sandbox.
pub open spec fn hostname() -> Seq<u8> {
    lit("nixbox")
}

/// What the user is told when there is no service to join.
pub open spec fn unavailable_text() -> Seq<u8> {
    lit("nixbox initial process not started: run 'nixbox init'")
}

/// What the user is told when there is no service to join.
pub fn unavailable_message() -> (out: Vec<u8>)
    ensures
        out@ == unavailable_text(),
{
    bytes_of("nixbox initial process not started: run 'nixbox init'")
}

/// The script that the service's shell runs: it publishes its pid and its
/// environment, and then sleeps for good.
pub open spec fn login_script() -> Seq<u8> {
    lit("\necho $$ > $1\n/usr/bin/env -0 > $2\nwhile :; do sleep 3600; done\n")
}

/// The first line of `s`, without the line feed that ends it.
pub open spec fn first_line(s: Seq<u8>) -> Seq<u8> {
    s.take(run_len(s, Delim::Byte(10)) as int)
}

/// The pid that a pidfile with the given contents names: its first line,
/// trimmed, read as a decimal number.
pub open spec fn pid_of(content: Seq<u8>) -> Option<i32> {
    parse_i32_spec(trim(first_line(content)))
}

/// The contents of the pidfile of the process `pid`.
pub open spec fn pidfile_of(pid: i32) -> Seq<u8> {
    decimal_int(pid as int).push(10u8)
}

/// The name and the value of one record of an environment file: what stands
/// before and after the first `=`. A record without `=` is none.
pub open spec fn env_record(record: Seq<u8>) -> Option<(Seq<u8>, Seq<u8>)> {
    let n = run_len(record, Delim::Byte(61)) as int;
    if n < record.len() {
        Some((record.take(n), record.skip(n + 1)))
    } else {
        None
    }
}

/// The assignments that the records make, in order; nothing if one of them
/// is no assignment.
pub open spec fn env_records(recs: Seq<Seq<u8>>) -> Option<Seq<(Seq<u8>, Seq<u8>)>>
    decreases recs.len(),
{
    if recs.len() == 0 {
        Some(Seq::empty())
    } else {
        match (env_records(recs.drop_last()), env_record(recs.last())) {
            (Some(front), Some(entry)) => Some(front.push(entry)),
            _ => None,
        }
    }
}

/// The assignments that an environment file with the given contents makes:
/// its records end with a zero byte each.
pub open spec fn environ_of(content: Seq<u8>) -> Option<Seq<(Seq<u8>, Seq<u8>)>> {
    env_records(records(content, Delim::Byte(0)))
}

/// A numeral has no whitespace around it and no line feed in it, so a
/// pidfile names the pid that was written to it.
pub proof fn lemma_pidfile_round_trip(pid: i32)
    ensures
        pid_of(pidfile_of(pid)) == Some(pid),
{
    let numeral = decimal_int(pid as int);
    let content = pidfile_of(pid);
    let d = Delim::Byte(10);
    let magnitude = if pid < 0 {
        (-(pid as int)) as nat
    } else {
        pid as nat
    };
    lemma_decimal(magnitude);
    lemma_parse_decimal_int(pid as int);
    assert forall|k: int| 0 <= k < numeral.len() implies (#[trigger] numeral[k] == 45u8
        || crate::decimal::is_digit(numeral[k])) by {
        if pid < 0 {
            if k > 0 {
                assert(numeral[k] == crate::decimal::decimal(magnitude)[k - 1]);
            }
        } else {
            assert(numeral[k] == crate::decimal::decimal(magnitude)[k]);
        }
    }
    assert forall|k: int| 0 <= k < numeral.len() implies !d.spec_matches(#[trigger] content[k]) by {
        assert(content[k] == numeral[k]);
    }
    assert(content[numeral.len() as int] == 10u8);
    lemma_run_len_is(content, d, numeral.len() as int);
    assert(content.take(numeral.len() as int) =~= numeral);
    assert(numeral.len() > 0);
    assert(!is_space(numeral[0]));
    assert(!is_space(numeral.last()));
    lemma_trim_nothing(numeral);
}

/// The pid that a pidfile with the given contents names.
pub fn get_pid(content: &Vec<u8>) -> (out: Option<i32>)
    ensures
        out == pid_of(content@),
{
    let mut end: usize = 0;
    while end < content.len() && content[end] != 10u8
        invariant
            end <= content.len(),
            forall|k: int| 0 <= k < end ==> !Delim::Byte(10).spec_matches(#[trigger] content@[k]),
        decreases content.len() - end,
    {
        end += 1;
    }
    proof {
        lemma_run_len_is(content@, Delim::Byte(10), end as int);
    }
    let line = copy_range(content, 0, end);
    assert(line@ =~= first_line(content@));
    let trimmed = trim_bytes(&line);
    parse_i32(&trimmed)
}

/// The contents of the pidfile of the process `pid`.
pub fn pidfile_content(pid: i32) -> (out: Vec<u8>)
    ensures
        out@ == pidfile_of(pid),
{
    let mut out = format_i32(pid);
    out.push(10u8);
    out
}

/// The assignments that an environment file with the given contents makes.
pub fn get_env(content: &Vec<u8>) -> (out: Option<Env>)
    ensures
        match out {
            Some(env) => environ_of(content@) == Some(env.entries()),
            None => environ_of(content@).is_none(),
        },
{
    let recs = records_of(content, Delim::Byte(0));
    let ghost all = deep(&recs);
    let mut env = Env::new();
    let mut i: usize = 0;
    assert(all.take(0) =~= Seq::<Seq<u8>>::empty());
    while i < recs.len()
        invariant
            i <= recs.len(),
            all == deep(&recs),
            all == records(content@, Delim::Byte(0)),
            env_records(all.take(i as int)) == Some(env.entries()),
        decreases recs.len() - i,
    {
        let rec = &recs[i];
        let mut n: usize = 0;
        while n < rec.len() && rec[n] != 61u8
            invariant
                n <= rec.len(),
                forall|k: int| 0 <= k < n ==> !Delim::Byte(61).spec_matches(#[trigger] rec@[k]),
            decreases rec.len() - n,
        {
            n += 1;
        }
        proof {
            lemma_run_len_is(rec@, Delim::Byte(61), n as int);
            assert(all.take(i + 1).drop_last() =~= all.take(i as int));
            assert(all.take(i + 1).last() == rec@);
        }
        if n == rec.len() {
            proof {
                lemma_env_records_fail(all, i as int);
            }
            return None;
        }
        let name = copy_range(rec, 0, n);
        let value = copy_range(rec, n + 1, rec.len());
        assert(name@ =~= rec@.take(n as int));
        assert(value@ =~= rec@.skip(n + 1));
        env.set(name, value);
        i += 1;
    }
    assert(all.take(all.len() as int) =~= all);
    Some(env)
}

/// One record that is no assignment spoils the whole file.
proof fn lemma_env_records_fail(recs: Seq<Seq<u8>>, i: int)
    requires
        0 <= i < recs.len(),
        env_record(recs[i]).is_none(),
    ensures
        env_records(recs).is_none(),
    decreases recs.len(),
{
    if i < recs.len() - 1 {
        lemma_env_records_fail(recs.drop_last(), i);
    }
}

/// A service that was found.
#[derive(Debug, PartialEq, Eq)]
pub struct Service {
    /// The pid of the service.
    pub pid: i32,
    /// The directory that is the root inside the sandbox.
    pub root: HostPathBuf,
    /// The environment of a login shell inside the sandbox.
    pub env: Env,
}

/// What a caller does next while it waits for the service.
#[derive(Debug, PartialEq, Eq)]
pub enum WaitStep {
    /// The service is there.
    Ready(Service),
    /// Nothing yet: sleep for so many milliseconds and look again.
    Retry { millis: u64 },
    /// Nothing after the last look: report that the service did not start.
    GiveUp,
}

/// The count of looks that found nothing.
#[derive(Debug)]
pub struct Waiter {
    failed: u32,
}

impl Waiter {
    /// How many looks have found nothing so far.
    pub closed spec fn failed(&self) -> nat {
        self.failed as nat
    }

    #[verifier::type_invariant]
    spec fn inv(self) -> bool {
        self.failed <= ATTEMPTS
    }

    /// Starts to wait.
    pub fn new() -> (out: Self)
        ensures
            out.failed() == 0,
    {
        Waiter { failed: 0 }
    }

    /// Takes in the result of one look for the service. A service that was
    /// found ends the wait. A look that found nothing counts; the caller
    /// tries again until the count reaches [`ATTEMPTS`], and then gives up.
    pub fn poll(&mut self, found: Option<Service>) -> (step: WaitStep)
        ensures
            match found {
                Some(service) => step == WaitStep::Ready(service) && final(self).failed() == old(
                    self,
                ).failed(),
                None => if old(self).failed() + 1 < ATTEMPTS {
                    &&& step == (WaitStep::Retry { millis: DELAY_MILLIS })
                    &&& final(self).failed() == old(self).failed() + 1
                } else {
                    &&& step == WaitStep::GiveUp
                    &&& final(self).failed() == ATTEMPTS
                },
            },
    {
        proof {
            use_type_invariant(&*self);
        }
        match found {
            Some(service) => WaitStep::Ready(service),
            None => {
                if self.failed + 1 < ATTEMPTS {
                    self.failed = self.failed + 1;
                    WaitStep::Retry { millis: DELAY_MILLIS }
                } else {
                    self.failed = ATTEMPTS;
                    WaitStep::GiveUp
                }
            },
        }
    }
}

/// Which of the two forks that start a service a process has just made.
#[derive(Clone, Copy, Debug, PartialEq, Eq, Structural)]
pub enum Fork {
    /// The fork made by the invocation that found no service.
    First,
    /// The fork made by the child of the first.
    Second,
}

/// What a process does after a fork.
#[derive(Clone, Copy, Debug, PartialEq, Eq, Structural)]
pub enum AfterFork {
    /// Wait until the service is there.
    WaitForService,
    /// Fork once more.
    ForkAgain,
    /// Exit with status 0 at once.
    Exit,
    /// Become the service.
    BecomeService,
}

/// What the invocation does about the service.
#[derive(Debug, PartialEq, Eq)]
pub enum Discovery {
    /// Join this service.
    Join(Service),
    /// There is none: start one with a double fork.
    Start,
}

/// What a process does after the fork `fork`, as its parent or as its child:
/// the first parent waits for the service, the first child forks again, the
/// second parent exits at once, and the second child becomes the service.
pub fn after_fork(fork: Fork, is_parent: bool) -> (next: AfterFork)
    ensures
        next == match (fork, is_parent) {
            (Fork::First, true) => AfterFork::WaitForService,
            (Fork::First, false) => AfterFork::ForkAgain,
            (Fork::Second, true) => AfterFork::Exit,
            (Fork::Second, false) => AfterFork::BecomeService,
        },
{
    match fork {
        Fork::First => if is_parent {
            AfterFork::WaitForService
        } else {
            AfterFork::ForkAgain
        },
        Fork::Second => if is_parent {
            AfterFork::Exit
        } else {
            AfterFork::BecomeService
        },
    }
}

/// Joins the service that was found, or starts one where none was.
pub fn get_or_init_service(found: Option<Service>) -> (out: Discovery)
    ensures
        out == match found {
            Some(service) => Discovery::Join(service),
            None => Discovery::Start,
        },
{
    match found {
        Some(service) => Discovery::Join(service),
        None => Discovery::Start,
    }
}

/// The directory of the process `pid` in `/proc`.
pub open spec fn proc_dir(pid: i32) -> PathModel {
    abs("/proc").join(parse_path(decimal_int(pid as int)))
}

/// The directory of the process `pid` in `/proc`.
pub fn proc_path(pid: i32) -> (out: HostPathBuf)
    ensures
        out@ == proc_dir(pid),
{
    HostPathBuf::new("/proc").join_bytes(&format_i32(pid))
}

/// Joining the namespaces of the process `pid` and entering `root`: first
/// the user namespace, which permits the others, then the mount and the
/// host-name namespace; then to the top, into the root, and back to the
/// old working directory if that can be done.
pub open spec fn enter_service_plan(pid: i32, root: PathModel) -> Seq<ActionModel> {
    seq![
        ActionModel::Setns(at(proc_dir(pid), "ns/user")),
        ActionModel::Setns(at(proc_dir(pid), "ns/mnt")),
        ActionModel::Setns(at(proc_dir(pid), "ns/uts")),
        ActionModel::Chdir(PathModel::root()),
        ActionModel::Chroot(root),
        ActionModel::RestoreCwd,
    ]
}

/// Why a service cannot be joined.
#[derive(Clone, Copy, Debug, PartialEq, Eq, Structural)]
pub enum ServiceError {
    /// The service's process is gone.
    ServiceUnavailable,
}

/// Plans the entry into the sandbox of `service`. `ns_present` says whether
/// the namespace directory of the service's process exists.
pub fn enterns(service: &Service, ns_present: bool) -> (out: Result<Vec<Action>, ServiceError>)
    ensures
        out is Ok <==> ns_present,
        out is Ok ==> views(&out.unwrap()) == enter_service_plan(service.pid, service.root@),
{
    if !ns_present {
        return Err(ServiceError::ServiceUnavailable);
    }
    let dir = proc_path(service.pid);
    let mut plan: Vec<Action> = Vec::new();
    assert(views(&plan) =~= Seq::empty());
    push_action(&mut plan, Action::Setns(dir.join_str("ns/user")));
    push_action(&mut plan, Action::Setns(dir.join_str("ns/mnt")));
    push_action(&mut plan, Action::Setns(dir.join_str("ns/uts")));
    push_action(&mut plan, Action::Chdir(HostPathBuf::root()));
    push_action(&mut plan, Action::Chroot(service.root.clone()));
    push_action(&mut plan, Action::RestoreCwd);
    assert(views(&plan) =~= enter_service_plan(service.pid, service.root@));
    Ok(plan)
}

/// A link at `target` with the text `text`, in place of any link that
/// stands there.
pub open spec fn force_symlink_plan(text: Seq<u8>, target: PathModel, is_symlink: bool) -> Seq<
    ActionModel,
> {
    if is_symlink {
        seq![ActionModel::Unlink(target), ActionModel::Symlink { text, link: target }]
    } else {
        seq![ActionModel::Symlink { text, link: target }]
    }
}

/// Plans a link at `target` to `source`, in place of any link that stands
/// there. `is_symlink` says whether a link stands at `target`.
pub fn force_symlink(source: &HostPathBuf, target: &HostPathBuf, is_symlink: bool) -> (plan: Vec<
    Action,
>)
    ensures
        views(&plan) == force_symlink_plan(source@.render(), target@, is_symlink),
{
    let mut plan: Vec<Action> = Vec::new();
    assert(views(&plan) =~= Seq::empty());
    if is_symlink {
        push_action(&mut plan, Action::Unlink(target.clone()));
    }
    push_action(&mut plan, Action::Symlink { text: source.to_bytes(), link: target.clone() });
    assert(views(&plan) =~= force_symlink_plan(source@.render(), target@, is_symlink));
    plan
}

/// Plans the writing of the pidfile of the process `own_pid`. `alive` is
/// the pid of the process that the caller found running when it looked for
/// the one that the pidfile in place names. Nothing is written where the
/// pidfile in place, with contents `existing`, names that running process.
pub fn write_pidfile(
    pidfile: &HostPathBuf,
    existing: &Option<Vec<u8>>,
    alive: Option<i32>,
    own_pid: i32,
) -> (out: Option<Action>)
    ensures
        out is None <==> existing is Some && pid_of(existing.unwrap()@) is Some && alive == pid_of(
            existing.unwrap()@,
        ),
        out is Some ==> out.unwrap()@ == (ActionModel::WriteFile {
            path: pidfile@,
            data: pidfile_of(own_pid),
            optional: false,
        }),
{
    let taken = match existing {
        Some(content) => match (get_pid(content), alive) {
            (Some(named), Some(running)) => named == running,
            _ => false,
        },
        None => false,
    };
    if taken {
        None
    } else {
        Some(
            Action::WriteFile {
                path: pidfile.clone(),
                data: pidfile_content(own_pid),
                optional: false,
            },
        )
    }
}

/// The pidfile, the link to the root and the environment file below the
/// runtime directory `rundir`, in this order.
pub fn published_paths(rundir: &HostPathBuf) -> (out: (HostPathBuf, HostPathBuf, HostPathBuf))
    ensures
        out.0@ == at(rundir@, "server.pid"),
        out.1@ == at(rundir@, "chroot"),
        out.2@ == at(rundir@, "environ"),
{
    (rundir.join_str("server.pid"), rundir.join_str("chroot"), rundir.join_str("environ"))
}

/// The file through which the namespace `name` of the process `pid` is
/// joined.
pub fn namespace_path(pid: i32, name: &str) -> (out: HostPathBuf)
    ensures
        out@ == at(proc_dir(pid), "ns").join(parse_path(lit(name))),
{
    proc_path(pid).join_str("ns").join_str(name)
}

/// What the runtime directory holds.
#[derive(Debug, PartialEq, Eq)]
pub struct Published {
    /// The contents of `server.pid`, where it can be read.
    pub pidfile: Option<Vec<u8>>,
    /// The text of the link `chroot`, where it can be read.
    pub root: Option<HostPathBuf>,
    /// The contents of `environ`, where it can be read.
    pub environ: Option<Vec<u8>>,
}

impl Published {
    /// The service that these files describe, if they describe one: all three
    /// are there, the pidfile names a pid, and every record of the
    /// environment is an assignment.
    pub open spec fn describes(&self) -> Option<(i32, PathModel, Seq<(Seq<u8>, Seq<u8>)>)> {
        if self.pidfile is Some && self.root is Some && self.environ is Some && pid_of(
            self.pidfile.unwrap()@,
        ) is Some && environ_of(self.environ.unwrap()@) is Some {
            Some(
                (
                    pid_of(self.pidfile.unwrap()@).unwrap(),
                    self.root.unwrap()@,
                    environ_of(self.environ.unwrap()@).unwrap(),
                ),
            )
        } else {
            None
        }
    }
}

/// The arguments of the service's shell: a login shell that runs the login
/// script with the pidfile and the environment file as its parameters.
pub open spec fn login_args(rundir: PathModel) -> Seq<Seq<u8>> {
    seq![
        lit("--login"),
        lit("-c"),
        login_script(),
        lit("--"),
        at(rundir, "server.pid").render(),
        at(rundir, "environ").render(),
    ]
}

/// What a process does to become the service: it makes the runtime
/// directory if it is missing, publishes its root, builds and enters the
/// sandbox, and names its host.
pub open spec fn init_plan(
    config: &Config,
    survey: &Survey,
    rundir_present: bool,
    link_present: bool,
) -> Seq<ActionModel> {
    let make = if rundir_present {
        Seq::empty()
    } else {
        seq![ActionModel::CreateDir(config.runtime_dir@)]
    };
    make + force_symlink_plan(
        config.chroot_dir@.render(),
        at(config.runtime_dir@, "chroot"),
        link_present,
    ) + survey.plan(config) + seq![ActionModel::SetHostname(hostname())]
}

impl Service {
    /// Finds the service that the runtime directory describes. `alive` is
    /// the pid of the process that the caller found running when it looked
    /// for the one that the pidfile names, if it found one.
    ///
    /// A pidfile that names a process that is gone is stale, and describes
    /// no service.
    pub fn from_existing(published: &Published, alive: Option<i32>) -> (out: Option<Service>)
        ensures
            out is Some <==> published.describes() is Some && alive == Some(
                published.describes().unwrap().0,
            ),
            out is Some ==> {
                &&& out.unwrap().pid == published.describes().unwrap().0
                &&& out.unwrap().root@ == published.describes().unwrap().1
                &&& out.unwrap().env.entries() == published.describes().unwrap().2
            },
    {
        let pid = match &published.pidfile {
            Some(content) => match get_pid(content) {
                Some(pid) => pid,
                None => {
                    return None;
                },
            },
            None => {
                return None;
            },
        };
        let root = match &published.root {
            Some(root) => root.clone(),
            None => {
                return None;
            },
        };
        let env = match &published.environ {
            Some(content) => match get_env(content) {
                Some(env) => env,
                None => {
                    return None;
                },
            },
            None => {
                return None;
            },
        };
        match alive {
            Some(running) => {
                if running != pid {
                    return None;
                }
            },
            None => {
                return None;
            },
        }
        Some(Service { pid, root, env })
    }

    /// Plans how the calling process becomes the service, and the shell that
    /// it then runs for good.
    ///
    /// `rundir_present` says whether the runtime directory exists, and
    /// `link_present` whether a link stands where the root is published.
    pub fn init(
        config: &Config,
        survey: &Survey,
        host: &Env,
        rundir_present: bool,
        link_present: bool,
    ) -> (out: Result<(Vec<Action>, Launch), SetupError>)
        ensures
            out is Ok <==> survey.host_home@.absolute && survey.host_home@.parts.len() > 0,
            out is Ok ==> {
                &&& views(&out.unwrap().0) == init_plan(config, survey, rundir_present, link_present)
                &&& out.unwrap().1.program@ == lit("/run/current-system/sw/bin/bash")
                &&& deep(&out.unwrap().1.args) == login_args(config.runtime_dir@)
                &&& out.unwrap().1.env.entries() == launch_entries(
                    host@,
                    config.env.entries(),
                    Seq::empty(),
                )
            },
    {
        let build = match setup(config, survey) {
            Ok(build) => build,
            Err(e) => {
                return Err(e);
            },
        };
        let rundir = &config.runtime_dir;
        let mut plan: Vec<Action> = Vec::new();
        assert(views(&plan) =~= Seq::empty());
        if !rundir_present {
            push_action(&mut plan, Action::CreateDir(rundir.clone()));
        }
        append_actions(
            &mut plan,
            force_symlink(&config.chroot_dir, &rundir.join_str("chroot"), link_present),
        );
        append_actions(&mut plan, build);
        push_action(&mut plan, Action::SetHostname(bytes_of("nixbox")));
        assert(views(&plan) =~= init_plan(config, survey, rundir_present, link_present));
        let mut args: Vec<Vec<u8>> = Vec::new();
        args.push(bytes_of("--login"));
        args.push(bytes_of("-c"));
        args.push(bytes_of("\necho $$ > $1\n/usr/bin/env -0 > $2\nwhile :; do sleep 3600; done\n"));
        args.push(bytes_of("--"));
        args.push(rundir.join_str("server.pid").to_bytes());
        args.push(rundir.join_str("environ").to_bytes());
        assert(deep(&args) =~= login_args(config.runtime_dir@));
        let program = bytes_of("/run/current-system/sw/bin/bash");
        let none = Env::new();
        let launch = run(config, host, &program, &args, &none);
        Ok((plan, launch))
    }
}

/// One assignment as `env -0` writes it, without the zero byte that ends it.
pub open spec fn record_of(entry: (Seq<u8>, Seq<u8>)) -> Seq<u8> {
    entry.0 + seq![61u8] + entry.1
}

/// The assignments as `env -0` writes them: each as `NAME=VALUE` and a zero
/// byte.
pub open spec fn environ_text(entries: Seq<(Seq<u8>, Seq<u8>)>) -> Seq<u8>
    decreases entries.len(),
{
    if entries.len() == 0 {
        Seq::empty()
    } else {
        record_of(entries[0]) + seq![0u8] + environ_text(entries.skip(1))
    }
}

/// Whether an assignment can be part of an environment: the name holds no
/// `=`, and neither name nor value holds a zero byte.
pub open spec fn publishable(entry: (Seq<u8>, Seq<u8>)) -> bool {
    &&& forall|k: int| 0 <= k < entry.0.len() ==> #[trigger] entry.0[k] != 61u8 && entry.0[k] != 0u8
    &&& forall|k: int| 0 <= k < entry.1.len() ==> #[trigger] entry.1[k] != 0u8
}

/// The records of the assignments.
pub open spec fn records_for(entries: Seq<(Seq<u8>, Seq<u8>)>) -> Seq<Seq<u8>> {
    Seq::new(entries.len(), |i: int| record_of(entries[i]))
}

proof fn lemma_split_environ(entries: Seq<(Seq<u8>, Seq<u8>)>)
    requires
        forall|i: int| 0 <= i < entries.len() ==> publishable(#[trigger] entries[i]),
    ensures
        crate::text::split(environ_text(entries), Delim::Byte(0)) == records_for(entries).push(
            Seq::empty(),
        ),
    decreases entries.len(),
{
    let d = Delim::Byte(0);
    let text = environ_text(entries);
    if entries.len() == 0 {
        lemma_run_len_is(text, d, 0);
        assert(crate::text::split(text, d) =~= seq![text]);
        assert(records_for(entries).push(Seq::empty()) =~= seq![Seq::<u8>::empty()]);
    } else {
        let first = record_of(entries[0]);
        let rest = entries.skip(1);
        assert(publishable(entries[0]));
        assert forall|i: int| 0 <= i < rest.len() implies publishable(#[trigger] rest[i]) by {
            assert(rest[i] == entries[i + 1]);
        }
        lemma_split_environ(rest);
        assert forall|k: int| 0 <= k < first.len() implies !d.spec_matches(#[trigger] text[k]) by {
            assert(text[k] == first[k]);
            if k < entries[0].0.len() {
                assert(first[k] == entries[0].0[k]);
            } else if k > entries[0].0.len() {
                assert(first[k] == entries[0].1[k - entries[0].0.len() - 1]);
            }
        }
        assert(text[first.len() as int] == 0u8);
        lemma_run_len_is(text, d, first.len() as int);
        assert(text.take(first.len() as int) =~= first);
        assert(text.skip(first.len() as int + 1) =~= environ_text(rest));
        assert(seq![first] + records_for(rest).push(Seq::empty()) =~= records_for(entries).push(
            Seq::empty(),
        )) by {
            assert forall|i: int| 0 <= i < rest.len() implies records_for(rest)[i] == records_for(
                entries,
            )[i + 1] by {
                assert(rest[i] == entries[i + 1]);
            }
        }
    }
}

proof fn lemma_record_read_back(entry: (Seq<u8>, Seq<u8>))
    requires
        publishable(entry),
    ensures
        env_record(record_of(entry)) == Some(entry),
{
    let d = Delim::Byte(61);
    let rec = record_of(entry);
    assert forall|k: int| 0 <= k < entry.0.len() implies !d.spec_matches(#[trigger] rec[k]) by {
        assert(rec[k] == entry.0[k]);
    }
    assert(rec[entry.0.len() as int] == 61u8);
    lemma_run_len_is(rec, d, entry.0.len() as int);
    assert(rec.take(entry.0.len() as int) =~= entry.0);
    assert(rec.skip(entry.0.len() as int + 1) =~= entry.1);
}

proof fn lemma_records_read_back(entries: Seq<(Seq<u8>, Seq<u8>)>)
    requires
        forall|i: int| 0 <= i < entries.len() ==> publishable(#[trigger] entries[i]),
    ensures
        env_records(records_for(entries)) == Some(entries),
    decreases entries.len(),
{
    if entries.len() == 0 {
        assert(entries =~= Seq::empty());
    } else {
        let front = entries.drop_last();
        assert forall|i: int| 0 <= i < front.len() implies publishable(#[trigger] front[i]) by {
            assert(front[i] == entries[i]);
        }
        lemma_records_read_back(front);
        assert(publishable(entries[entries.len() - 1]));
        lemma_record_read_back(entries.last());
        assert(records_for(entries).drop_last() =~= records_for(front));
        assert(front.push(entries.last()) =~= entries);
    }
}

/// An environment that is written as `env -0` writes it is read back as it
/// was.
pub proof fn lemma_environ_round_trip(entries: Seq<(Seq<u8>, Seq<u8>)>)
    requires
        forall|i: int| 0 <= i < entries.len() ==> publishable(#[trigger] entries[i]),
    ensures
        environ_of(environ_text(entries)) == Some(entries),
{
    lemma_split_environ(entries);
    lemma_records_read_back(entries);
    let pieces = records_for(entries).push(Seq::<u8>::empty());
    assert(pieces.last().len() == 0);
    assert(pieces.drop_last() =~= records_for(entries));
}

} // verus!
