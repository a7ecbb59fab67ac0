//! The environment and command line of a program started in the sandbox.
//!
//! The program's environment starts empty. It receives, in this order, the
//! session variables that are set on the host, the assignments of the
//! configuration, and the assignments that the caller asks for; a later
//! assignment to a name replaces an earlier one.

use crate::config::Config;
use crate::env::{env_map, lemma_env_map_add, Env};
use crate::text::{bytes_of, copy_bytes, deep, lit};
use vstd::prelude::*;

verus! {

/// The names of the host variables that reach the sandbox.
pub open spec fn forward_vars() -> Seq<Seq<u8>> {
    seq![
        lit("DBUS_SESSION_BUS_ADDRESS"),
        lit("DESKTOP_SESSION"),
        lit("DISPLAY"),
        lit("GDMSESSION"),
        lit("GDM_LANG"),
        lit("GIO_LAUNCHED_DESKTOP_FILE_PID"),
        lit("GNOME_SETUP_DISPLAY"),
        lit("HOME"),
        lit("INVOCATION_ID"),
        lit("JOURNAL_STREAM"),
        lit("LANG"),
        lit("MANAGERPID"),
        lit("SESSION_MANAGER"),
        lit("SHLVL"),
        lit("SSH_AUTH_SOCK"),
        lit("SYSTEMD_EXEC_PID"),
        lit("TERM"),
        lit("USER"),
        lit("VTE_VERSION"),
        lit("WAYLAND_DISPLAY"),
        lit("XAUTHORITY"),
        lit("XDG_CURRENT_DESKTOP"),
        lit("XDG_RUNTIME_DIR"),
        lit("XDG_SESSION_DESKTOP"),
        lit("XDG_SESSION_TYPE"),
        lit("XMODIFIERS"),
    ]
}

/// The assignments that copy those of `names` that `host` sets, in the order
/// of `names`.
pub open spec fn forwarded(host: Map<Seq<u8>, Seq<u8>>, names: Seq<Seq<u8>>) -> Seq<
    (Seq<u8>, Seq<u8>),
>
    decreases names.len(),
{
    if names.len() == 0 {
        Seq::empty()
    } else {
        let front = forwarded(host, names.drop_last());
        if host.dom().contains(names.last()) {
            front.push((names.last(), host[names.last()]))
        } else {
            front
        }
    }
}

/// The environment that a program starts with: what is forwarded from the
/// host, then the configuration's assignments, then the caller's.
pub open spec fn launch_entries(
    host: Map<Seq<u8>, Seq<u8>>,
    config: Seq<(Seq<u8>, Seq<u8>)>,
    overrides: Seq<(Seq<u8>, Seq<u8>)>,
) -> Seq<(Seq<u8>, Seq<u8>)> {
    forwarded(host, forward_vars()) + config + overrides
}

/// Forwarding sets exactly the listed names that the host sets, to the
/// host's values.
pub proof fn lemma_forwarded(host: Map<Seq<u8>, Seq<u8>>, names: Seq<Seq<u8>>, name: Seq<u8>)
    ensures
        env_map(forwarded(host, names)).dom().contains(name) <==> names.contains(name)
            && host.dom().contains(name),
        env_map(forwarded(host, names)).dom().contains(name) ==> env_map(
            forwarded(host, names),
        )[name] == host[name],
    decreases names.len(),
{
    if names.len() > 0 {
        let front = names.drop_last();
        lemma_forwarded(host, front, name);
        if host.dom().contains(names.last()) {
            assert(forwarded(host, names).drop_last() =~= forwarded(host, front));
        }
        if names.contains(name) {
            let i = choose|i: int| 0 <= i < names.len() && names[i] == name;
            if i < front.len() {
                assert(front[i] == name);
            }
        }
        if front.contains(name) {
            let i = choose|i: int| 0 <= i < front.len() && front[i] == name;
            assert(names[i] == name);
        }
        assert(names[names.len() - 1] == names.last());
    }
}

/// A forwarded variable that neither the configuration nor the caller
/// assigns is set in the sandbox exactly if it is set on the host, and then
/// to the host's value.
pub proof fn lemma_forwarded_iff_set_on_host(
    host: Map<Seq<u8>, Seq<u8>>,
    config: Seq<(Seq<u8>, Seq<u8>)>,
    overrides: Seq<(Seq<u8>, Seq<u8>)>,
    name: Seq<u8>,
)
    requires
        forward_vars().contains(name),
        !env_map(config).dom().contains(name),
        !env_map(overrides).dom().contains(name),
    ensures
        env_map(launch_entries(host, config, overrides)).dom().contains(name)
            <==> host.dom().contains(name),
        host.dom().contains(name) ==> env_map(launch_entries(host, config, overrides))[name]
            == host[name],
{
    let first = forwarded(host, forward_vars());
    lemma_forwarded(host, forward_vars(), name);
    lemma_env_map_add(first, config);
    lemma_env_map_add(first + config, overrides);
}

/// A variable that is not forwarded and that neither the configuration nor
/// the caller assigns is not set in the sandbox, whatever the host says.
pub proof fn lemma_unforwarded_is_unset(
    host: Map<Seq<u8>, Seq<u8>>,
    config: Seq<(Seq<u8>, Seq<u8>)>,
    overrides: Seq<(Seq<u8>, Seq<u8>)>,
    name: Seq<u8>,
)
    requires
        !forward_vars().contains(name),
        !env_map(config).dom().contains(name),
        !env_map(overrides).dom().contains(name),
    ensures
        !env_map(launch_entries(host, config, overrides)).dom().contains(name),
{
    let first = forwarded(host, forward_vars());
    lemma_forwarded(host, forward_vars(), name);
    lemma_env_map_add(first, config);
    lemma_env_map_add(first + config, overrides);
}

/// What the caller assigns has the last word.
pub proof fn lemma_override_wins(
    host: Map<Seq<u8>, Seq<u8>>,
    config: Seq<(Seq<u8>, Seq<u8>)>,
    overrides: Seq<(Seq<u8>, Seq<u8>)>,
    name: Seq<u8>,
)
    requires
        env_map(overrides).dom().contains(name),
    ensures
        env_map(launch_entries(host, config, overrides)).dom().contains(name),
        env_map(launch_entries(host, config, overrides))[name] == env_map(overrides)[name],
{
    let first = forwarded(host, forward_vars());
    lemma_env_map_add(first + config, overrides);
}

/// A program to start, with its arguments and its whole environment.
#[derive(Debug, PartialEq, Eq)]
pub struct Launch {
    /// The program.
    pub program: Vec<u8>,
    /// Its arguments, the program's own name not among them.
    pub args: Vec<Vec<u8>>,
    /// The assignments that make up its environment, in order.
    pub env: Env,
}

/// Copies to `env` the assignment that `host` makes to `name`, if any.
fn forward_one(env: &mut Env, host: &Env, name: &str, Ghost(done): Ghost<Seq<Seq<u8>>>)
    requires
        old(env).entries() == forwarded(host@, done),
    ensures
        final(env).entries() == forwarded(host@, done.push(lit(name))),
{
    assert(done.push(lit(name)).drop_last() =~= done);
    match host.get_str(name) {
        Some(value) => {
            env.set(bytes_of(name), copy_bytes(value));
        },
        None => {},
    }
}

/// The session variables that are set on the host.
pub fn forward(host: &Env) -> (env: Env)
    ensures
        env.entries() == forwarded(host@, forward_vars()),
{
    let mut env = Env::new();
    let ghost mut done: Seq<Seq<u8>> = Seq::empty();
    forward_one(&mut env, host, "DBUS_SESSION_BUS_ADDRESS", Ghost(done));
    proof { done = done.push(lit("DBUS_SESSION_BUS_ADDRESS")); }
    forward_one(&mut env, host, "DESKTOP_SESSION", Ghost(done));
    proof { done = done.push(lit("DESKTOP_SESSION")); }
    forward_one(&mut env, host, "DISPLAY", Ghost(done));
    proof { done = done.push(lit("DISPLAY")); }
    forward_one(&mut env, host, "GDMSESSION", Ghost(done));
    proof { done = done.push(lit("GDMSESSION")); }
    forward_one(&mut env, host, "GDM_LANG", Ghost(done));
    proof { done = done.push(lit("GDM_LANG")); }
    forward_one(&mut env, host, "GIO_LAUNCHED_DESKTOP_FILE_PID", Ghost(done));
    proof { done = done.push(lit("GIO_LAUNCHED_DESKTOP_FILE_PID")); }
    forward_one(&mut env, host, "GNOME_SETUP_DISPLAY", Ghost(done));
    proof { done = done.push(lit("GNOME_SETUP_DISPLAY")); }
    forward_one(&mut env, host, "HOME", Ghost(done));
    proof { done = done.push(lit("HOME")); }
    forward_one(&mut env, host, "INVOCATION_ID", Ghost(done));
    proof { done = done.push(lit("INVOCATION_ID")); }
    forward_one(&mut env, host, "JOURNAL_STREAM", Ghost(done));
    proof { done = done.push(lit("JOURNAL_STREAM")); }
    forward_one(&mut env, host, "LANG", Ghost(done));
    proof { done = done.push(lit("LANG")); }
    forward_one(&mut env, host, "MANAGERPID", Ghost(done));
    proof { done = done.push(lit("MANAGERPID")); }
    forward_one(&mut env, host, "SESSION_MANAGER", Ghost(done));
    proof { done = done.push(lit("SESSION_MANAGER")); }
    forward_one(&mut env, host, "SHLVL", Ghost(done));
    proof { done = done.push(lit("SHLVL")); }
    forward_one(&mut env, host, "SSH_AUTH_SOCK", Ghost(done));
    proof { done = done.push(lit("SSH_AUTH_SOCK")); }
    forward_one(&mut env, host, "SYSTEMD_EXEC_PID", Ghost(done));
    proof { done = done.push(lit("SYSTEMD_EXEC_PID")); }
    forward_one(&mut env, host, "TERM", Ghost(done));
    proof { done = done.push(lit("TERM")); }
    forward_one(&mut env, host, "USER", Ghost(done));
    proof { done = done.push(lit("USER")); }
    forward_one(&mut env, host, "VTE_VERSION", Ghost(done));
    proof { done = done.push(lit("VTE_VERSION")); }
    forward_one(&mut env, host, "WAYLAND_DISPLAY", Ghost(done));
    proof { done = done.push(lit("WAYLAND_DISPLAY")); }
    forward_one(&mut env, host, "XAUTHORITY", Ghost(done));
    proof { done = done.push(lit("XAUTHORITY")); }
    forward_one(&mut env, host, "XDG_CURRENT_DESKTOP", Ghost(done));
    proof { done = done.push(lit("XDG_CURRENT_DESKTOP")); }
    forward_one(&mut env, host, "XDG_RUNTIME_DIR", Ghost(done));
    proof { done = done.push(lit("XDG_RUNTIME_DIR")); }
    forward_one(&mut env, host, "XDG_SESSION_DESKTOP", Ghost(done));
    proof { done = done.push(lit("XDG_SESSION_DESKTOP")); }
    forward_one(&mut env, host, "XDG_SESSION_TYPE", Ghost(done));
    proof { done = done.push(lit("XDG_SESSION_TYPE")); }
    forward_one(&mut env, host, "XMODIFIERS", Ghost(done));
    proof { done = done.push(lit("XMODIFIERS")); }
    assert(done =~= forward_vars());
    env
}

/// Puts together the launch of `program` with `args` in the sandbox.
///
/// `host` is the environment of the calling process and `envs` holds the
/// assignments that this launch asks for on top of the configuration's.
pub fn run(config: &Config, host: &Env, program: &Vec<u8>, args: &Vec<Vec<u8>>, envs: &Env) -> (out:
    Launch)
    ensures
        out.program@ == program@,
        deep(&out.args) == deep(args),
        out.env.entries() == launch_entries(host@, config.env.entries(), envs.entries()),
{
    let mut env = forward(host);
    env.extend(&config.env);
    env.extend(envs);
    let mut copied: Vec<Vec<u8>> = Vec::new();
    let mut i: usize = 0;
    while i < args.len()
        invariant
            i <= args.len(),
            deep(&copied) == deep(args).take(i as int),
        decreases args.len() - i,
    {
        let ghost before = deep(&copied);
        let arg = copy_bytes(&args[i]);
        copied.push(arg);
        assert(deep(&copied) =~= before.push(arg@));
        assert(deep(args).take(i + 1) =~= deep(args).take(i as int).push(args@[i as int]@));
        i += 1;
    }
    assert(deep(args).take(args.len() as int) =~= deep(args));
    Launch { program: copy_bytes(program), args: copied, env }
}

} // verus!
