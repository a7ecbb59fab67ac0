//! The launches behind `run` and `enter`: a program of the user's choice,
//! or the login shell.

use crate::command::run::{launch_entries, run, Launch};
use crate::config::Config;
use crate::env::Env;
use crate::path::{parse_path, HostPathBuf, PathModel};
use crate::setup::{abs, at};
use crate::text::{bytes_of, copy_bytes, deep, lit};
use vstd::prelude::*;

verus! {

/// Why there is nothing to launch.
#[derive(Clone, Copy, Debug, PartialEq, Eq, Structural)]
pub enum CommandError {
    /// The shell is named by a relative path and `HOME` is not set.
    ConfigMissing,
    /// No program was named.
    NoProgram,
}

/// The login shell that the host environment asks for: `NIXBOX_SHELL`, or
/// the guest system's `bash`. A relative path names a program of the user's
/// profile, which takes `HOME`.
pub open spec fn spec_login_shell(host: Map<Seq<u8>, Seq<u8>>) -> Option<PathModel> {
    let shell = if host.dom().contains(lit("NIXBOX_SHELL")) {
        parse_path(host[lit("NIXBOX_SHELL")])
    } else {
        abs("/run/current-system/sw/bin/bash")
    };
    if shell.absolute {
        Some(shell)
    } else if host.dom().contains(lit("HOME")) {
        Some(at(parse_path(host[lit("HOME")]), ".nix-profile/bin").join(shell))
    } else {
        None
    }
}

/// The login shell that the host environment asks for.
pub fn login_shell(host: &Env) -> (out: Result<HostPathBuf, CommandError>)
    ensures
        match out {
            Ok(shell) => spec_login_shell(host@) == Some(shell@),
            Err(e) => spec_login_shell(host@).is_none() && e == CommandError::ConfigMissing,
        },
{
    let shell = match host.get_str("NIXBOX_SHELL") {
        Some(value) => HostPathBuf::from_bytes(value),
        None => HostPathBuf::new("/run/current-system/sw/bin/bash"),
    };
    if shell.is_absolute() {
        return Ok(shell);
    }
    match host.get_str("HOME") {
        Some(home) => Ok(HostPathBuf::from_bytes(home).join_str(".nix-profile/bin").join(&shell)),
        None => Err(CommandError::ConfigMissing),
    }
}

/// The assignment of the shell `shell` to `SHELL`.
pub open spec fn shell_entries(shell: PathModel) -> Seq<(Seq<u8>, Seq<u8>)> {
    seq![(lit("SHELL"), shell.render())]
}

/// The assignment of `shell` to `SHELL`.
pub fn shell_override(shell: &HostPathBuf) -> (env: Env)
    ensures
        env.entries() == shell_entries(shell@),
{
    let mut env = Env::new();
    env.set(bytes_of("SHELL"), shell.to_bytes());
    assert(env.entries() =~= shell_entries(shell@));
    env
}

/// Puts together the launch of the login shell: `bash -lc <shell>`, with
/// `SHELL` set to the shell.
pub fn enter(config: &Config, host: &Env) -> (out: Result<Launch, CommandError>)
    ensures
        out is Ok <==> spec_login_shell(host@) is Some,
        out is Err ==> out == Err::<Launch, CommandError>(CommandError::ConfigMissing),
        out is Ok ==> {
            let shell = spec_login_shell(host@).unwrap();
            &&& out.unwrap().program@ == lit("bash")
            &&& deep(&out.unwrap().args) == seq![lit("-lc"), shell.render()]
            &&& out.unwrap().env.entries() == launch_entries(
                host@,
                config.env.entries(),
                shell_entries(shell),
            )
        },
{
    let shell = match login_shell(host) {
        Ok(shell) => shell,
        Err(e) => {
            return Err(e);
        },
    };
    let envs = shell_override(&shell);
    let mut args: Vec<Vec<u8>> = Vec::new();
    args.push(bytes_of("-lc"));
    args.push(shell.to_bytes());
    assert(deep(&args) =~= seq![lit("-lc"), shell@.render()]);
    let program = bytes_of("bash");
    Ok(run(config, host, &program, &args, &envs))
}

/// Puts together the launch of the program that the words of `rest` name:
/// the first word is the program, the others are its arguments, and `SHELL`
/// is set to the login shell.
pub fn run_command(config: &Config, host: &Env, rest: &Vec<Vec<u8>>) -> (out: Result<
    Launch,
    CommandError,
>)
    ensures
        out is Ok <==> rest@.len() > 0 && spec_login_shell(host@) is Some,
        out is Err ==> out == Err::<Launch, CommandError>(
            if spec_login_shell(host@) is None {
                CommandError::ConfigMissing
            } else {
                CommandError::NoProgram
            },
        ),
        out is Ok ==> {
            &&& out.unwrap().program@ == rest@[0]@
            &&& deep(&out.unwrap().args) == deep(rest).skip(1)
            &&& out.unwrap().env.entries() == launch_entries(
                host@,
                config.env.entries(),
                shell_entries(spec_login_shell(host@).unwrap()),
            )
        },
{
    let shell = match login_shell(host) {
        Ok(shell) => shell,
        Err(e) => {
            return Err(e);
        },
    };
    if rest.len() == 0 {
        return Err(CommandError::NoProgram);
    }
    let envs = shell_override(&shell);
    let mut args: Vec<Vec<u8>> = Vec::new();
    let mut i: usize = 1;
    assert(deep(&args) =~= deep(rest).subrange(1, 1));
    while i < rest.len()
        invariant
            1 <= i <= rest.len(),
            deep(&args) == deep(rest).subrange(1, i as int),
        decreases rest.len() - i,
    {
        let ghost before = deep(&args);
        let arg = copy_bytes(&rest[i]);
        args.push(arg);
        assert(deep(&args) =~= before.push(arg@));
        assert(deep(rest).subrange(1, i + 1) =~= deep(rest).subrange(1, i as int).push(
            rest@[i as int]@,
        ));
        i += 1;
    }
    assert(deep(rest).subrange(1, rest.len() as int) =~= deep(rest).skip(1));
    Ok(run(config, host, &rest[0], &args, &envs))
}

} // verus!
