//! The verified core of nixbox.
//!
//! nixbox runs programs of a Nix store on a Linux host that is not NixOS.
//! It assembles a root directory in which `/nix`, the shell, `/etc` and the
//! directories of the system profile look as they do on NixOS, and runs the
//! user's commands inside that view, in namespaces of their own.
//!
//! This crate holds every decision of that work and touches nothing. What
//! is to be done to the system comes out as a plan, a list of
//! [`plan::Action`]s; what has to be known of the system goes in as plain
//! values: a [`snapshot::Snapshot`] of paths that were looked at, a
//! [`setup::Survey`] of the host, an [`env::Env`]. The program around the
//! crate looks, calls, and carries the plan out.
//!
//! The parts, leaves first:
//!
//! - [`text`], [`decimal`], [`path`]: byte strings, numbers and lexical
//!   paths.
//! - [`snapshot`], [`util::resolve_symlink`], [`mapper`]: what is known of
//!   the host's files, and the resolution of guest paths on the host.
//! - [`plan`], [`sys`], [`bind`], [`tmpfiles`], [`certs`], [`setup`],
//!   [`exec`]: the construction of the sandbox.
//! - [`env`], [`config`], [`command`]: configuration and the environment of
//!   the programs that are started.
//! - [`init`], [`util::shlock`], [`supervisor`], [`status`]: the service
//!   and the processes around it.
//! - [`desktop`], [`table`]: the list of applications.

pub mod bind;
pub mod certs;
pub mod command;
pub mod config;
pub mod decimal;
pub mod desktop;
pub mod env;
pub mod exec;
pub mod init;
pub mod mapper;
pub mod path;
pub mod plan;
pub mod setup;
pub mod snapshot;
pub mod status;
pub mod supervisor;
pub mod sys;
pub mod table;
pub mod text;
pub mod tmpfiles;
pub mod util;
