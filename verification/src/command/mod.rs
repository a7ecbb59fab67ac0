//! What the subcommands decide.

pub mod enter;
pub mod install;
pub mod run;

pub use enter::enter;
pub use install::install;
pub use run::run;
