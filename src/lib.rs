//! Core of a small command-line shell: tokenizing a line, checking and
//! extracting its redirections, planning the launch of the child process and
//! keeping the table of background jobs.
pub mod command;
pub mod jobs;
pub mod redirect;
pub mod tokenize;
pub mod validate;

pub use command::{
    launch_steps, plan_command, CommandError, CommandSpec, LaunchError, LaunchStep, StreamDirection,
};
pub use jobs::{JobStatus, JobTable};
pub use redirect::{handle_redirection, MissingRedirectionTarget, RedirectOp, RedirectionSpec};
pub use tokenize::parse_input;
pub use validate::{check_syntax, validate_command, validate_command2, SyntaxError};
