//! The interactive shell and the command-line tool: what a line means, what it
//! does and what is shown.
pub mod tokens;
pub mod command;
pub mod layout;
pub mod show;
pub mod execute;
pub mod ctl;
pub mod verbs;
pub mod calls;
pub mod running;
pub mod telling;
pub mod reading;
pub mod describing;
