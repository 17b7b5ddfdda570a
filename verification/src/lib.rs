//! Core logic of a terminal coding assistant: command screening for the shell
//! tool, the shape of captured command output, conversation sessions and the
//! interpretation of interactive input.

pub mod agent;
pub mod command;
pub mod session;
pub mod shell;
pub mod text;
