//! The built-in commands of the shell and the parsing of command lines.

pub mod cmd;
pub mod cmd_cd;
pub mod cmd_pwd;
pub mod cmd_fileshare;
pub mod cmd_chat;
pub mod builtin;
