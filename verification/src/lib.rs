//! A small interactive shell: parsing of command lines, a table of
//! built-in commands and the decisions each built-in makes, with the
//! peer-to-peer chat's bookkeeping.  Everything that touches the terminal,
//! the file system or the network lives in the application around it.

pub mod text;
pub mod command;
pub mod shell;
