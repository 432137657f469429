//! A simulated Unix shell: a virtual file system, the built-in commands that
//! operate on it, and the command-line interpreter that ties them together.
pub mod text;
pub mod numeric;
pub mod order;
pub mod path;
pub mod vfs;
pub mod permissions;
pub mod env;
pub mod users;
pub mod command;
pub mod shell;
pub mod changes;
