//! The naming pass of a Luau bytecode decompiler, and the request handling of
//! its web front end.

pub mod ast;
pub mod text;
pub mod counts;
pub mod naming;
pub mod server;
pub mod laws;
