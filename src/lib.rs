//! Shell PATH maintenance: parsing and rewriting the PATH assignments of
//! shell startup files, one handler per shell dialect.

pub mod lines;
pub mod grammar;
pub mod outside;
pub mod timestamp;
pub mod config;
pub mod paths;
pub mod generic;
pub mod ksh;
pub mod laws;
pub mod flush;
pub mod registry;
