//! Verified core of the Cakeman C/C++ package manager.

pub mod auth;
pub mod commands;
pub mod compiler;
pub mod dependency;
pub mod error;
pub mod installed;
pub mod manifest;
pub mod registry;
pub mod resolution;
pub mod resolver;
pub mod terminal;
pub mod lockfile;
pub mod seqs;
pub mod text;
pub mod toml_doc;
