//! The decisions of each command of the command line.

pub mod add;
pub mod authenticate;
pub mod build_project;
pub mod init;
pub mod install;
pub mod pack;
pub mod publish;
pub mod remove;
pub mod set_type;
pub mod uninstall;
