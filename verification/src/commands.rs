//! The decisions behind each command.
pub mod batch;
pub mod catalog;
pub mod info;
pub mod install;
pub mod list;
pub mod login;
pub mod uninstall;
pub mod upgrade;
pub mod verify;
