//! The command-line prototype: the four-kind action runner, the offline
//! double-clap matcher and the window-layout tool's argument handling.
pub mod action;
pub mod capture;
pub mod layout;
pub mod matcher;
pub mod runner;
