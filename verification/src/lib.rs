//! A supervisor core for a fixed set of helper processes.
//!
//! The crate holds the decisions of the supervisor and none of its effects:
//! which processes to launch and with which argument vector, which process
//! group to interrupt, which captured line belongs in which log, and where
//! the operator's selection cursor stands. A host program performs the
//! effects it is handed and reports back what happened.

pub mod configuration;
pub mod command;
pub mod commands;
pub mod selection;
