//! A lightweight process supervisor: the decision logic of a daemon that
//! starts, tracks and controls long-running child programs.
//!
//! The crate decides and keeps the books; it neither spawns processes nor
//! reads sockets. The event loops that do so live outside it and drive the
//! state machines defined here:
//!
//! - [`servers::command`] holds the supervisor, the single authority over
//!   the registry of running servers, and [`servers::lifecycle`] states what
//!   holds of the children in every state that the system can reach;
//! - [`servers::processes`] turns a command line into a program to launch
//!   and pumps the output of a child into its log;
//! - [`util::log_cache`] is the bounded log of recent output;
//! - [`cli`] decodes the request lines of the control socket and writes the
//!   replies.

pub mod cli;
pub mod config;
pub mod servers;
pub mod util;
