//! Decision logic of a Windows media-capture module: which processes are
//! recording from a microphone, what a microphone listener reports, and how the
//! running-application list and its watchers evolve.
//!
//! The Windows audio and process APIs are queried elsewhere; their answers
//! reach this crate as plain probe values, and every decision taken on them is
//! verified here.

pub mod apps;
pub mod audio;
pub mod listener;
pub mod report;
pub mod text;
pub mod watch;
