//! The driver of a TeX engine, as it stands behind a command line.
//!
//! A session takes a document through the TeX engine, BibTeX and xdvipdfmx: it
//! makes the format file if there is none, reruns TeX until the auxiliary files
//! have settled, saves the outputs, and writes Makefile rules. The driver runs
//! no engine and touches no file itself. It says what is to be done, one action
//! at a time (`protocol`), and goes by what it is told came of it (`session`).
//!
//! `course` holds the mathematical model of a session, which the contracts speak
//! of. The modules that end in `_laws` prove what holds of every session.
pub mod access_laws;
pub mod action_laws;
pub mod cli;
pub mod cli_laws;
pub mod course;
pub mod digest;
pub mod ending_laws;
pub mod events;
pub mod io_setup;
pub mod makefile;
pub mod makefile_laws;
pub mod message;
pub mod order_laws;
pub mod output;
pub mod output_laws;
pub mod outside;
pub mod pass_laws;
pub mod protocol;
pub mod rerun_laws;
pub mod saving_laws;
pub mod session;
pub mod session_laws;
pub mod settings;
pub mod text;
pub mod text_laws;
pub mod view_laws;

pub use crate::io_setup::{CliIoBuilder, CliIoSetup};
pub use crate::session::ProcessingSession;
pub use crate::settings::{OutputFormat, PassSetting, ProcessingSessionBuilder};
