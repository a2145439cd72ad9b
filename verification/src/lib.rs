//! Argument extraction for a command line of the form
//! `DESCRIPTION START - END [--project NAME] [--tags TAG...]`.

pub mod error;
pub mod interval;
pub mod options;
pub mod parse;
pub mod parsed;
pub mod search;
pub mod text;
