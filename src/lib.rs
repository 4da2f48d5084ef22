//! Bundles files into one annotated text payload: command-line parsing,
//! expansion of file, directory and pattern arguments, and payload assembly.

pub mod args;
pub mod expand;
pub mod payload;
pub mod text;
