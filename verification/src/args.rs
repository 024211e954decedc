//! The program's resolved arguments. Parsing and validating the command
//! line is I/O and stays with the caller; these are the plain values it
//! hands over.

use vstd::prelude::*;

verus! {

/// Which export sink the caller chose.
#[derive(Clone, Copy, PartialEq, Eq, Structural, Debug)]
pub enum ArgsOutputFormat {
    Json,
    Csv,
    Sqlite,
}

/// The resolved arguments: the directory to scan for archives, the
/// output path, and the chosen sink.
pub struct ArgParse {
    pub input_path: String,
    pub output_path: String,
    pub format: ArgsOutputFormat,
}

} // verus!
