//! The command-line options the server starts with, as plain values; the
//! argument parser that fills them lives outside the library.

use vstd::prelude::*;

verus! {

/// Parsed command-line options.
pub struct Args {
    /// Configuration file path.
    pub config: String,
    /// Server host to bind to, overriding the configuration file.
    pub host: Option<String>,
    /// Server port to bind to, overriding the configuration file.
    pub port: Option<u16>,
    /// Log level (trace, debug, info, warn, error).
    pub log_level: String,
}

} // verus!
