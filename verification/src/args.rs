//! The command-line surface: either run the service, or run one maintenance
//! command. Parsing the actual arguments is the binary's concern; these are
//! the values it hands over.

use vstd::prelude::*;

verus! {

/// The parsed command line.
pub struct Cli {
    /// The subcommand, if one was given; the service runs otherwise.
    pub command: Option<Commands>,
}

/// The maintenance subcommands.
#[derive(Clone, Copy, Debug, PartialEq, Eq, Structural)]
pub enum Commands {
    /// Delete all the files in file storage.
    Clear,
}

} // verus!
