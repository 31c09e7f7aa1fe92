use vstd::prelude::*;

verus! {

/// The parsed command line: which command runs, and whether debug output
/// was asked for. Parsing itself happens in the surrounding program; the
/// library only carries the values.
#[derive(Debug, PartialEq, Eq)]
pub struct Args {
    pub command: Command,
    pub debug: bool,
}

/// One invocation of the tool.
#[derive(Debug, PartialEq, Eq)]
pub enum Command {
    /// Sync one input with another flake.
    Sync {
        src_flake: String,
        src_input_name: String,
        dst_flake: Option<String>,
        dst_input_name: Option<String>,
    },
    /// Sync several same-named inputs with another flake.
    BatchSync { src_flake: String, dst_flake: String, inputs: Vec<String> },
    /// Report the last-modified time of every input.
    LastModified,
    /// Report which inputs are behind their upstream branch or tag.
    Outdated,
}

} // verus!
