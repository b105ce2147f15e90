use vstd::prelude::*;

verus! {

/// Command-line options of the picker.
#[derive(Clone, Debug)]
pub struct Cli {
    /// Alternative path to a config file.
    pub config: String,
    /// Enable debug logs.
    pub debug: bool,
    /// Alternative path to store logs.
    pub logs: String,
    /// Start the toolkit inspector on launch.
    pub inspect: bool,
    /// Allow the restore token by default.
    pub allow_token_by_default: bool,
    /// Subcommand, if any.
    pub command: Option<Command>,
}

/// Subcommands of the picker.
#[derive(Clone, Copy, Debug, PartialEq, Eq, Structural)]
pub enum Command {
    /// Print the config schema.
    Schema,
}

} // verus!
