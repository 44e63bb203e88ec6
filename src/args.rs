use vstd::prelude::*;

verus! {

/// The command line: an optional configuration file, an optional task file name, a command.
pub struct Args {
    pub cfg_file: Option<String>,
    pub taskfile: Option<String>,
    pub command: Command,
}

/// The commands of the program.
pub enum Command {
    Ls(crate::ls::Args),
}

} // verus!
