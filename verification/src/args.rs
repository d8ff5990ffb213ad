use vstd::prelude::*;

verus! {

/// The port that is served on where none is given.
pub const DEFAULT_PORT: u32 = 3000;

/// What the program is started with.
#[derive(Debug)]
pub struct ProgramArgs {
    /// Port to serve on
    pub port: u32,
}

impl Default for ProgramArgs {
    fn default() -> (args: ProgramArgs)
        ensures
            args.port == DEFAULT_PORT,
    {
        ProgramArgs { port: DEFAULT_PORT }
    }
}

} // verus!
