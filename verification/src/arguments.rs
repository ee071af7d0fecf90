//! The immutable configuration the engine receives at construction.

use vstd::prelude::*;

verus! {

/// How a run was configured: the flags the engine consults while it
/// executes. The host builds one of these from the command line.
pub struct Arguments {
    /// Run headless, with no interactive display.
    pub quiet: bool,
    /// Start interpretation paused.
    pub paused: bool,
    /// Step this many ticks before the interactive display starts.
    pub jump: Option<u32>,
    /// Print the stacks after the program ends.
    pub print_stack: bool,
    /// Stop interpreting after this many ticks.
    pub max_ticks: Option<u32>,
    /// Start on the first line that does not begin with `#`.
    pub script: bool,
    /// The program file's path.
    pub file: String,
    /// Let out-of-bounds writes grow the grid.
    pub expand: bool,
    /// Skip unknown instructions instead of reversing.
    pub ignore_invalid: bool,
}

impl Arguments {
    /// A plain headless configuration for a program file.
    pub fn new(file: String) -> (r: Arguments)
        ensures
            r.quiet,
            !r.paused,
            r.jump is None,
            !r.print_stack,
            r.max_ticks is None,
            !r.script,
            r.file == file,
            r.expand,
            !r.ignore_invalid,
    {
        Arguments {
            quiet: true,
            paused: false,
            jump: None,
            print_stack: false,
            max_ticks: None,
            script: false,
            file,
            expand: true,
            ignore_invalid: false,
        }
    }
}

} // verus!
