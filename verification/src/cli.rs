//! The command line: `ctf` starts the TUI, `ctf <category> <name>` creates a
//! challenge folder.
use vstd::prelude::*;

verus! {

/// Arguments of direct challenge creation.
#[derive(Debug)]
pub struct ChallengeArgs {
    pub category: String,
    pub challenge: String,
}

/// What a command line asks for.
#[derive(Debug, PartialEq, Eq, Structural)]
pub enum Invocation {
    /// No arguments: run the TUI.
    Tui,
    /// `<category> <name>`: create a challenge folder.
    CreateChallenge,
    /// Anything else: print the usage and fail.
    Usage,
}

/// What a command line of `arg_count` words (the program name included)
/// asks for.
pub fn invocation(arg_count: usize) -> (r: Invocation)
    ensures
        arg_count == 1 ==> r == Invocation::Tui,
        arg_count == 3 ==> r == Invocation::CreateChallenge,
        arg_count != 1 && arg_count != 3 ==> r == Invocation::Usage,
{
    if arg_count == 3 {
        Invocation::CreateChallenge
    } else if arg_count == 1 {
        Invocation::Tui
    } else {
        Invocation::Usage
    }
}

} // verus!
