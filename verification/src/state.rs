//! The server's state: the repository that commands act on.

use vstd::prelude::*;
use vstd::string::*;

verus! {

/// The path that a server starts with.
pub const DEFAULT_REPO: &'static str = "/";

/// What the server remembers between requests.
///
/// `repo` is the directory that a pull runs in. Any text is a valid path:
/// nothing checks that the directory exists.
#[derive(Debug, PartialEq, Eq)]
pub struct State {
    pub repo: String,
}

impl State {
    /// The state of a server that has handled no request yet.
    pub fn new() -> (state: State)
        ensures
            state.repo@ == DEFAULT_REPO@,
    {
        State { repo: String::from_str(DEFAULT_REPO) }
    }
}

} // verus!
