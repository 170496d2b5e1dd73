use vstd::prelude::*;

verus! {

/// The parsed command line: one subcommand.
pub struct Cli {
    pub command: Command,
}

/// The subcommands.
pub enum Command {
    /// Query a word, from the cache or from the network.
    Query(QueryArgs),
    /// Edit the configuration file.
    Edit(EditArgs),
    /// Clean the cache.
    Clean,
}

/// Arguments of the query subcommand.
pub struct QueryArgs {
    /// The word to be queried.
    pub query: String,
    /// Whether to speak aloud.
    pub speak: Option<Toggle>,
    /// Whether to be concise.
    pub concise: Option<Toggle>,
}

/// Arguments of the edit subcommand.
pub struct EditArgs {
    /// Start again from the default configuration.
    pub reset: bool,
}

/// A three-way switch applied to a configured flag.
#[derive(Clone, Copy, Debug, PartialEq, Eq, Structural)]
pub enum Toggle {
    /// Yes
    Y,
    /// No
    N,
    /// Flip
    T,
}

impl Toggle {
    /// The flag after applying this toggle to `b`.
    pub open spec fn twitched(self, b: bool) -> bool {
        match self {
            Toggle::Y => true,
            Toggle::N => false,
            Toggle::T => !b,
        }
    }

    /// The flag after applying the inverse of this toggle to `b`.
    pub open spec fn counter_twitched(self, b: bool) -> bool {
        match self {
            Toggle::Y => false,
            Toggle::N => true,
            Toggle::T => !b,
        }
    }

    /// `Y` sets the flag, `N` clears it, `T` flips it.
    pub fn twitch(&self, b: &mut bool)
        ensures
            *final(b) == self.twitched(*old(b)),
    {
        match self {
            Toggle::Y => *b = true,
            Toggle::N => *b = false,
            Toggle::T => *b = !*b,
        }
    }

    /// `Y` clears the flag, `N` sets it, `T` flips it.
    pub fn counter_twitch(&self, b: &mut bool)
        ensures
            *final(b) == self.counter_twitched(*old(b)),
    {
        match self {
            Toggle::Y => *b = false,
            Toggle::N => *b = true,
            Toggle::T => *b = !*b,
        }
    }
}

} // verus!
