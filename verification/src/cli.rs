//! What the user can ask for: the commands of the interactive prompt and the
//! criteria of the `filter` command.

use vstd::prelude::*;

verus! {

/// Coarse location of a server.
#[derive(Debug, Clone, Copy, PartialEq, Eq, Structural)]
pub enum Region {
    NA,
    EU,
    Apac,
}

/// The criteria of one favorites build.
#[derive(Debug, Clone, PartialEq, Eq)]
pub struct Filters {
    /// Most entries the favorites list may get.
    pub limit: Option<usize>,
    /// Fewest players a server must have.
    pub player_min: Option<u8>,
    /// Largest team a server may allow; a server holds two teams.
    pub team_size_max: Option<u8>,
    /// Keep a server only if its name holds one of these words.
    pub includes: Option<Vec<String>>,
    /// Drop a server if its name holds one of these words.
    pub excludes: Option<Vec<String>>,
    /// Keep a server only if it stands in this region.
    pub region: Option<Region>,
}

impl Default for Filters {
    fn default() -> (filters: Filters)
        ensures
            filters.limit is None,
            filters.player_min is None,
            filters.team_size_max is None,
            filters.includes is None,
            filters.excludes is None,
            filters.region is None,
    {
        Filters {
            limit: None,
            player_min: None,
            team_size_max: None,
            includes: None,
            excludes: None,
            region: None,
        }
    }
}

/// One line of the interactive prompt, parsed.
#[derive(Debug, Clone, PartialEq, Eq)]
pub enum Command {
    /// Build the favorites list.
    Filter { args: Option<Filters> },
    /// Connect to the last server again.
    Reconnect,
    /// Start the game behind a pseudo-terminal.
    Launch,
    /// Resolve every host anew and replace the region cache.
    UpdateCache,
    /// Show what the game's console has printed.
    DisplayLogs,
    /// Open the game's directory.
    GameDir,
    /// Open the directory that holds the cache and the log.
    LocalEnv,
    /// Leave.
    Quit,
}

} // verus!
