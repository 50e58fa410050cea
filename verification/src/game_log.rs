//! The message log: an ordered sequence of entries, newest first.
//!
//! The core only inserts entries at the front; rendering them as text is the
//! host's concern, so an entry records the event and the display name it
//! mentions rather than a formatted string.

use vstd::prelude::*;

verus! {

/// One log line, newest-first in `GameLog::entries`.
#[derive(PartialEq, Eq, Debug)]
pub enum LogEntry {
    /// A named entity died and was removed.
    Dead { name: String },
    /// The player's hit points fell below one; the player stays in the world.
    PlayerDead,
    /// The player picked an item up.
    PickedUp { name: String },
    /// The player dropped an item.
    Dropped { name: String },
    /// The player drank a potion and it was destroyed.
    Drank { name: String, heal_amount: i32 },
    /// The player asked to pick up, but no item lies at the player's cell.
    NothingHere,
}

/// The append-at-front message log.
#[derive(Debug)]
pub struct GameLog {
    pub entries: Vec<LogEntry>,
}

} // verus!
