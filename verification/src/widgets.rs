//! Content of the caster's panel that is more than drawing.
use vstd::prelude::*;

verus! {

/// A list of player names, drawn one per line with separators between.
pub struct PlayerList<'v> {
    players: &'v Vec<String>,
}

impl<'v> PlayerList<'v> {
    /// The names the list shows.
    pub closed spec fn names(&self) -> Seq<String> {
        self.players@
    }

    /// A list of these names.
    pub fn list(players: &'v Vec<String>) -> (l: Self)
        ensures
            l.names() == players@,
    {
        Self { players }
    }

    /// The names the list shows, in order.
    pub fn players(&self) -> (p: &'v Vec<String>)
        ensures
            p@ == self.names(),
    {
        self.players
    }
}

} // verus!
