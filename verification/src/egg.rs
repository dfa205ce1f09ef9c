//! Eggs: the slots from which the players of a team are born.
use crate::protocol::{HasId, Id};
use crate::vec2::{HasPosition, UPosition};
use vstd::prelude::*;

verus! {

/// An egg of a team, lying on a cell.
#[derive(Clone, Copy, Debug, PartialEq, Eq, Structural)]
pub struct Egg {
    pub id: Id,
    pub team_id: Id,
    pub pos: UPosition,
}

impl Egg {
    /// An egg of team `team_id` on the cell `pos`.
    pub fn new(id: Id, team_id: Id, pos: UPosition) -> (egg: Self)
        ensures
            egg == (Egg { id, team_id, pos }),
    {
        Egg { id, team_id, pos }
    }

    /// The team that the egg belongs to.
    pub fn team_id(&self) -> (team: Id)
        ensures
            team == self.team_id,
    {
        self.team_id
    }
}

impl HasId for Egg {
    open spec fn spec_id(&self) -> Id {
        self.id
    }

    fn id(&self) -> (id: Id) {
        self.id
    }
}

impl HasPosition for Egg {
    open spec fn spec_position(&self) -> UPosition {
        self.pos
    }

    fn position(&self) -> (pos: UPosition) {
        self.pos
    }

    fn position_mut(&mut self) -> (pos: &mut UPosition)
        ensures
            final(self).id == old(self).id,
            final(self).team_id == old(self).team_id,
    {
        &mut self.pos
    }
}

} // verus!
