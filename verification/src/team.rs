//! Teams.
use crate::protocol::{HasId, Id};
use vstd::prelude::*;

verus! {

/// A team: its handle and its name as the clients spell it.
pub struct Team {
    pub id: Id,
    pub name: Vec<u8>,
}

impl Team {
    /// The team `name` under the handle `id`.
    pub fn new(id: Id, name: Vec<u8>) -> (team: Self)
        ensures
            team.id == id,
            team.name == name,
    {
        Team { id, name }
    }

    /// The name of the team.
    pub fn name(&self) -> (name: &[u8])
        ensures
            name@ == self.name@,
    {
        self.name.as_slice()
    }
}

impl HasId for Team {
    open spec fn spec_id(&self) -> Id {
        self.id
    }

    fn id(&self) -> (id: Id) {
        self.id
    }
}

} // verus!
