//! One cell of the grid and the resources that lie on it.
use crate::resources::{Resource, Resources};
use vstd::prelude::*;

verus! {

/// A cell of the grid.
#[derive(Clone, Copy, Debug, PartialEq, Eq, Structural)]
pub struct Cell {
    pub resources: Resources,
}

impl Cell {
    /// A cell with nothing on it.
    pub fn new() -> (cell: Self)
        ensures
            cell.resources == Resources::empty(),
    {
        Cell { resources: Resources::new() }
    }

    /// What lies on the cell.
    pub fn ressources(&self) -> (bag: &Resources)
        ensures
            *bag == self.resources,
    {
        &self.resources
    }

    /// Puts `amount` units of `resource` on the cell.
    pub fn add_resource(&mut self, resource: Resource, amount: u64)
        requires
            old(self).resources.count(resource) + amount <= u64::MAX,
        ensures
            final(self).resources == old(self).resources.with(
                resource,
                (old(self).resources.count(resource) + amount) as u64,
            ),
    {
        let held = self.resources.get(resource);
        self.resources.set(resource, held + amount);
    }

    /// Takes `amount` units of `resource` from the cell if that many lie there;
    /// otherwise takes nothing and returns `None`.
    pub fn del_resource(&mut self, resource: Resource, amount: u64) -> (taken: Option<Resource>)
        ensures
            old(self).resources.count(resource) >= amount ==> taken == Some(resource)
                && final(self).resources == old(self).resources.with(
                resource,
                (old(self).resources.count(resource) - amount) as u64,
            ),
            old(self).resources.count(resource) < amount ==> taken.is_none() && *final(self)
                == *old(self),
    {
        let held = self.resources.get(resource);
        if held >= amount {
            self.resources.set(resource, held - amount);
            Some(resource)
        } else {
            None
        }
    }
}

} // verus!
