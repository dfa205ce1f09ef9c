//! Resource kinds, resource bags, elevation levels and what each elevation costs.
use core::ops::Index;
use vstd::prelude::*;

verus! {

/// The seven kinds of resource that lie on the grid.
#[derive(Debug, PartialEq, Eq, Structural, Clone, Copy)]
pub enum Resource {
    Deraumere,
    Linemate,
    Mendiane,
    Phiras,
    Sibur,
    Thystame,
    Food,
}

/// Every resource kind, in storage order.
pub open spec fn all_resources() -> Seq<Resource> {
    seq![
        Resource::Deraumere,
        Resource::Linemate,
        Resource::Mendiane,
        Resource::Phiras,
        Resource::Sibur,
        Resource::Thystame,
        Resource::Food,
    ]
}

impl Resource {
    /// Every resource kind once, in storage order.
    pub fn iter() -> (kinds: Vec<Resource>)
        ensures
            kinds@ == all_resources(),
    {
        let mut kinds: Vec<Resource> = Vec::new();
        kinds.push(Resource::Deraumere);
        kinds.push(Resource::Linemate);
        kinds.push(Resource::Mendiane);
        kinds.push(Resource::Phiras);
        kinds.push(Resource::Sibur);
        kinds.push(Resource::Thystame);
        kinds.push(Resource::Food);
        assert(kinds@ =~= all_resources());
        kinds
    }
}

/// The elevation of a player. Players start at `Level1`; `Level8` is terminal.
#[derive(Debug, Clone, Copy, PartialEq, Eq, Hash, Structural)]
pub enum ElevationLevel {
    Level0,
    Level1,
    Level2,
    Level3,
    Level4,
    Level5,
    Level6,
    Level7,
    Level8,
}

impl Default for ElevationLevel {
    fn default() -> (level: Self)
        ensures
            level == ElevationLevel::Level1,
    {
        ElevationLevel::Level1
    }
}

impl ElevationLevel {
    /// The level as a number from 0 to 8.
    pub open spec fn spec_number(self) -> int {
        match self {
            ElevationLevel::Level0 => 0,
            ElevationLevel::Level1 => 1,
            ElevationLevel::Level2 => 2,
            ElevationLevel::Level3 => 3,
            ElevationLevel::Level4 => 4,
            ElevationLevel::Level5 => 5,
            ElevationLevel::Level6 => 6,
            ElevationLevel::Level7 => 7,
            ElevationLevel::Level8 => 8,
        }
    }

    /// The level as a number from 0 to 8.
    pub fn number(self) -> (n: u8)
        ensures
            n == self.spec_number(),
    {
        match self {
            ElevationLevel::Level0 => 0,
            ElevationLevel::Level1 => 1,
            ElevationLevel::Level2 => 2,
            ElevationLevel::Level3 => 3,
            ElevationLevel::Level4 => 4,
            ElevationLevel::Level5 => 5,
            ElevationLevel::Level6 => 6,
            ElevationLevel::Level7 => 7,
            ElevationLevel::Level8 => 8,
        }
    }

    /// The next level; `Level8` stays where it is.
    pub open spec fn spec_upgrade(self) -> ElevationLevel {
        match self {
            ElevationLevel::Level0 => ElevationLevel::Level1,
            ElevationLevel::Level1 => ElevationLevel::Level2,
            ElevationLevel::Level2 => ElevationLevel::Level3,
            ElevationLevel::Level3 => ElevationLevel::Level4,
            ElevationLevel::Level4 => ElevationLevel::Level5,
            ElevationLevel::Level5 => ElevationLevel::Level6,
            ElevationLevel::Level6 => ElevationLevel::Level7,
            ElevationLevel::Level7 => ElevationLevel::Level8,
            ElevationLevel::Level8 => ElevationLevel::Level8,
        }
    }

    /// The next level; `Level8` stays where it is.
    pub fn upgrade(self) -> (next: ElevationLevel)
        ensures
            next == self.spec_upgrade(),
            next.spec_number() == if self.spec_number() < 8 {
                self.spec_number() + 1
            } else {
                8
            },
    {
        match self {
            ElevationLevel::Level0 => ElevationLevel::Level1,
            ElevationLevel::Level1 => ElevationLevel::Level2,
            ElevationLevel::Level2 => ElevationLevel::Level3,
            ElevationLevel::Level3 => ElevationLevel::Level4,
            ElevationLevel::Level4 => ElevationLevel::Level5,
            ElevationLevel::Level5 => ElevationLevel::Level6,
            ElevationLevel::Level6 => ElevationLevel::Level7,
            ElevationLevel::Level7 => ElevationLevel::Level8,
            ElevationLevel::Level8 => ElevationLevel::Level8,
        }
    }
}

/// A bag with one counter for each resource kind.
#[derive(Clone, Copy, PartialEq, Eq, Debug, Structural)]
pub struct Resources {
    pub deraumere: u64,
    pub linemate: u64,
    pub mendiane: u64,
    pub phiras: u64,
    pub sibur: u64,
    pub thystame: u64,
    pub food: u64,
}

impl Default for Resources {
    fn default() -> (bag: Self)
        ensures
            bag == Resources::empty(),
    {
        Resources {
            deraumere: 0,
            linemate: 0,
            mendiane: 0,
            phiras: 0,
            sibur: 0,
            thystame: 0,
            food: 0,
        }
    }
}

impl Resources {
    /// The bag that holds nothing.
    pub open spec fn empty() -> Resources {
        Resources {
            deraumere: 0,
            linemate: 0,
            mendiane: 0,
            phiras: 0,
            sibur: 0,
            thystame: 0,
            food: 0,
        }
    }

    /// The counter of one kind.
    pub open spec fn count(self, resource: Resource) -> u64 {
        match resource {
            Resource::Deraumere => self.deraumere,
            Resource::Linemate => self.linemate,
            Resource::Mendiane => self.mendiane,
            Resource::Phiras => self.phiras,
            Resource::Sibur => self.sibur,
            Resource::Thystame => self.thystame,
            Resource::Food => self.food,
        }
    }

    /// The bag with the counter of one kind replaced.
    pub open spec fn with(self, resource: Resource, amount: u64) -> Resources {
        match resource {
            Resource::Deraumere => Resources { deraumere: amount, ..self },
            Resource::Linemate => Resources { linemate: amount, ..self },
            Resource::Mendiane => Resources { mendiane: amount, ..self },
            Resource::Phiras => Resources { phiras: amount, ..self },
            Resource::Sibur => Resources { sibur: amount, ..self },
            Resource::Thystame => Resources { thystame: amount, ..self },
            Resource::Food => Resources { food: amount, ..self },
        }
    }

    /// Whether every counter is at least the matching counter of `required`.
    pub open spec fn covers(self, required: Resources) -> bool {
        forall|resource: Resource| self.count(resource) >= required.count(resource)
    }

    /// Whether no counter of `self` minus `taken` would fall below zero, and the result.
    pub open spec fn minus(self, taken: Resources) -> Resources
        recommends
            self.covers(taken),
    {
        Resources {
            deraumere: (self.deraumere - taken.deraumere) as u64,
            linemate: (self.linemate - taken.linemate) as u64,
            mendiane: (self.mendiane - taken.mendiane) as u64,
            phiras: (self.phiras - taken.phiras) as u64,
            sibur: (self.sibur - taken.sibur) as u64,
            thystame: (self.thystame - taken.thystame) as u64,
            food: (self.food - taken.food) as u64,
        }
    }

    /// The empty bag.
    pub fn new() -> (bag: Self)
        ensures
            bag == Resources::empty(),
    {
        Resources {
            deraumere: 0,
            linemate: 0,
            mendiane: 0,
            phiras: 0,
            sibur: 0,
            thystame: 0,
            food: 0,
        }
    }

    /// A builder that starts from the empty bag.
    pub fn builder() -> (builder: ResourcesBuilder)
        ensures
            builder.resources == Resources::empty(),
    {
        ResourcesBuilder::new()
    }

    /// The counter of one kind.
    pub fn get(&self, resource: Resource) -> (amount: u64)
        ensures
            amount == self.count(resource),
    {
        match resource {
            Resource::Deraumere => self.deraumere,
            Resource::Linemate => self.linemate,
            Resource::Mendiane => self.mendiane,
            Resource::Phiras => self.phiras,
            Resource::Sibur => self.sibur,
            Resource::Thystame => self.thystame,
            Resource::Food => self.food,
        }
    }

    /// Replaces the counter of one kind and leaves the others as they are.
    pub fn set(&mut self, resource: Resource, amount: u64)
        ensures
            *final(self) == old(self).with(resource, amount),
    {
        match resource {
            Resource::Deraumere => self.deraumere = amount,
            Resource::Linemate => self.linemate = amount,
            Resource::Mendiane => self.mendiane = amount,
            Resource::Phiras => self.phiras = amount,
            Resource::Sibur => self.sibur = amount,
            Resource::Thystame => self.thystame = amount,
            Resource::Food => self.food = amount,
        }
    }

    /// Whether the bag holds at least as much of every kind as `required`.
    pub fn has_at_least(&self, required: &Resources) -> (enough: bool)
        ensures
            enough == self.covers(*required),
    {
        let enough = self.deraumere >= required.deraumere && self.linemate >= required.linemate
            && self.mendiane >= required.mendiane && self.phiras >= required.phiras && self.sibur
            >= required.sibur && self.thystame >= required.thystame && self.food >= required.food;
        proof {
            if enough {
                assert forall|resource: Resource|
                    self.count(resource) >= required.count(resource) by {}
            } else {
                assert(!(self.count(Resource::Deraumere) >= required.count(Resource::Deraumere))
                    || !(self.count(Resource::Linemate) >= required.count(Resource::Linemate))
                    || !(self.count(Resource::Mendiane) >= required.count(Resource::Mendiane))
                    || !(self.count(Resource::Phiras) >= required.count(Resource::Phiras))
                    || !(self.count(Resource::Sibur) >= required.count(Resource::Sibur))
                    || !(self.count(Resource::Thystame) >= required.count(Resource::Thystame))
                    || !(self.count(Resource::Food) >= required.count(Resource::Food)));
            }
        }
        enough
    }
}

impl Index<Resource> for Resources {
    type Output = u64;

    fn index(&self, resource: Resource) -> (amount: &u64)
        ensures
            *amount == self.count(resource),
    {
        match resource {
            Resource::Deraumere => &self.deraumere,
            Resource::Linemate => &self.linemate,
            Resource::Mendiane => &self.mendiane,
            Resource::Phiras => &self.phiras,
            Resource::Sibur => &self.sibur,
            Resource::Thystame => &self.thystame,
            Resource::Food => &self.food,
        }
    }
}

impl vstd::std_specs::core::IndexSpecImpl<Resource> for Resources {
    open spec fn index_req(&self, index: &Resource) -> bool {
        true
    }
}

/// Builds a bag counter by counter.
pub struct ResourcesBuilder {
    pub resources: Resources,
}

impl ResourcesBuilder {
    /// A builder that starts from the empty bag.
    pub fn new() -> (builder: Self)
        ensures
            builder.resources == Resources::empty(),
    {
        ResourcesBuilder { resources: Resources::new() }
    }

    /// Sets the deraumere counter.
    pub fn deraumere(self, amount: u64) -> (builder: Self)
        ensures
            builder.resources == self.resources.with(Resource::Deraumere, amount),
    {
        let mut builder = self;
        builder.resources.deraumere = amount;
        builder
    }

    /// Sets the linemate counter.
    pub fn linemate(self, amount: u64) -> (builder: Self)
        ensures
            builder.resources == self.resources.with(Resource::Linemate, amount),
    {
        let mut builder = self;
        builder.resources.linemate = amount;
        builder
    }

    /// Sets the mendiane counter.
    pub fn mendiane(self, amount: u64) -> (builder: Self)
        ensures
            builder.resources == self.resources.with(Resource::Mendiane, amount),
    {
        let mut builder = self;
        builder.resources.mendiane = amount;
        builder
    }

    /// Sets the phiras counter.
    pub fn phiras(self, amount: u64) -> (builder: Self)
        ensures
            builder.resources == self.resources.with(Resource::Phiras, amount),
    {
        let mut builder = self;
        builder.resources.phiras = amount;
        builder
    }

    /// Sets the sibur counter.
    pub fn sibur(self, amount: u64) -> (builder: Self)
        ensures
            builder.resources == self.resources.with(Resource::Sibur, amount),
    {
        let mut builder = self;
        builder.resources.sibur = amount;
        builder
    }

    /// Sets the thystame counter.
    pub fn thystame(self, amount: u64) -> (builder: Self)
        ensures
            builder.resources == self.resources.with(Resource::Thystame, amount),
    {
        let mut builder = self;
        builder.resources.thystame = amount;
        builder
    }

    /// Sets the food counter.
    pub fn food(self, amount: u64) -> (builder: Self)
        ensures
            builder.resources == self.resources.with(Resource::Food, amount),
    {
        let mut builder = self;
        builder.resources.food = amount;
        builder
    }

    /// Sets the counter of the given kind.
    pub fn resource(self, resource: Resource, amount: u64) -> (builder: Self)
        ensures
            builder.resources == self.resources.with(resource, amount),
    {
        let mut builder = self;
        builder.resources.set(resource, amount);
        builder
    }

    /// The bag built so far.
    pub fn build(self) -> (bag: Resources)
        ensures
            bag == self.resources,
    {
        self.resources
    }
}

/// What an incantation at some level needs: players on the tile and stones on it.
#[derive(Debug, Clone, Copy, PartialEq, Eq, Structural)]
pub struct LevelRequirement {
    pub players_needed: usize,
    pub resources: Resources,
}

impl LevelRequirement {
    /// The stones that must lie on the tile.
    pub fn needed_resources(&self) -> (needed: &Resources)
        ensures
            *needed == self.resources,
    {
        &self.resources
    }

    /// The number of players that must stand on the tile.
    pub fn needed_players(&self) -> (needed: usize)
        ensures
            needed == self.players_needed,
    {
        self.players_needed
    }
}

/// The stones of one row of the elevation table.
pub open spec fn stones(
    linemate: u64,
    deraumere: u64,
    sibur: u64,
    mendiane: u64,
    phiras: u64,
    thystame: u64,
) -> Resources {
    Resources { deraumere, linemate, mendiane, phiras, sibur, thystame, food: 0 }
}

/// The elevation table: what leaving each of the levels 1 to 7 needs. Levels 0 and 8
/// have no row.
pub open spec fn spec_level_requirement(level: ElevationLevel) -> Option<LevelRequirement> {
    match level {
        ElevationLevel::Level1 => Some(
            LevelRequirement { players_needed: 1, resources: stones(1, 0, 0, 0, 0, 0) },
        ),
        ElevationLevel::Level2 => Some(
            LevelRequirement { players_needed: 2, resources: stones(1, 1, 1, 0, 0, 0) },
        ),
        ElevationLevel::Level3 => Some(
            LevelRequirement { players_needed: 2, resources: stones(2, 0, 1, 0, 2, 0) },
        ),
        ElevationLevel::Level4 => Some(
            LevelRequirement { players_needed: 4, resources: stones(1, 1, 2, 0, 1, 0) },
        ),
        ElevationLevel::Level5 => Some(
            LevelRequirement { players_needed: 4, resources: stones(1, 2, 1, 3, 0, 0) },
        ),
        ElevationLevel::Level6 => Some(
            LevelRequirement { players_needed: 6, resources: stones(1, 2, 3, 0, 1, 0) },
        ),
        ElevationLevel::Level7 => Some(
            LevelRequirement { players_needed: 6, resources: stones(2, 2, 2, 2, 2, 1) },
        ),
        _ => None,
    }
}

/// Looks a level up in the elevation table.
pub fn level_requirement(level: ElevationLevel) -> (row: Option<LevelRequirement>)
    ensures
        row == spec_level_requirement(level),
{
    let builder = Resources::builder();
    match level {
        ElevationLevel::Level1 => Some(
            LevelRequirement { players_needed: 1, resources: builder.linemate(1).build() },
        ),
        ElevationLevel::Level2 => Some(
            LevelRequirement {
                players_needed: 2,
                resources: builder.linemate(1).deraumere(1).sibur(1).build(),
            },
        ),
        ElevationLevel::Level3 => Some(
            LevelRequirement {
                players_needed: 2,
                resources: builder.linemate(2).sibur(1).phiras(2).build(),
            },
        ),
        ElevationLevel::Level4 => Some(
            LevelRequirement {
                players_needed: 4,
                resources: builder.linemate(1).deraumere(1).sibur(2).phiras(1).build(),
            },
        ),
        ElevationLevel::Level5 => Some(
            LevelRequirement {
                players_needed: 4,
                resources: builder.linemate(1).deraumere(2).sibur(1).mendiane(3).build(),
            },
        ),
        ElevationLevel::Level6 => Some(
            LevelRequirement {
                players_needed: 6,
                resources: builder.linemate(1).deraumere(2).sibur(3).phiras(1).build(),
            },
        ),
        ElevationLevel::Level7 => Some(
            LevelRequirement {
                players_needed: 6,
                resources: builder.linemate(2).deraumere(2).sibur(2).mendiane(2).phiras(
                    2,
                ).thystame(1).build(),
            },
        ),
        _ => None,
    }
}

} // verus!
