//! Players: where they stand, where they look, what they carry and how hungry they are.
use crate::constant::{REFILL_PER_FOOD, STARTING_FOOD};
use crate::protocol::{HasId, Id};
use crate::random::random_byte;
use crate::resources::{ElevationLevel, Resource, Resources};
use crate::vec2::{spec_wrap, wrap_add, HasPosition, Position, Size, UPosition, Vec2};
use vstd::prelude::*;

verus! {

/// The four headings.
#[derive(Clone, Copy, Debug, PartialEq, Eq, Structural)]
pub enum Direction {
    North,
    East,
    South,
    West,
}

impl Default for Direction {
    /// A heading drawn at random.
    fn default() -> Self {
        Direction::new()
    }
}

impl Direction {
    /// The heading that a draw stands for: the draw modulo four picks North, East,
    /// South, West in that order.
    pub open spec fn spec_from_draw(draw: u8) -> Direction {
        if draw % 4 == 0 {
            Direction::North
        } else if draw % 4 == 1 {
            Direction::East
        } else if draw % 4 == 2 {
            Direction::South
        } else {
            Direction::West
        }
    }

    /// The heading that a draw stands for.
    pub fn from_draw(draw: u8) -> (heading: Direction)
        ensures
            heading == Direction::spec_from_draw(draw),
    {
        let rest = draw % 4;
        if rest == 0 {
            Direction::North
        } else if rest == 1 {
            Direction::East
        } else if rest == 2 {
            Direction::South
        } else {
            Direction::West
        }
    }

    /// A heading drawn at random.
    pub fn new() -> (heading: Direction)
        ensures
            exists|draw: u8| heading == Direction::spec_from_draw(draw),
    {
        let draw = random_byte();
        Direction::from_draw(draw)
    }

    /// The heading a quarter turn to the right.
    pub open spec fn right(self) -> Direction {
        match self {
            Direction::North => Direction::East,
            Direction::East => Direction::South,
            Direction::South => Direction::West,
            Direction::West => Direction::North,
        }
    }

    /// The heading a quarter turn to the left.
    pub open spec fn left(self) -> Direction {
        match self {
            Direction::North => Direction::West,
            Direction::East => Direction::North,
            Direction::South => Direction::East,
            Direction::West => Direction::South,
        }
    }

    /// The step that one move forward makes on each axis.
    pub open spec fn unit(self) -> (int, int) {
        match self {
            Direction::North => (0, 1),
            Direction::East => (1, 0),
            Direction::South => (0, -1),
            Direction::West => (-1, 0),
        }
    }

    /// The number that observers read for the heading: 1 to 4 for North, East, South,
    /// West.
    pub open spec fn spec_number(self) -> int {
        match self {
            Direction::North => 1,
            Direction::East => 2,
            Direction::South => 3,
            Direction::West => 4,
        }
    }

    /// The number that observers read for the heading.
    pub fn number(self) -> (n: i8)
        ensures
            n == self.spec_number(),
    {
        match self {
            Direction::North => 1,
            Direction::East => 2,
            Direction::South => 3,
            Direction::West => 4,
        }
    }

    /// The step that one move forward makes on each axis.
    pub fn step(self) -> (step: (i64, i64))
        ensures
            step.0 == self.unit().0,
            step.1 == self.unit().1,
    {
        match self {
            Direction::North => (0, 1),
            Direction::East => (1, 0),
            Direction::South => (0, -1),
            Direction::West => (-1, 0),
        }
    }

    /// Turns a quarter turn to the right.
    pub fn rotate_right(&mut self)
        ensures
            *final(self) == old(self).right(),
    {
        *self = match *self {
            Direction::North => Direction::East,
            Direction::East => Direction::South,
            Direction::South => Direction::West,
            Direction::West => Direction::North,
        }
    }

    /// Turns a quarter turn to the left.
    pub fn rotate_left(&mut self)
        ensures
            *final(self) == old(self).left(),
    {
        *self = match *self {
            Direction::North => Direction::West,
            Direction::East => Direction::North,
            Direction::South => Direction::East,
            Direction::West => Direction::South,
        }
    }
}

/// Four quarter turns to the same side bring a heading back to where it was, and a
/// turn to one side undoes a turn to the other.
pub proof fn lemma_full_turn(heading: Direction)
    ensures
        heading.right().right().right().right() == heading,
        heading.left().left().left().left() == heading,
        heading.right().left() == heading,
        heading.left().right() == heading,
{
}

/// Where a push comes from, as the pushed player sees it.
#[derive(Clone, Copy, Debug, PartialEq, Eq, Structural)]
pub enum RelativeDirection {
    Back,
    Left,
    Front,
    Right,
}

impl RelativeDirection {
    /// The sector that the pushed player is told: 5 for the back, 3 for the left, 1
    /// for the front, 7 for the right.
    pub open spec fn spec_sector(self) -> int {
        match self {
            RelativeDirection::Back => 5,
            RelativeDirection::Left => 3,
            RelativeDirection::Front => 1,
            RelativeDirection::Right => 7,
        }
    }

    /// The sector that the pushed player is told.
    pub fn sector(self) -> (sector: u8)
        ensures
            sector == self.spec_sector(),
    {
        match self {
            RelativeDirection::Back => 5,
            RelativeDirection::Left => 3,
            RelativeDirection::Front => 1,
            RelativeDirection::Right => 7,
        }
    }

    /// The side from which a pusher with heading `pusher` pushes a player with heading
    /// `pushed`: the difference of the two heading numbers modulo four picks Back,
    /// Left, Front, Right in that order.
    pub open spec fn spec_of_push(pusher: Direction, pushed: Direction) -> RelativeDirection {
        let turn = (pusher.spec_number() - pushed.spec_number() + 4) % 4;
        if turn == 0 {
            RelativeDirection::Back
        } else if turn == 1 {
            RelativeDirection::Left
        } else if turn == 2 {
            RelativeDirection::Front
        } else {
            RelativeDirection::Right
        }
    }

    /// The side from which a pusher with heading `pusher` pushes a player with heading
    /// `pushed`.
    pub fn of_push(pusher: Direction, pushed: Direction) -> (side: RelativeDirection)
        ensures
            side == RelativeDirection::spec_of_push(pusher, pushed),
    {
        let turn: i8 = (pusher.number() - pushed.number() + 4) % 4;
        if turn == 0 {
            RelativeDirection::Back
        } else if turn == 1 {
            RelativeDirection::Left
        } else if turn == 2 {
            RelativeDirection::Front
        } else {
            RelativeDirection::Right
        }
    }
}

/// Whether a player is free or bound in an incantation.
#[derive(Copy, Clone, Debug, PartialEq, Eq, Structural)]
pub enum PlayerState {
    Idle,
    Incantating,
}

impl Default for PlayerState {
    fn default() -> (state: Self)
        ensures
            state == PlayerState::Idle,
    {
        PlayerState::Idle
    }
}

/// A player of a team.
#[derive(Clone, Copy, Debug, PartialEq, Eq, Structural)]
pub struct Player {
    pub team: Id,
    pub id: Id,
    pub inventory: Resources,
    pub pos: UPosition,
    pub direction: Direction,
    pub elevation: ElevationLevel,
    pub satiety: u64,
    pub state: PlayerState,
}

/// The cell one step from `pos` along `heading` on a torus of the given size.
pub open spec fn spec_forward(pos: UPosition, heading: Direction, size: Size) -> UPosition {
    Vec2 {
        x: spec_wrap(pos.x as int, heading.unit().0, size.x as int) as u64,
        y: spec_wrap(pos.y as int, heading.unit().1, size.y as int) as u64,
    }
}

/// The cell that lies `across` cells to the right and `ahead` cells in front of a
/// player at `pos` with the given heading. The grid is not wrapped here.
pub open spec fn spec_seen_cell(pos: UPosition, heading: Direction, across: int, ahead: int) -> (
    int,
    int,
) {
    match heading {
        Direction::North => (pos.x + across, pos.y + ahead),
        Direction::East => (pos.x + ahead, pos.y - across),
        Direction::South => (pos.x - across, pos.y - ahead),
        Direction::West => (pos.x - ahead, pos.y + across),
    }
}

/// The row of cells that a player sees `ahead` cells in front, from left to right:
/// `2 * ahead + 1` cells.
pub open spec fn spec_seen_row(pos: UPosition, heading: Direction, ahead: int) -> Seq<(int, int)> {
    Seq::new(
        (2 * ahead + 1) as nat,
        |i: int| spec_seen_cell(pos, heading, i - ahead, ahead),
    )
}

/// The cells that a player sees in the rows 1 to `rows`, nearest row first.
pub open spec fn spec_seen_rows(pos: UPosition, heading: Direction, rows: nat) -> Seq<(int, int)>
    decreases rows,
{
    if rows == 0 {
        Seq::empty()
    } else {
        spec_seen_rows(pos, heading, (rows - 1) as nat) + spec_seen_row(pos, heading, rows as int)
    }
}

/// The cells that a player sees: the cell it stands on, then one row for each level of
/// elevation.
pub open spec fn spec_visible(pos: UPosition, heading: Direction, level: ElevationLevel) -> Seq<
    (int, int),
> {
    seq![(pos.x as int, pos.y as int)] + spec_seen_rows(
        pos,
        heading,
        level.spec_number() as nat,
    )
}

/// The rows 1 to `rows` hold `(rows + 1)^2 - 1` cells.
pub proof fn lemma_seen_rows_len(pos: UPosition, heading: Direction, rows: nat)
    ensures
        spec_seen_rows(pos, heading, rows).len() == (rows + 1) * (rows + 1) - 1,
    decreases rows,
{
    if rows > 0 {
        lemma_seen_rows_len(pos, heading, (rows - 1) as nat);
        assert((rows + 1) * (rows + 1) - 1 == rows * rows - 1 + (2 * rows + 1)) by (nonlinear_arith);
    } else {
        assert((rows + 1) * (rows + 1) - 1 == 0) by (nonlinear_arith)
            requires
                rows == 0,
        ;
    }
}

/// A player at elevation `L` sees `(L + 1)^2` cells, and the first of them is the cell
/// it stands on.
pub proof fn lemma_visible_shape(pos: UPosition, heading: Direction, level: ElevationLevel)
    ensures
        spec_visible(pos, heading, level).len() == (level.spec_number() + 1) * (
        level.spec_number() + 1),
        spec_visible(pos, heading, level)[0] == (pos.x as int, pos.y as int),
{
    lemma_seen_rows_len(pos, heading, level.spec_number() as nat);
}

impl Player {
    /// The player after one tick's worth of hunger: the satiety falls by `reduction`
    /// and stops at zero; at zero one unit of food, if there is one, is eaten and
    /// brings the satiety to 126.
    pub open spec fn spec_after_hunger(self, reduction: u64) -> Player {
        let lowered = if self.satiety >= reduction {
            (self.satiety - reduction) as u64
        } else {
            0
        };
        if lowered == 0 && self.inventory.food > 0 {
            Player {
                satiety: REFILL_PER_FOOD,
                inventory: Resources { food: (self.inventory.food - 1) as u64, ..self.inventory },
                ..self
            }
        } else {
            Player { satiety: lowered, ..self }
        }
    }

    /// The player one step further along its heading.
    pub open spec fn spec_moved_forward(self, size: Size) -> Player {
        Player { pos: spec_forward(self.pos, self.direction, size), ..self }
    }

    /// The player moved by `(dx, dy)` on the torus.
    pub open spec fn spec_moved(self, dx: int, dy: int, size: Size) -> Player {
        Player {
            pos: Vec2 {
                x: spec_wrap(self.pos.x as int, dx, size.x as int) as u64,
                y: spec_wrap(self.pos.y as int, dy, size.y as int) as u64,
            },
            ..self
        }
    }

    /// A builder with the defaults of a new player.
    pub fn builder() -> (builder: PlayerBuilder)
        ensures
            builder.has_defaults(),
    {
        PlayerBuilder::new()
    }

    /// A new player of `team` under the handle `id`, with the defaults of a new
    /// player.
    pub fn new(team: Id, id: Id) -> (player: Player)
        ensures
            player.team == team,
            player.id == id,
            player.inventory == Resources::empty().with(Resource::Food, STARTING_FOOD),
            player.pos == (UPosition { x: 0, y: 0 }),
            player.elevation == ElevationLevel::Level1,
            player.satiety == REFILL_PER_FOOD,
            player.state == PlayerState::Idle,
    {
        let builder = PlayerBuilder::new().team(team).id(id);
        Player {
            team,
            id,
            inventory: builder.inventory,
            pos: builder.pos,
            direction: builder.direction,
            elevation: builder.elevation,
            satiety: builder.satiety,
            state: builder.state,
        }
    }

    /// Whether the player is bound in an incantation.
    pub fn is_incantating(&self) -> (bound: bool)
        ensures
            bound == (self.state == PlayerState::Incantating),
    {
        self.state == PlayerState::Incantating
    }

    /// The elevation of the player.
    pub fn level(&self) -> (level: ElevationLevel)
        ensures
            level == self.elevation,
    {
        self.elevation
    }

    /// A mutable handle on the elevation; nothing else changes through it.
    pub fn level_mut(&mut self) -> (level: &mut ElevationLevel)
        ensures
            *level == old(self).elevation,
            *final(self) == (Player { elevation: *final(level), ..*old(self) }),
    {
        &mut self.elevation
    }

    /// Whether the player is free or bound.
    pub fn state(&self) -> (state: PlayerState)
        ensures
            state == self.state,
    {
        self.state
    }

    /// A mutable handle on the state; nothing else changes through it.
    pub fn state_mut(&mut self) -> (state: &mut PlayerState)
        ensures
            *state == old(self).state,
            *final(self) == (Player { state: *final(state), ..*old(self) }),
    {
        &mut self.state
    }

    /// Lowers the satiety by `reduction`, eats if it reaches zero, and returns the new
    /// satiety. A result of zero means that the player has starved.
    pub fn reduce_satiety(&mut self, reduction: u64) -> (satiety: u64)
        ensures
            *final(self) == old(self).spec_after_hunger(reduction),
            satiety == final(self).satiety,
            satiety == 0 <==> old(self).satiety <= reduction && old(self).inventory.food == 0,
    {
        let lowered = self.satiety.saturating_sub(reduction);
        if lowered == 0 {
            if self.inventory.food > 0 {
                self.inventory.food = self.inventory.food - 1;
                self.satiety = REFILL_PER_FOOD;
            } else {
                self.satiety = lowered;
            }
        } else {
            self.satiety = lowered;
        }
        self.satiety
    }

    /// The team of the player.
    pub fn team_id(&self) -> (team: Id)
        ensures
            team == self.team,
    {
        self.team
    }

    /// What the player carries.
    pub fn inventory(&self) -> (bag: Resources)
        ensures
            bag == self.inventory,
    {
        self.inventory
    }

    /// The heading of the player.
    pub fn direction(&self) -> (heading: Direction)
        ensures
            heading == self.direction,
    {
        self.direction
    }

    /// A mutable handle on the heading; nothing else changes through it.
    pub fn direction_mut(&mut self) -> (heading: &mut Direction)
        ensures
            *heading == old(self).direction,
            *final(self) == (Player { direction: *final(heading), ..*old(self) }),
    {
        &mut self.direction
    }

    /// Moves the player one cell along its heading, wrapping at the edges.
    pub fn move_forward(&mut self, map_size: &Size) -> (moved: &mut Self)
        requires
            map_size.x > 0,
            map_size.y > 0,
        ensures
            *moved == old(self).spec_moved_forward(*map_size),
            *final(self) == *final(moved),
    {
        let step = self.direction.step();
        self.pos.x = wrap_add(self.pos.x, step.0, map_size.x);
        self.pos.y = wrap_add(self.pos.y, step.1, map_size.y);
        self
    }

    /// Puts `amount` units of `resource` into the inventory.
    pub fn add_resource(&mut self, resource: Resource, amount: u64) -> (changed: &mut Self)
        requires
            old(self).inventory.count(resource) + amount <= u64::MAX,
        ensures
            *changed == (Player {
                inventory: old(self).inventory.with(
                    resource,
                    (old(self).inventory.count(resource) + amount) as u64,
                ),
                ..*old(self)
            }),
            *final(self) == *final(changed),
    {
        let held = self.inventory.get(resource);
        self.inventory.set(resource, held + amount);
        self
    }

    /// Takes `amount` units of `resource` from the inventory if it holds that many;
    /// otherwise takes nothing and returns `None`.
    pub fn del_resource(&mut self, resource: Resource, amount: u64) -> (taken: Option<Resource>)
        ensures
            old(self).inventory.count(resource) >= amount ==> taken == Some(resource)
                && *final(self) == (Player {
                inventory: old(self).inventory.with(
                    resource,
                    (old(self).inventory.count(resource) - amount) as u64,
                ),
                ..*old(self)
            }),
            old(self).inventory.count(resource) < amount ==> taken.is_none() && *final(self)
                == *old(self),
    {
        let held = self.inventory.get(resource);
        if held >= amount {
            self.inventory.set(resource, held - amount);
            Some(resource)
        } else {
            None
        }
    }

    /// Moves the player by `(dx, dy)`, wrapping at the edges.
    pub fn move_player(&mut self, dx: i64, dy: i64, map_size: &Size) -> (moved: &mut Self)
        requires
            map_size.x > 0,
            map_size.y > 0,
        ensures
            *moved == old(self).spec_moved(dx as int, dy as int, *map_size),
            *final(self) == *final(moved),
    {
        self.pos.x = wrap_add(self.pos.x, dx, map_size.x);
        self.pos.y = wrap_add(self.pos.y, dy, map_size.y);
        self
    }

    /// The cells that the player sees, not yet wrapped onto the grid: its own cell
    /// first, then the rows in front of it, nearest first, each from left to right.
    pub fn get_visible_positions(&self) -> (seen: Vec<Position>)
        requires
            self.pos.x <= i64::MAX - 8,
            self.pos.y <= i64::MAX - 8,
        ensures
            seen@.len() == spec_visible(self.pos, self.direction, self.elevation).len(),
            forall|i: int|
                0 <= i < seen@.len() ==> (#[trigger] seen@[i].x as int, seen@[i].y as int)
                    == spec_visible(self.pos, self.direction, self.elevation)[i],
    {
        let mut seen: Vec<Position> = Vec::new();
        let px: i64 = self.pos.x as i64;
        let py: i64 = self.pos.y as i64;
        seen.push(Vec2 { x: px, y: py });
        let rows: i64 = self.elevation.number() as i64;
        let ghost pos = self.pos;
        let ghost heading = self.direction;
        let mut ahead: i64 = 1;
        while ahead <= rows
            invariant
                1 <= ahead <= rows + 1,
                rows <= 8,
                px == pos.x,
                py == pos.y,
                pos.x <= i64::MAX - 8,
                pos.y <= i64::MAX - 8,
                heading == self.direction,
                seen@.len() == 1 + spec_seen_rows(pos, heading, (ahead - 1) as nat).len(),
                seen@[0].x == pos.x && seen@[0].y == pos.y,
                forall|i: int|
                    1 <= i < seen@.len() ==> (#[trigger] seen@[i].x as int, seen@[i].y as int)
                        == spec_seen_rows(pos, heading, (ahead - 1) as nat)[i - 1],
            decreases rows + 1 - ahead,
        {
            let ghost before = seen@;
            let ghost done = spec_seen_rows(pos, heading, (ahead - 1) as nat);
            let mut across: i64 = -ahead;
            while across <= ahead
                invariant
                    1 <= ahead <= rows,
                    rows <= 8,
                    -ahead <= across <= ahead + 1,
                    px == pos.x,
                    py == pos.y,
                    pos.x <= i64::MAX - 8,
                    pos.y <= i64::MAX - 8,
                    heading == self.direction,
                    seen@.len() == before.len() + (across + ahead),
                    forall|i: int| 0 <= i < before.len() ==> seen@[i] == before[i],
                    forall|i: int|
                        0 <= i < across + ahead ==> (
                            #[trigger] seen@[before.len() + i].x as int,
                            seen@[before.len() + i].y as int,
                        ) == spec_seen_cell(pos, heading, i - ahead, ahead as int),
                decreases ahead + 1 - across,
            {
                let cell = match self.direction {
                    Direction::North => Vec2 { x: px + across, y: py + ahead },
                    Direction::East => Vec2 { x: px + ahead, y: py - across },
                    Direction::South => Vec2 { x: px - across, y: py - ahead },
                    Direction::West => Vec2 { x: px - ahead, y: py + across },
                };
                seen.push(cell);
                across += 1;
            }
            proof {
                let row = spec_seen_row(pos, heading, ahead as int);
                let next = spec_seen_rows(pos, heading, ahead as nat);
                assert(next == done + row);
                assert forall|i: int| 1 <= i < seen@.len() implies (
                    #[trigger] seen@[i].x as int,
                    seen@[i].y as int,
                ) == next[i - 1] by {
                    if i < before.len() {
                        assert(seen@[i] == before[i]);
                        assert(next[i - 1] == done[i - 1]);
                    } else {
                        let k = i - before.len();
                        assert(seen@[before.len() + k] == seen@[i]);
                        assert(next[i - 1] == row[k]);
                    }
                }
                assert(seen@[0] == before[0]);
            }
            ahead += 1;
        }
        proof {
            let all = spec_visible(pos, heading, self.elevation);
            assert(ahead - 1 == self.elevation.spec_number());
            assert forall|i: int| 0 <= i < seen@.len() implies (
                #[trigger] seen@[i].x as int,
                seen@[i].y as int,
            ) == all[i] by {
                if i > 0 {
                    assert(all[i] == spec_seen_rows(pos, heading, (ahead - 1) as nat)[i - 1]);
                }
            }
        }
        seen
    }
}

impl HasPosition for Player {
    open spec fn spec_position(&self) -> UPosition {
        self.pos
    }

    fn position(&self) -> (pos: UPosition) {
        self.pos
    }

    fn position_mut(&mut self) -> (pos: &mut UPosition)
        ensures
            *final(self) == (Player { pos: *final(pos), ..*old(self) }),
    {
        &mut self.pos
    }
}

impl HasId for Player {
    open spec fn spec_id(&self) -> Id {
        self.id
    }

    fn id(&self) -> (id: Id) {
        self.id
    }
}

/// Builds a player field by field.
pub struct PlayerBuilder {
    pub team: Option<Id>,
    pub id: Option<Id>,
    pub inventory: Resources,
    pub pos: UPosition,
    pub direction: Direction,
    pub elevation: ElevationLevel,
    pub satiety: u64,
    pub state: PlayerState,
}

/// Why a builder cannot yet give a player.
#[derive(Clone, Copy, Debug, PartialEq, Eq, Structural)]
pub enum BuildError {
    /// No team was given.
    MissingTeam,
    /// No handle was given.
    MissingId,
}

impl BuildError {
    /// The error in words.
    pub fn message(&self) -> (words: Vec<u8>)
        ensures
            words@ == match *self {
                BuildError::MissingTeam => crate::text::text("Team ID is required"),
                BuildError::MissingId => crate::text::text("Player ID is required"),
            },
    {
        match self {
            BuildError::MissingTeam => crate::text::text_bytes("Team ID is required"),
            BuildError::MissingId => crate::text::text_bytes("Player ID is required"),
        }
    }
}

impl PlayerBuilder {
    /// Whether the builder holds the defaults of a new player: no team, no handle, ten
    /// units of food, the origin, the first level, a full stomach, and free.
    pub open spec fn has_defaults(self) -> bool {
        &&& self.team.is_none()
        &&& self.id.is_none()
        &&& self.inventory == Resources::empty().with(Resource::Food, STARTING_FOOD)
        &&& self.pos == (UPosition { x: 0, y: 0 })
        &&& self.elevation == ElevationLevel::Level1
        &&& self.satiety == REFILL_PER_FOOD
        &&& self.state == PlayerState::Idle
    }

    /// A builder with the defaults of a new player and a heading drawn at random.
    pub fn new() -> (builder: Self)
        ensures
            builder.has_defaults(),
    {
        PlayerBuilder {
            team: None,
            id: None,
            inventory: Resources::builder().food(STARTING_FOOD).build(),
            pos: Vec2 { x: 0, y: 0 },
            direction: Direction::new(),
            elevation: ElevationLevel::Level1,
            satiety: REFILL_PER_FOOD,
            state: PlayerState::Idle,
        }
    }

    /// Sets the team.
    pub fn team(self, team: Id) -> (builder: Self)
        ensures
            builder == (PlayerBuilder { team: Some(team), ..self }),
    {
        let mut builder = self;
        builder.team = Some(team);
        builder
    }

    /// Sets the handle.
    pub fn id(self, id: Id) -> (builder: Self)
        ensures
            builder == (PlayerBuilder { id: Some(id), ..self }),
    {
        let mut builder = self;
        builder.id = Some(id);
        builder
    }

    /// Sets what the player carries.
    pub fn inventory(self, inventory: Resources) -> (builder: Self)
        ensures
            builder == (PlayerBuilder { inventory, ..self }),
    {
        let mut builder = self;
        builder.inventory = inventory;
        builder
    }

    /// Sets the cell.
    pub fn position(self, pos: UPosition) -> (builder: Self)
        ensures
            builder == (PlayerBuilder { pos, ..self }),
    {
        let mut builder = self;
        builder.pos = pos;
        builder
    }

    /// Sets the heading.
    pub fn direction(self, direction: Direction) -> (builder: Self)
        ensures
            builder == (PlayerBuilder { direction, ..self }),
    {
        let mut builder = self;
        builder.direction = direction;
        builder
    }

    /// Sets the elevation.
    pub fn elevation(self, elevation: ElevationLevel) -> (builder: Self)
        ensures
            builder == (PlayerBuilder { elevation, ..self }),
    {
        let mut builder = self;
        builder.elevation = elevation;
        builder
    }

    /// Sets the satiety.
    pub fn satiety(self, satiety: u64) -> (builder: Self)
        ensures
            builder == (PlayerBuilder { satiety, ..self }),
    {
        let mut builder = self;
        builder.satiety = satiety;
        builder
    }

    /// Sets the state.
    pub fn state(self, state: PlayerState) -> (builder: Self)
        ensures
            builder == (PlayerBuilder { state, ..self }),
    {
        let mut builder = self;
        builder.state = state;
        builder
    }

    /// The player built so far. A builder without a team or without a handle gives
    /// the matching error, the missing team first.
    pub fn build(self) -> (built: Result<Player, BuildError>)
        ensures
            self.team.is_none() ==> built == Err::<Player, BuildError>(BuildError::MissingTeam),
            self.team.is_some() && self.id.is_none() ==> built == Err::<Player, BuildError>(
                BuildError::MissingId,
            ),
            self.team.is_some() && self.id.is_some() ==> built == Ok::<Player, BuildError>(
                Player {
                    team: self.team.unwrap(),
                    id: self.id.unwrap(),
                    inventory: self.inventory,
                    pos: self.pos,
                    direction: self.direction,
                    elevation: self.elevation,
                    satiety: self.satiety,
                    state: self.state,
                },
            ),
    {
        let team = match self.team {
            Some(team) => team,
            None => { return Err(BuildError::MissingTeam); },
        };
        let id = match self.id {
            Some(id) => id,
            None => { return Err(BuildError::MissingId); },
        };
        Ok(
            Player {
                team,
                id,
                inventory: self.inventory,
                pos: self.pos,
                direction: self.direction,
                elevation: self.elevation,
                satiety: self.satiety,
                state: self.state,
            },
        )
    }
}

impl Default for PlayerBuilder {
    fn default() -> (builder: Self)
        ensures
            builder.has_defaults(),
    {
        PlayerBuilder::new()
    }
}

/// A tick of hunger on a player whose satiety is at least two lowers the satiety by
/// one and changes nothing else. On a player whose satiety is zero it eats one unit of
/// food and fills the satiety to 126 if the player has food, and leaves the player
/// starved if it has none.
pub proof fn lemma_hunger(player: Player)
    ensures
        player.satiety >= 2 ==> player.spec_after_hunger(1) == (Player {
            satiety: (player.satiety - 1) as u64,
            ..player
        }),
        player.satiety == 0 && player.inventory.food >= 1 ==> player.spec_after_hunger(1).satiety
            == 126 && player.spec_after_hunger(1).inventory == player.inventory.with(
            Resource::Food,
            (player.inventory.food - 1) as u64,
        ),
        player.satiety == 0 && player.inventory.food == 0 ==> player.spec_after_hunger(1).satiety
            == 0,
{
}

/// A move forward leaves a player at `(old + unit(heading)) mod size` on each axis.
pub proof fn lemma_forward(player: Player, size: Size)
    requires
        size.x > 0,
        size.y > 0,
    ensures
        player.spec_moved_forward(size).pos.x == (player.pos.x + player.direction.unit().0) % (
        size.x as int),
        player.spec_moved_forward(size).pos.y == (player.pos.y + player.direction.unit().1) % (
        size.y as int),
        player.spec_moved_forward(size).pos.x < size.x,
        player.spec_moved_forward(size).pos.y < size.y,
{
    vstd::arithmetic::div_mod::lemma_mod_bound(
        player.pos.x + player.direction.unit().0,
        size.x as int,
    );
    vstd::arithmetic::div_mod::lemma_mod_bound(
        player.pos.y + player.direction.unit().1,
        size.y as int,
    );
}

} // verus!
