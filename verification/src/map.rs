//! The grid: its cells, the running totals of what lies on them, and the eggs.
use crate::cell::Cell;
use crate::egg::Egg;
use crate::protocol::{
    outbox_view, send_to_observers, to_observers, GUIResponse, GUIResponseView, Id, Outgoing,
};
use crate::random::random_below;
use crate::resources::{Resource, Resources};
use crate::vec2::{spec_wrap, wrap_add, Position, Size, UPosition, Vec2};
use vstd::prelude::*;

verus! {

/// How much of `resource` lies on all of `cells` together.
pub open spec fn total_of(cells: Seq<Cell>, resource: Resource) -> int
    decreases cells.len(),
{
    if cells.len() == 0 {
        0
    } else {
        total_of(cells.drop_last(), resource) + cells.last().resources.count(resource)
    }
}

/// Replacing one cell changes the total by the difference between the two cells.
pub proof fn lemma_total_update(cells: Seq<Cell>, at: int, cell: Cell, resource: Resource)
    requires
        0 <= at < cells.len(),
    ensures
        total_of(cells.update(at, cell), resource) == total_of(cells, resource)
            - cells[at].resources.count(resource) + cell.resources.count(resource),
    decreases cells.len(),
{
    let after = cells.update(at, cell);
    if at == cells.len() - 1 {
        assert(after.drop_last() =~= cells.drop_last());
    } else {
        assert(after.drop_last() =~= cells.drop_last().update(at, cell));
        lemma_total_update(cells.drop_last(), at, cell, resource);
    }
}

/// No cell holds more of a resource than all cells together.
pub proof fn lemma_total_bound(cells: Seq<Cell>, at: int, resource: Resource)
    requires
        0 <= at < cells.len(),
    ensures
        cells[at].resources.count(resource) <= total_of(cells, resource),
        total_of(cells, resource) >= 0,
    decreases cells.len(),
{
    lemma_total_nonnegative(cells.drop_last(), resource);
    if at < cells.len() - 1 {
        lemma_total_bound(cells.drop_last(), at, resource);
    }
}

/// A total is never negative.
pub proof fn lemma_total_nonnegative(cells: Seq<Cell>, resource: Resource)
    ensures
        total_of(cells, resource) >= 0,
    decreases cells.len(),
{
    if cells.len() > 0 {
        lemma_total_nonnegative(cells.drop_last(), resource);
    }
}

/// A cell with the counter of one resource replaced.
pub open spec fn cell_with(cell: Cell, resource: Resource, amount: int) -> Cell {
    Cell { resources: cell.resources.with(resource, amount as u64) }
}

/// The number of eggs in the list that belong to `team_id`.
pub open spec fn eggs_of(eggs: Seq<Egg>, team_id: Id) -> nat
    decreases eggs.len(),
{
    if eggs.len() == 0 {
        0
    } else {
        eggs_of(eggs.drop_last(), team_id) + if eggs.last().team_id == team_id {
            1nat
        } else {
            0nat
        }
    }
}

/// The eggs of the list that lie on `pos`, in order.
pub open spec fn eggs_at(eggs: Seq<Egg>, pos: UPosition) -> Seq<Egg>
    decreases eggs.len(),
{
    if eggs.len() == 0 {
        Seq::empty()
    } else if eggs.last().pos == pos {
        eggs_at(eggs.drop_last(), pos).push(eggs.last())
    } else {
        eggs_at(eggs.drop_last(), pos)
    }
}

/// The eggs of the list that do not lie on `pos`, in order.
pub open spec fn eggs_off(eggs: Seq<Egg>, pos: UPosition) -> Seq<Egg>
    decreases eggs.len(),
{
    if eggs.len() == 0 {
        Seq::empty()
    } else if eggs.last().pos == pos {
        eggs_off(eggs.drop_last(), pos)
    } else {
        eggs_off(eggs.drop_last(), pos).push(eggs.last())
    }
}

/// Whether no two eggs of the list share a handle and every handle is below `bound`.
pub open spec fn eggs_distinct(eggs: Seq<Egg>, bound: Id) -> bool {
    &&& forall|i: int| 0 <= i < eggs.len() ==> (#[trigger] eggs[i]).id < bound
    &&& forall|i: int, j: int|
        0 <= i < j < eggs.len() ==> (#[trigger] eggs[i]).id != (#[trigger] eggs[j]).id
}

/// Every egg that is kept or split off comes from the list.
pub proof fn lemma_eggs_split(eggs: Seq<Egg>, pos: UPosition)
    ensures
        eggs_at(eggs, pos).len() + eggs_off(eggs, pos).len() == eggs.len(),
        forall|i: int|
            0 <= i < eggs_at(eggs, pos).len() ==> (#[trigger] eggs_at(eggs, pos)[i]).pos == pos
                && eggs.contains(eggs_at(eggs, pos)[i]),
        forall|i: int|
            0 <= i < eggs_off(eggs, pos).len() ==> (#[trigger] eggs_off(eggs, pos)[i]).pos != pos
                && eggs.contains(eggs_off(eggs, pos)[i]),
    decreases eggs.len(),
{
    if eggs.len() > 0 {
        let rest = eggs.drop_last();
        lemma_eggs_split(rest, pos);
        assert(eggs[eggs.len() - 1] == eggs.last());
        assert forall|i: int| 0 <= i < eggs_at(eggs, pos).len() implies (#[trigger] eggs_at(
            eggs,
            pos,
        )[i]).pos == pos && eggs.contains(eggs_at(eggs, pos)[i]) by {
            if i < eggs_at(rest, pos).len() {
                let e = eggs_at(rest, pos)[i];
                assert(rest.contains(e));
                let k = choose|k: int| 0 <= k < rest.len() && rest[k] == e;
                assert(eggs[k] == e);
            }
        }
        assert forall|i: int| 0 <= i < eggs_off(eggs, pos).len() implies (#[trigger] eggs_off(
            eggs,
            pos,
        )[i]).pos != pos && eggs.contains(eggs_off(eggs, pos)[i]) by {
            if i < eggs_off(rest, pos).len() {
                let e = eggs_off(rest, pos)[i];
                assert(rest.contains(e));
                let k = choose|k: int| 0 <= k < rest.len() && rest[k] == e;
                assert(eggs[k] == e);
            }
        }
    }
}

/// The eggs that stay after a split keep distinct handles.
pub proof fn lemma_eggs_off_distinct(eggs: Seq<Egg>, pos: UPosition, bound: Id)
    requires
        eggs_distinct(eggs, bound),
    ensures
        eggs_distinct(eggs_off(eggs, pos), bound),
    decreases eggs.len(),
{
    if eggs.len() > 0 {
        let rest = eggs.drop_last();
        assert forall|i: int, j: int| 0 <= i < j < rest.len() implies (#[trigger] rest[i]).id != (
        #[trigger] rest[j]).id by {
            assert(rest[i] == eggs[i] && rest[j] == eggs[j]);
        }
        assert forall|i: int| 0 <= i < rest.len() implies (#[trigger] rest[i]).id < bound by {
            assert(rest[i] == eggs[i]);
        }
        lemma_eggs_off_distinct(rest, pos, bound);
        lemma_eggs_split(rest, pos);
        let kept = eggs_off(eggs, pos);
        if eggs.last().pos != pos {
            assert forall|i: int, j: int| 0 <= i < j < kept.len() implies (#[trigger] kept[i]).id
                != (#[trigger] kept[j]).id by {
                if j == kept.len() - 1 {
                    let e = eggs_off(rest, pos)[i];
                    assert(rest.contains(e));
                    let k = choose|k: int| 0 <= k < rest.len() && rest[k] == e;
                    assert(eggs[k] == e);
                    assert(eggs[eggs.len() - 1] == eggs.last());
                }
            }
            assert forall|i: int| 0 <= i < kept.len() implies (#[trigger] kept[i]).id < bound by {
                if i == kept.len() - 1 {
                    assert(eggs[eggs.len() - 1] == eggs.last());
                }
            }
        }
    }
}

/// The count of a team's eggs after one egg has left the list.
pub proof fn lemma_eggs_removed(eggs: Seq<Egg>, at: int, team_id: Id)
    requires
        0 <= at < eggs.len(),
    ensures
        eggs_of(eggs, team_id) == eggs_of(eggs.remove(at), team_id) + if eggs[at].team_id
            == team_id {
            1nat
        } else {
            0nat
        },
    decreases eggs.len(),
{
    let after = eggs.remove(at);
    if at == eggs.len() - 1 {
        assert(after =~= eggs.drop_last());
    } else {
        assert(after.drop_last() =~= eggs.drop_last().remove(at));
        lemma_eggs_removed(eggs.drop_last(), at, team_id);
    }
}

/// The grid with the running totals of its cells and the list of eggs.
pub struct GameMap {
    pub size: Size,
    pub cells: Vec<Cell>,
    pub resources: Resources,
    pub eggs: Vec<Egg>,
    pub next_egg_id: Id,
}

impl GameMap {
    /// What holds of every grid: the cells are stored row by row, the running totals
    /// are the sums over the cells, and no two eggs share a handle.
    pub open spec fn wf(&self) -> bool {
        &&& self.cells@.len() == self.size.x * self.size.y
        &&& forall|resource: Resource| #[trigger]
            self.resources.count(resource) == total_of(self.cells@, resource)
        &&& eggs_distinct(self.eggs@, self.next_egg_id)
    }

    /// Whether `pos` names a cell of the grid.
    pub open spec fn in_range(&self, pos: UPosition) -> bool {
        pos.x < self.size.x && pos.y < self.size.y
    }

    /// Where the cell `pos` is stored.
    pub open spec fn index_of(&self, pos: UPosition) -> int {
        pos.y * self.size.x + pos.x
    }

    /// The cell at `pos`.
    pub open spec fn cell_at(&self, pos: UPosition) -> Cell {
        self.cells@[self.index_of(pos)]
    }

    /// The cell that `pos` names once both coordinates are wrapped.
    pub open spec fn spec_wrapped(&self, x: int, y: int) -> UPosition {
        Vec2 {
            x: spec_wrap(x, 0, self.size.x as int) as u64,
            y: spec_wrap(y, 0, self.size.y as int) as u64,
        }
    }

    /// A cell of the grid is stored within the cells.
    pub proof fn lemma_index(&self, pos: UPosition)
        requires
            self.cells@.len() == self.size.x * self.size.y,
            self.in_range(pos),
        ensures
            0 <= self.index_of(pos) < self.cells@.len(),
            pos.y * self.size.x <= self.index_of(pos),
    {
        let w = self.size.x as int;
        let h = self.size.y as int;
        let x = pos.x as int;
        let y = pos.y as int;
        assert(y * w + x < w * h) by (nonlinear_arith)
            requires
                0 <= x < w,
                0 <= y < h,
        ;
        assert(0 <= y * w) by (nonlinear_arith)
            requires
                0 <= y,
                0 <= w,
        ;
    }

    /// Where the cell `pos` is stored.
    fn offset(&self, pos: UPosition) -> (at: usize)
        requires
            self.cells@.len() == self.size.x * self.size.y,
            self.in_range(pos),
        ensures
            at == self.index_of(pos),
            at < self.cells@.len(),
    {
        let stored = self.cells.len();
        proof {
            self.lemma_index(pos);
        }
        (pos.y * self.size.x + pos.x) as usize
    }

    /// An empty grid of the given size, with no eggs.
    pub fn new(size: Size) -> (map: Self)
        requires
            size.x * size.y <= usize::MAX,
        ensures
            map.wf(),
            map.size == size,
            map.eggs@.len() == 0,
            map.next_egg_id == 0,
            map.resources == Resources::empty(),
            forall|i: int| 0 <= i < map.cells@.len() ==> (#[trigger] map.cells@[i]).resources
                == Resources::empty(),
    {
        assert(size.x * size.y <= u64::MAX);
        let count: u64 = size.x * size.y;
        let mut cells: Vec<Cell> = Vec::new();
        let mut i: u64 = 0;
        while i < count
            invariant
                i <= count,
                cells@.len() == i,
                forall|k: int| 0 <= k < cells@.len() ==> (#[trigger] cells@[k]).resources
                    == Resources::empty(),
                forall|resource: Resource| #[trigger] total_of(cells@, resource) == 0,
            decreases count - i,
        {
            let ghost before = cells@;
            cells.push(Cell::new());
            assert(cells@.drop_last() =~= before);
            assert forall|resource: Resource| #[trigger] total_of(cells@, resource) == 0 by {
                assert(total_of(before, resource) == 0);
                assert(cells@.last().resources.count(resource) == 0);
            }
            i += 1;
        }
        GameMap { size, cells, resources: Resources::new(), eggs: Vec::new(), next_egg_id: 0 }
    }

    /// The cells, row by row.
    pub fn cells(&self) -> (cells: &Vec<Cell>)
        ensures
            cells@ == self.cells@,
    {
        &self.cells
    }

    /// The position of the cell that is stored at `at`.
    pub open spec fn position_of(&self, at: int) -> UPosition {
        Vec2 { x: (at % (self.size.x as int)) as u64, y: (at / (self.size.x as int)) as u64 }
    }

    /// Every cell with its position, row by row.
    pub fn cells_with_positions(&self) -> (listed: Vec<(UPosition, Cell)>)
        requires
            self.wf(),
        ensures
            listed@.len() == self.cells@.len(),
            forall|at: int|
                0 <= at < listed@.len() ==> #[trigger] listed@[at] == (
                    self.position_of(at),
                    self.cells@[at],
                ),
    {
        let mut listed: Vec<(UPosition, Cell)> = Vec::new();
        let mut at: usize = 0;
        while at < self.cells.len()
            invariant
                self.wf(),
                at <= self.cells@.len(),
                listed@.len() == at,
                forall|k: int|
                    0 <= k < at ==> #[trigger] listed@[k] == (self.position_of(k), self.cells@[k]),
            decreases self.cells@.len() - at,
        {
            assert(self.size.x > 0) by (nonlinear_arith)
                requires
                    self.cells@.len() == self.size.x * self.size.y,
                    self.cells@.len() > 0,
            ;
            let pos = Vec2 { x: (at as u64) % self.size.x, y: (at as u64) / self.size.x };
            listed.push((pos, self.cells[at]));
            at += 1;
        }
        listed
    }

    /// The cell at `pos`, or nothing if `pos` lies outside the grid.
    pub fn get(&self, pos: UPosition) -> (cell: Option<&Cell>)
        requires
            self.wf(),
        ensures
            self.in_range(pos) ==> cell == Some(&self.cell_at(pos)),
            !self.in_range(pos) ==> cell.is_none(),
    {
        if pos.x < self.size.x && pos.y < self.size.y {
            let at = self.offset(pos);
            Some(&self.cells[at])
        } else {
            None
        }
    }

    /// A mutable handle on the cell at `pos`, or nothing if `pos` lies outside the
    /// grid. What is changed through the handle changes that cell and nothing else;
    /// the running totals are not moved with it.
    pub fn get_mut(&mut self, pos: UPosition) -> (cell: Option<&mut Cell>)
        requires
            old(self).wf(),
        ensures
            !old(self).in_range(pos) ==> cell.is_none() && *final(self) == *old(self),
            old(self).in_range(pos) ==> cell.is_some() && *cell.unwrap() == old(self).cell_at(pos)
                && final(self).cells@ == old(self).cells@.update(
                old(self).index_of(pos),
                *final(cell.unwrap()),
            ) && final(self).size == old(self).size && final(self).resources == old(
                self).resources && final(self).eggs == old(self).eggs && final(self).next_egg_id
                == old(self).next_egg_id,
    {
        if pos.x < self.size.x && pos.y < self.size.y {
            let at = self.offset(pos);
            Some(&mut self.cells[at])
        } else {
            None
        }
    }

    /// The position with both coordinates wrapped onto the grid.
    pub fn get_pos(&self, pos: UPosition) -> (wrapped: UPosition)
        requires
            self.size.x > 0,
            self.size.y > 0,
        ensures
            wrapped.x == pos.x % self.size.x,
            wrapped.y == pos.y % self.size.y,
            self.in_range(wrapped),
    {
        Vec2 { x: pos.x % self.size.x, y: pos.y % self.size.y }
    }

    /// The position `offset` away from `pos`, wrapped onto the grid.
    pub fn get_pos_with_offset(&self, pos: UPosition, offset: Position) -> (wrapped: UPosition)
        requires
            self.size.x > 0,
            self.size.y > 0,
        ensures
            wrapped.x == spec_wrap(pos.x as int, offset.x as int, self.size.x as int),
            wrapped.y == spec_wrap(pos.y as int, offset.y as int, self.size.y as int),
            self.in_range(wrapped),
    {
        Vec2 {
            x: wrap_add(pos.x, offset.x, self.size.x),
            y: wrap_add(pos.y, offset.y, self.size.y),
        }
    }

    /// The signed position wrapped onto the grid.
    pub fn get_pos_signed(&self, pos: Position) -> (wrapped: UPosition)
        requires
            self.size.x > 0,
            self.size.y > 0,
        ensures
            wrapped == self.spec_wrapped(pos.x as int, pos.y as int),
            self.in_range(wrapped),
    {
        Vec2 { x: wrap_add(0, pos.x, self.size.x), y: wrap_add(0, pos.y, self.size.y) }
    }

    /// The width and height of the grid.
    pub fn size(&self) -> (size: UPosition)
        ensures
            size == self.size,
    {
        self.size
    }

    /// How much of each resource lies on the grid as a whole.
    pub fn resources(&self) -> (totals: &Resources)
        ensures
            *totals == self.resources,
    {
        &self.resources
    }

    /// What lies on the cell at `pos`.
    pub fn get_ressources_at_pos(&self, pos: UPosition) -> (bag: &Resources)
        requires
            self.wf(),
            self.in_range(pos),
        ensures
            *bag == self.cell_at(pos).resources,
    {
        let at = self.offset(pos);
        self.cells[at].ressources()
    }

    /// The number of eggs that belong to `team_id`.
    pub fn nb_eggs_by_team(&self, team_id: Id) -> (count: u64)
        ensures
            count == eggs_of(self.eggs@, team_id),
    {
        let mut count: u64 = 0;
        let mut i: usize = 0;
        assert(self.eggs@.subrange(0, 0) =~= Seq::<Egg>::empty());
        while i < self.eggs.len()
            invariant
                i <= self.eggs.len(),
                count <= i,
                count == eggs_of(self.eggs@.subrange(0, i as int), team_id),
            decreases self.eggs.len() - i,
        {
            assert(self.eggs@.subrange(0, i + 1).drop_last() =~= self.eggs@.subrange(0, i as int));
            if self.eggs[i].team_id() == team_id {
                count += 1;
            }
            i += 1;
        }
        assert(self.eggs@.subrange(0, i as int) =~= self.eggs@);
        count
    }

    /// Lays a new egg of `team_id` on `pos` and returns its handle.
    pub fn spawn_egg(&mut self, team_id: Id, pos: UPosition) -> (egg_id: Id)
        requires
            old(self).wf(),
            old(self).next_egg_id < u64::MAX,
        ensures
            final(self).wf(),
            egg_id == old(self).next_egg_id,
            final(self).next_egg_id == old(self).next_egg_id + 1,
            final(self).eggs@ == old(self).eggs@.push(Egg { id: egg_id, team_id, pos }),
            final(self).size == old(self).size,
            final(self).cells == old(self).cells,
            final(self).resources == old(self).resources,
    {
        let egg_id = self.next_egg_id;
        self.next_egg_id = self.next_egg_id + 1;
        self.eggs.push(Egg::new(egg_id, team_id, pos));
        egg_id
    }

    /// Lays `amount` new eggs of `team_id` on cells drawn at random.
    pub fn spawn_eggs(&mut self, team_id: Id, amount: u64)
        requires
            old(self).wf(),
            old(self).size.x > 0,
            old(self).size.y > 0,
            old(self).next_egg_id + amount <= u64::MAX,
        ensures
            final(self).wf(),
            final(self).size == old(self).size,
            final(self).cells == old(self).cells,
            final(self).resources == old(self).resources,
            final(self).next_egg_id == old(self).next_egg_id + amount,
            final(self).eggs@.len() == old(self).eggs@.len() + amount,
            final(self).eggs@.subrange(0, old(self).eggs@.len() as int) == old(self).eggs@,
            eggs_of(final(self).eggs@, team_id) == eggs_of(old(self).eggs@, team_id) + amount,
            forall|other: Id|
                other != team_id ==> eggs_of(final(self).eggs@, other) == eggs_of(
                    old(self).eggs@,
                    other,
                ),
            forall|i: int|
                old(self).eggs@.len() <= i < final(self).eggs@.len() ==> (#[trigger] final(self).eggs@[i]).team_id == team_id && final(self).in_range(final(self).eggs@[i].pos)
                    && final(self).eggs@[i].id == old(self).next_egg_id + (i - old(self).eggs@.len()),
    {
        let mut laid: u64 = 0;
        assert(self.eggs@.subrange(0, self.eggs@.len() as int) =~= self.eggs@);
        while laid < amount
            invariant
                laid <= amount,
                self.wf(),
                self.size == old(self).size,
                self.size.x > 0,
                self.size.y > 0,
                self.cells == old(self).cells,
                self.resources == old(self).resources,
                self.next_egg_id == old(self).next_egg_id + laid,
                old(self).next_egg_id + amount <= u64::MAX,
                self.eggs@.len() == old(self).eggs@.len() + laid,
                self.eggs@.subrange(0, old(self).eggs@.len() as int) == old(self).eggs@,
                eggs_of(self.eggs@, team_id) == eggs_of(old(self).eggs@, team_id) + laid,
                forall|other: Id|
                    other != team_id ==> eggs_of(self.eggs@, other) == eggs_of(
                        old(self).eggs@,
                        other,
                    ),
                forall|i: int|
                    old(self).eggs@.len() <= i < self.eggs@.len() ==> (#[trigger] self.eggs@[i]).team_id
                        == team_id && self.in_range(self.eggs@[i].pos) && self.eggs@[i].id == old(self).next_egg_id + (i - old(self).eggs@.len()),
            decreases amount - laid,
        {
            let x = random_below(self.size.x);
            let y = random_below(self.size.y);
            let ghost before = self.eggs@;
            self.spawn_egg(team_id, Vec2 { x, y });
            assert(self.eggs@.subrange(0, old(self).eggs@.len() as int) =~= before.subrange(
                0,
                old(self).eggs@.len() as int,
            ));
            assert(self.eggs@.drop_last() =~= before);
            laid += 1;
        }
    }

    /// Takes out the egg of `team_id` that has `number` eggs of the team before it in
    /// the list.
    pub fn drop_egg_number(&mut self, team_id: Id, number: u64) -> (egg: Egg)
        requires
            old(self).wf(),
            number < eggs_of(old(self).eggs@, team_id),
        ensures
            final(self).wf(),
            final(self).size == old(self).size,
            final(self).cells == old(self).cells,
            final(self).resources == old(self).resources,
            final(self).next_egg_id == old(self).next_egg_id,
            egg.team_id == team_id,
            exists|at: int|
                0 <= at < old(self).eggs@.len() && #[trigger] old(self).eggs@[at] == egg && eggs_of(
                    old(self).eggs@.subrange(0, at),
                    team_id,
                ) == number && final(self).eggs@ == old(self).eggs@.remove(at),
            eggs_of(final(self).eggs@, team_id) == eggs_of(old(self).eggs@, team_id) - 1,
            forall|other: Id|
                other != team_id ==> eggs_of(final(self).eggs@, other) == eggs_of(
                    old(self).eggs@,
                    other,
                ),
    {
        let mut seen: u64 = 0;
        let mut i: usize = 0;
        let ghost all = self.eggs@;
        assert(all.subrange(0, 0) =~= Seq::<Egg>::empty());
        loop
            invariant
                self.eggs@ == all,
                *self == *old(self),
                self.wf(),
                i <= all.len(),
                seen <= number,
                seen == eggs_of(all.subrange(0, i as int), team_id),
                number < eggs_of(all, team_id),
            decreases all.len() - i,
        {
            if i >= self.eggs.len() {
                assert(all.subrange(0, i as int) =~= all);
                assert(false);
            }
            assert(all.subrange(0, i + 1).drop_last() =~= all.subrange(0, i as int));
            if self.eggs[i].team_id() == team_id {
                if seen == number {
                    let egg = self.eggs.remove(i);
                    proof {
                        let after = self.eggs@;
                        assert forall|a: int, b: int| 0 <= a < b < after.len() implies (
                        #[trigger] after[a]).id != (#[trigger] after[b]).id by {
                            let a0 = if a < i {
                                a
                            } else {
                                a + 1
                            };
                            let b0 = if b < i {
                                b
                            } else {
                                b + 1
                            };
                            assert(after[a] == all[a0] && after[b] == all[b0]);
                        }
                        assert forall|a: int| 0 <= a < after.len() implies (#[trigger] after[a]).id
                            < self.next_egg_id by {
                            let a0 = if a < i {
                                a
                            } else {
                                a + 1
                            };
                            assert(after[a] == all[a0]);
                        }
                        lemma_eggs_removed(all, i as int, team_id);
                        assert forall|other: Id| other != team_id implies eggs_of(after, other)
                            == eggs_of(all, other) by {
                            lemma_eggs_removed(all, i as int, other);
                        }
                        assert(all[i as int] == egg);
                    }
                    return egg;
                }
                seen += 1;
            }
            i += 1;
        }
    }

    /// Takes out one egg of `team_id`, drawn at random among the eggs of the team.
    /// Gives nothing exactly when the team has no egg.
    pub fn drop_egg(&mut self, team_id: Id) -> (dropped: Option<Egg>)
        requires
            old(self).wf(),
        ensures
            final(self).wf(),
            final(self).size == old(self).size,
            final(self).cells == old(self).cells,
            final(self).resources == old(self).resources,
            final(self).next_egg_id == old(self).next_egg_id,
            dropped.is_none() <==> eggs_of(old(self).eggs@, team_id) == 0,
            dropped.is_none() ==> final(self).eggs@ == old(self).eggs@,
            dropped matches Some(egg) ==> egg.team_id == team_id && (exists|at: int|
                0 <= at < old(self).eggs@.len() && #[trigger] old(self).eggs@[at] == egg && final(self).eggs@ == old(self).eggs@.remove(at)) && eggs_of(final(self).eggs@, team_id)
                == eggs_of(old(self).eggs@, team_id) - 1 && (forall|other: Id|
                other != team_id ==> eggs_of(final(self).eggs@, other) == eggs_of(
                    old(self).eggs@,
                    other,
                )),
    {
        let count = self.nb_eggs_by_team(team_id);
        if count == 0 {
            return None;
        }
        let number = random_below(count);
        Some(self.drop_egg_number(team_id, number))
    }

    /// Takes out every egg that lies on `pos` and returns them in the order in which
    /// they were laid. The other eggs stay, in order.
    pub fn break_eggs_at_pos(&mut self, pos: UPosition) -> (broken: Vec<Egg>)
        requires
            old(self).wf(),
        ensures
            final(self).wf(),
            final(self).size == old(self).size,
            final(self).cells == old(self).cells,
            final(self).resources == old(self).resources,
            final(self).next_egg_id == old(self).next_egg_id,
            broken@ == eggs_at(old(self).eggs@, pos),
            final(self).eggs@ == eggs_off(old(self).eggs@, pos),
    {
        let mut broken: Vec<Egg> = Vec::new();
        let mut kept: Vec<Egg> = Vec::new();
        let mut i: usize = 0;
        assert(self.eggs@.subrange(0, 0) =~= Seq::<Egg>::empty());
        while i < self.eggs.len()
            invariant
                i <= self.eggs.len(),
                *self == *old(self),
                broken@ == eggs_at(self.eggs@.subrange(0, i as int), pos),
                kept@ == eggs_off(self.eggs@.subrange(0, i as int), pos),
            decreases self.eggs.len() - i,
        {
            assert(self.eggs@.subrange(0, i + 1).drop_last() =~= self.eggs@.subrange(0, i as int));
            let egg = self.eggs[i];
            if egg.pos.x == pos.x && egg.pos.y == pos.y {
                broken.push(egg);
            } else {
                kept.push(egg);
            }
            i += 1;
        }
        assert(self.eggs@.subrange(0, i as int) =~= self.eggs@);
        proof {
            lemma_eggs_off_distinct(self.eggs@, pos, self.next_egg_id);
        }
        self.eggs = kept;
        broken
    }

    /// Puts `amount` units of `resource` on the cell at `pos` and tells the observers
    /// what lies on the cell now.
    pub fn add_resource(
        &mut self,
        resource: Resource,
        amount: u64,
        pos: UPosition,
        outbox: &mut Vec<Outgoing>,
    )
        requires
            old(self).wf(),
            old(self).in_range(pos),
            old(self).resources.count(resource) + amount <= u64::MAX,
        ensures
            final(self).wf(),
            final(self).size == old(self).size,
            final(self).eggs == old(self).eggs,
            final(self).next_egg_id == old(self).next_egg_id,
            final(self).cells@ == old(self).cells@.update(
                old(self).index_of(pos),
                cell_with(
                    old(self).cell_at(pos),
                    resource,
                    old(self).cell_at(pos).resources.count(resource) + amount,
                ),
            ),
            final(self).resources == old(self).resources.with(
                resource,
                (old(self).resources.count(resource) + amount) as u64,
            ),
            outbox_view(final(outbox)@) == outbox_view(old(outbox)@).push(
                to_observers(GUIResponseView::Bct((pos, final(self).cell_at(pos).resources))),
            ),
    {
        let at = self.offset(pos);
        proof {
            lemma_total_bound(self.cells@, at as int, resource);
        }
        let total = self.resources.get(resource);
        let held = self.cells[at].resources.get(resource);
        let mut cell = self.cells[at];
        cell.resources.set(resource, held + amount);
        proof {
            lemma_cell_replaced(self.cells@, self.resources, at as int, resource, held + amount);
        }
        self.cells[at] = cell;
        self.resources.set(resource, total + amount);
        proof {
            let after = old(self).resources.with(
                resource,
                (old(self).resources.count(resource) - old(self).cells@[at as int].resources.count(
                    resource,
                ) + (held + amount)) as u64,
            );
            assert(self.resources == after);
            assert forall|other: Resource| #[trigger]
                self.resources.count(other) == total_of(self.cells@, other) by {
                assert(after.count(other) == total_of(self.cells@, other));
            }
        }
        send_to_observers(outbox, GUIResponse::Bct((pos, cell.resources)));
    }

    /// Takes `amount` units of `resource` from the cell at `pos` if that many lie
    /// there, and then tells the observers what lies on the cell now. Otherwise
    /// nothing changes and nothing is told.
    pub fn del_resource(
        &mut self,
        resource: Resource,
        amount: u64,
        pos: UPosition,
        outbox: &mut Vec<Outgoing>,
    ) -> (taken: Option<Resource>)
        requires
            old(self).wf(),
            old(self).in_range(pos),
        ensures
            final(self).wf(),
            final(self).size == old(self).size,
            final(self).eggs == old(self).eggs,
            final(self).next_egg_id == old(self).next_egg_id,
            old(self).cell_at(pos).resources.count(resource) < amount ==> taken.is_none()
                && final(self).cells@ == old(self).cells@ && final(self).resources == old(
                self).resources && final(outbox)@ == old(outbox)@,
            old(self).cell_at(pos).resources.count(resource) >= amount ==> taken == Some(resource)
                && final(self).cells@ == old(self).cells@.update(
                old(self).index_of(pos),
                cell_with(
                    old(self).cell_at(pos),
                    resource,
                    old(self).cell_at(pos).resources.count(resource) - amount,
                ),
            ) && final(self).resources == old(self).resources.with(
                resource,
                (old(self).resources.count(resource) - amount) as u64,
            ) && outbox_view(final(outbox)@) == outbox_view(old(outbox)@).push(
                to_observers(GUIResponseView::Bct((pos, final(self).cell_at(pos).resources))),
            ),
    {
        let at = self.offset(pos);
        proof {
            lemma_total_bound(self.cells@, at as int, resource);
        }
        let held = self.cells[at].resources.get(resource);
        if held < amount {
            return None;
        }
        let total = self.resources.get(resource);
        let mut cell = self.cells[at];
        cell.resources.set(resource, held - amount);
        proof {
            lemma_cell_replaced(self.cells@, self.resources, at as int, resource, held - amount);
        }
        self.cells[at] = cell;
        self.resources.set(resource, total - amount);
        send_to_observers(outbox, GUIResponse::Bct((pos, cell.resources)));
        Some(resource)
    }
}

/// Replacing the counter of one resource on one cell, and moving the running total of
/// that resource by the same amount, keeps every running total equal to the sum over
/// the cells.
pub proof fn lemma_cell_replaced(
    cells: Seq<Cell>,
    totals: Resources,
    at: int,
    resource: Resource,
    amount: int,
)
    requires
        0 <= at < cells.len(),
        0 <= amount <= u64::MAX,
        0 <= totals.count(resource) - cells[at].resources.count(resource) + amount <= u64::MAX,
        forall|other: Resource| #[trigger] totals.count(other) == total_of(cells, other),
    ensures
        forall|other: Resource| #[trigger]
            totals.with(
                resource,
                (totals.count(resource) - cells[at].resources.count(resource) + amount) as u64,
            ).count(other) == total_of(
                cells.update(at, cell_with(cells[at], resource, amount)),
                other,
            ),
{
    let cell = cell_with(cells[at], resource, amount);
    let after = totals.with(
        resource,
        (totals.count(resource) - cells[at].resources.count(resource) + amount) as u64,
    );
    assert forall|other: Resource| #[trigger]
        after.count(other) == total_of(cells.update(at, cell), other) by {
        lemma_total_update(cells, at, cell, other);
        assert(totals.count(other) == total_of(cells, other));
    }
}

} // verus!
