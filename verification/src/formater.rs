//! How values are spelled on the wire.
use crate::protocol::{BctResponse, Id, LookResult};
use crate::resources::{ElevationLevel, Resource, Resources};
use crate::text::{decimal, push_bytes, push_decimal, push_text, text};
use crate::vec2::UPosition;
use vstd::prelude::*;
use vstd::slice::slice_subrange;

verus! {

/// A handle: `#` and the number.
pub open spec fn spec_id_text(id: Id) -> Seq<u8> {
    text("#") + decimal(id as nat)
}

/// A position: both coordinates with a space between them.
pub open spec fn spec_uvec_text(pos: UPosition) -> Seq<u8> {
    decimal(pos.x as nat) + text(" ") + decimal(pos.y as nat)
}

/// A level: its number.
pub open spec fn spec_level_text(level: ElevationLevel) -> Seq<u8> {
    decimal(level.spec_number() as nat)
}

/// The number under which observers know a resource: food 0, linemate 1, deraumere
/// 2, sibur 3, mendiane 4, phiras 5, thystame 6.
pub open spec fn spec_resource_index(resource: Resource) -> nat {
    match resource {
        Resource::Food => 0,
        Resource::Linemate => 1,
        Resource::Deraumere => 2,
        Resource::Sibur => 3,
        Resource::Mendiane => 4,
        Resource::Phiras => 5,
        Resource::Thystame => 6,
    }
}

/// A resource as observers read it: its number.
pub open spec fn spec_resource_text(resource: Resource) -> Seq<u8> {
    decimal(spec_resource_index(resource))
}

/// A bag as observers read it: the seven counters in the order food, linemate,
/// deraumere, sibur, mendiane, phiras, thystame, with spaces between them.
pub open spec fn spec_resources_text(bag: Resources) -> Seq<u8> {
    decimal(bag.food as nat) + text(" ") + decimal(bag.linemate as nat) + text(" ") + decimal(
        bag.deraumere as nat,
    ) + text(" ") + decimal(bag.sibur as nat) + text(" ") + decimal(bag.mendiane as nat) + text(
        " ",
    ) + decimal(bag.phiras as nat) + text(" ") + decimal(bag.thystame as nat)
}

/// A bag as a player reads it: each counter behind its name, in the order deraumere,
/// linemate, mendiane, phiras, sibur, thystame, food, in square brackets.
pub open spec fn spec_inventory_text(bag: Resources) -> Seq<u8> {
    text("[deraumere ") + decimal(bag.deraumere as nat) + text(", linemate ") + decimal(
        bag.linemate as nat,
    ) + text(", mendiane ") + decimal(bag.mendiane as nat) + text(", phiras ") + decimal(
        bag.phiras as nat,
    ) + text(", sibur ") + decimal(bag.sibur as nat) + text(", thystame ") + decimal(
        bag.thystame as nat,
    ) + text(", food ") + decimal(bag.food as nat) + text("]")
}

/// What lies on a cell, as observers read it: `bct`, the position and the bag.
pub open spec fn spec_bct_text(cell: BctResponse) -> Seq<u8> {
    text("bct ") + spec_uvec_text(cell.0) + text(" ") + spec_resources_text(cell.1)
}

/// What a player carries, as observers read it: `pin`, the handle, the position and
/// the bag.
pub open spec fn spec_pin_text(id: Id, pos: UPosition, bag: Resources) -> Seq<u8> {
    text("pin ") + spec_id_text(id) + text(" ") + spec_uvec_text(pos) + text(" ")
        + spec_resources_text(bag)
}

/// `count` times a space and then `word`.
pub open spec fn spec_spaced(word: Seq<u8>, count: nat) -> Seq<u8>
    decreases count,
{
    if count == 0 {
        Seq::empty()
    } else {
        spec_spaced(word, (count - 1) as nat) + text(" ") + word
    }
}

/// What stands on a cell, every item behind a space: `player` once for each player,
/// then the name of each resource once for each unit, in the order food, linemate,
/// deraumere, sibur, mendiane, phiras, thystame.
pub open spec fn spec_look_items(cell: (u64, Resources)) -> Seq<u8> {
    spec_spaced(text("player"), cell.0 as nat) + spec_spaced(text("food"), cell.1.food as nat)
        + spec_spaced(text("linemate"), cell.1.linemate as nat) + spec_spaced(
        text("deraumere"),
        cell.1.deraumere as nat,
    ) + spec_spaced(text("sibur"), cell.1.sibur as nat) + spec_spaced(
        text("mendiane"),
        cell.1.mendiane as nat,
    ) + spec_spaced(text("phiras"), cell.1.phiras as nat) + spec_spaced(
        text("thystame"),
        cell.1.thystame as nat,
    )
}

/// The cells of a look, with commas between them. The first cell does not start with
/// a space; every later cell that holds anything does.
pub open spec fn spec_look_cells(cells: Seq<(u64, Resources)>) -> Seq<u8>
    decreases cells.len(),
{
    if cells.len() == 0 {
        Seq::empty()
    } else if cells.len() == 1 {
        let items = spec_look_items(cells[0]);
        if items.len() > 0 {
            items.subrange(1, items.len() as int)
        } else {
            items
        }
    } else {
        spec_look_cells(cells.drop_last()) + text(",") + spec_look_items(cells.last())
    }
}

/// What a player sees, as it reads it: the cells in square brackets.
pub open spec fn spec_look_text(cells: Seq<(u64, Resources)>) -> Seq<u8> {
    text("[") + spec_look_cells(cells) + text("]")
}

/// Writes a handle.
pub struct IdFormat<'a>(pub &'a Id);

impl IdFormat<'_> {
    /// Appends the handle to `out`.
    pub fn fmt(&self, out: &mut Vec<u8>)
        ensures
            final(out)@ == old(out)@ + spec_id_text(*self.0),
    {
        push_text(out, "#");
        push_decimal(out, *self.0);
        assert(out@ =~= old(out)@ + spec_id_text(*self.0));
    }
}

/// Writes a position.
pub struct UVecFormat<'a>(pub &'a UPosition);

impl UVecFormat<'_> {
    /// Appends the position to `out`.
    pub fn fmt(&self, out: &mut Vec<u8>)
        ensures
            final(out)@ == old(out)@ + spec_uvec_text(*self.0),
    {
        push_decimal(out, self.0.x);
        push_text(out, " ");
        push_decimal(out, self.0.y);
        assert(out@ =~= old(out)@ + spec_uvec_text(*self.0));
    }
}

/// Writes a level.
pub struct LevelFormat<'a>(pub &'a ElevationLevel);

impl LevelFormat<'_> {
    /// Appends the number of the level to `out`.
    pub fn fmt(&self, out: &mut Vec<u8>)
        ensures
            final(out)@ == old(out)@ + spec_level_text(*self.0),
    {
        push_decimal(out, self.0.number() as u64);
    }
}

/// Writes a resource as observers read it.
pub struct ResourceFormat<'a>(pub &'a Resource);

impl ResourceFormat<'_> {
    /// Appends the number of the resource to `out`.
    pub fn fmt(&self, out: &mut Vec<u8>)
        ensures
            final(out)@ == old(out)@ + spec_resource_text(*self.0),
    {
        let index: u64 = match *self.0 {
            Resource::Deraumere => 2,
            Resource::Linemate => 1,
            Resource::Mendiane => 4,
            Resource::Phiras => 5,
            Resource::Sibur => 3,
            Resource::Thystame => 6,
            Resource::Food => 0,
        };
        push_decimal(out, index);
    }
}

/// Writes a bag as observers read it.
pub struct ResourcesFormat<'a>(pub &'a Resources);

impl ResourcesFormat<'_> {
    /// Appends the seven counters to `out`.
    pub fn fmt(&self, out: &mut Vec<u8>)
        ensures
            final(out)@ == old(out)@ + spec_resources_text(*self.0),
    {
        let bag = self.0;
        push_decimal(out, bag.food);
        push_text(out, " ");
        push_decimal(out, bag.linemate);
        push_text(out, " ");
        push_decimal(out, bag.deraumere);
        push_text(out, " ");
        push_decimal(out, bag.sibur);
        push_text(out, " ");
        push_decimal(out, bag.mendiane);
        push_text(out, " ");
        push_decimal(out, bag.phiras);
        push_text(out, " ");
        push_decimal(out, bag.thystame);
        assert(out@ =~= old(out)@ + spec_resources_text(*self.0));
    }
}

/// Writes a bag as a player reads it.
pub struct InventoryFormat<'a>(pub &'a Resources);

impl InventoryFormat<'_> {
    /// Appends the named counters to `out`.
    pub fn fmt(&self, out: &mut Vec<u8>)
        ensures
            final(out)@ == old(out)@ + spec_inventory_text(*self.0),
    {
        let bag = self.0;
        push_text(out, "[deraumere ");
        push_decimal(out, bag.deraumere);
        push_text(out, ", linemate ");
        push_decimal(out, bag.linemate);
        push_text(out, ", mendiane ");
        push_decimal(out, bag.mendiane);
        push_text(out, ", phiras ");
        push_decimal(out, bag.phiras);
        push_text(out, ", sibur ");
        push_decimal(out, bag.sibur);
        push_text(out, ", thystame ");
        push_decimal(out, bag.thystame);
        push_text(out, ", food ");
        push_decimal(out, bag.food);
        push_text(out, "]");
        assert(out@ =~= old(out)@ + spec_inventory_text(*self.0));
    }
}

/// Writes what lies on a cell, as observers read it.
pub struct BctFormat<'a>(pub &'a BctResponse);

impl BctFormat<'_> {
    /// Appends `bct`, the position and the bag to `out`.
    pub fn fmt(&self, out: &mut Vec<u8>)
        ensures
            final(out)@ == old(out)@ + spec_bct_text(*self.0),
    {
        push_text(out, "bct ");
        UVecFormat(&self.0.0).fmt(out);
        push_text(out, " ");
        ResourcesFormat(&self.0.1).fmt(out);
        assert(out@ =~= old(out)@ + spec_bct_text(*self.0));
    }
}

/// Writes what a player carries, as observers read it.
pub struct PinFormat<'a>(pub &'a (Id, UPosition, Resources));

impl PinFormat<'_> {
    /// Appends `pin`, the handle, the position and the bag to `out`.
    pub fn fmt(&self, out: &mut Vec<u8>)
        ensures
            final(out)@ == old(out)@ + spec_pin_text(self.0.0, self.0.1, self.0.2),
    {
        push_text(out, "pin ");
        IdFormat(&self.0.0).fmt(out);
        push_text(out, " ");
        UVecFormat(&self.0.1).fmt(out);
        push_text(out, " ");
        ResourcesFormat(&self.0.2).fmt(out);
        assert(out@ =~= old(out)@ + spec_pin_text(self.0.0, self.0.1, self.0.2));
    }
}

/// Appends `count` times a space and `word` to `out`.
fn push_spaced(out: &mut Vec<u8>, word: &str, count: u64)
    ensures
        final(out)@ == old(out)@ + spec_spaced(text(word), count as nat),
{
    let mut done: u64 = 0;
    assert(out@ =~= old(out)@ + spec_spaced(text(word), 0));
    while done < count
        invariant
            done <= count,
            out@ == old(out)@ + spec_spaced(text(word), done as nat),
        decreases count - done,
    {
        push_text(out, " ");
        push_text(out, word);
        done += 1;
        assert(out@ =~= old(out)@ + spec_spaced(text(word), done as nat));
    }
}

/// Appends what stands on a cell to `out`, every item behind a space.
fn push_look_items(out: &mut Vec<u8>, cell: &(u64, Resources))
    ensures
        final(out)@ == old(out)@ + spec_look_items(*cell),
{
    push_spaced(out, "player", cell.0);
    push_spaced(out, "food", cell.1.food);
    push_spaced(out, "linemate", cell.1.linemate);
    push_spaced(out, "deraumere", cell.1.deraumere);
    push_spaced(out, "sibur", cell.1.sibur);
    push_spaced(out, "mendiane", cell.1.mendiane);
    push_spaced(out, "phiras", cell.1.phiras);
    push_spaced(out, "thystame", cell.1.thystame);
    assert(out@ =~= old(out)@ + spec_look_items(*cell));
}

/// Writes what a player sees.
pub struct LookFormat<'a>(pub &'a LookResult);

impl LookFormat<'_> {
    /// Appends the cells in square brackets to `out`.
    pub fn fmt(&self, out: &mut Vec<u8>)
        ensures
            final(out)@ == old(out)@ + spec_look_text(self.0@),
    {
        let cells = self.0;
        push_text(out, "[");
        let ghost opened = out@;
        let mut i: usize = 0;
        assert(cells@.subrange(0, 0) =~= Seq::<(u64, Resources)>::empty());
        assert(out@ =~= opened + spec_look_cells(cells@.subrange(0, 0)));
        while i < cells.len()
            invariant
                i <= cells.len(),
                opened == old(out)@ + text("["),
                out@ == opened + spec_look_cells(cells@.subrange(0, i as int)),
            decreases cells.len() - i,
        {
            let ghost upto = cells@.subrange(0, i + 1);
            assert(upto.drop_last() =~= cells@.subrange(0, i as int));
            assert(upto.last() == cells@[i as int]);
            if i == 0 {
                let mut items: Vec<u8> = Vec::new();
                push_look_items(&mut items, &cells[i]);
                assert(items@ =~= spec_look_items(cells@[0]));
                assert(upto[0] == cells@[0]);
                if items.len() > 0 {
                    push_bytes(out, slice_subrange(items.as_slice(), 1, items.len()));
                }
                assert(out@ =~= opened + spec_look_cells(upto));
            } else {
                push_text(out, ",");
                push_look_items(out, &cells[i]);
                assert(out@ =~= opened + spec_look_cells(upto));
            }
            i += 1;
        }
        assert(cells@.subrange(0, i as int) =~= cells@);
        push_text(out, "]");
        assert(out@ =~= old(out)@ + spec_look_text(self.0@));
    }
}

} // verus!
