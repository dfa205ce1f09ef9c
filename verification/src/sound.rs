//! From which side a broadcast reaches a player on the torus.
use crate::player::{Direction, Player};
use crate::vec2::{Size, UPosition};
use vstd::prelude::*;

verus! {

/// Where a broadcast starts.
#[derive(Clone, Copy, Debug, PartialEq, Eq, Structural)]
pub struct Emitter {
    pub pos: UPosition,
}

/// Where a broadcast is heard, and the heading of the player who hears it.
#[derive(Clone, Copy, Debug, PartialEq, Eq, Structural)]
pub struct Receiver {
    pub pos: UPosition,
    pub direction: Direction,
}

impl Emitter {
    /// The emitter that stands where `player` stands.
    pub fn of(player: &Player) -> (emitter: Emitter)
        ensures
            emitter.pos == player.pos,
    {
        Emitter { pos: player.pos }
    }
}

impl Receiver {
    /// The receiver that stands and looks as `player` does.
    pub fn of(player: &Player) -> (receiver: Receiver)
        ensures
            receiver.pos == player.pos,
            receiver.direction == player.direction,
    {
        Receiver { pos: player.pos, direction: player.direction }
    }
}

/// The shortest signed way from `start` to `end` on an axis that wraps after `side`
/// cells: the difference modulo `side`, less `side` where it is more than half of
/// `side`. At exactly half the positive way is kept.
pub open spec fn spec_shortest_axis(start: int, end: int, side: int) -> int {
    let rest = (end - start) % side;
    if rest > side / 2 {
        rest - side
    } else {
        rest
    }
}

/// The shortest signed way between two coordinates on one wrapping axis.
fn shortest_axis(start: u64, end: u64, side: u64) -> (way: i64)
    requires
        side > 0,
    ensures
        way == spec_shortest_axis(start as int, end as int, side as int),
        -(side / 2) <= way <= side / 2,
{
    let from = start % side;
    let to = end % side;
    let rest: u64 = if to >= from {
        to - from
    } else {
        side - (from - to)
    };
    proof {
        let m = side as int;
        vstd::arithmetic::div_mod::lemma_sub_mod_noop(end as int, start as int, m);
        if to >= from {
            vstd::arithmetic::div_mod::lemma_small_mod((to - from) as nat, side as nat);
        } else {
            vstd::arithmetic::div_mod::lemma_mod_add_multiples_vanish(to - from, m);
            vstd::arithmetic::div_mod::lemma_small_mod((m + (to - from)) as nat, side as nat);
        }
        assert(rest == (end - start) % m);
    }
    if rest > side / 2 {
        let back: u64 = side - rest;
        -(back as i64)
    } else {
        rest as i64
    }
}

/// The shortest signed way from `start` to `end` on a torus of the given size, axis by
/// axis.
pub fn get_shortest_path_torique(start: UPosition, end: UPosition, size: Size) -> (way: (
    i64,
    i64,
))
    requires
        size.x > 0,
        size.y > 0,
    ensures
        way.0 == spec_shortest_axis(start.x as int, end.x as int, size.x as int),
        way.1 == spec_shortest_axis(start.y as int, end.y as int, size.y as int),
{
    (shortest_axis(start.x, end.x, size.x), shortest_axis(start.y, end.y, size.y))
}

/// Which of the eight compass sectors the direction `(dx, dy)` falls in, counted
/// counter-clockwise from 0 for the positive x axis: the angle of the direction,
/// divided by an eighth of a turn and rounded to the nearest whole. A direction lies
/// within a sixteenth of a turn of the x axis exactly when `(|dx| + |dy|)^2 < 2 dx^2`,
/// since the tangent of a sixteenth of a turn is `sqrt(2) - 1`; likewise for the y
/// axis. No whole-numbered direction lies on a boundary. The null direction counts as
/// sector 0.
pub open spec fn spec_octant(dx: int, dy: int) -> int {
    let ax = if dx < 0 {
        -dx
    } else {
        dx
    };
    let ay = if dy < 0 {
        -dy
    } else {
        dy
    };
    if dx == 0 && dy == 0 {
        0
    } else if (ax + ay) * (ax + ay) < 2 * (ax * ax) {
        if dx > 0 {
            0
        } else {
            4
        }
    } else if (ax + ay) * (ax + ay) < 2 * (ay * ay) {
        if dy > 0 {
            2
        } else {
            6
        }
    } else if dx > 0 && dy > 0 {
        1
    } else if dx < 0 && dy > 0 {
        3
    } else if dx < 0 && dy < 0 {
        5
    } else {
        7
    }
}

/// By how many sectors the heading of the receiver turns what it hears.
pub open spec fn spec_heading_turn(heading: Direction) -> int {
    match heading {
        Direction::East => 0,
        Direction::North => 6,
        Direction::South => 2,
        Direction::West => 4,
    }
}

/// The sector from which a broadcast reaches the receiver: 0 where both stand on the
/// same cell; else the sector of the shortest way from receiver to emitter, turned
/// by the heading of the receiver, as a number from 1 to 8.
pub open spec fn spec_sound_direction(emitter: Emitter, receiver: Receiver, size: Size) -> int {
    if emitter.pos == receiver.pos {
        0
    } else {
        let dx = spec_shortest_axis(receiver.pos.x as int, emitter.pos.x as int, size.x as int);
        let dy = spec_shortest_axis(receiver.pos.y as int, emitter.pos.y as int, size.y as int);
        (spec_octant(dx, dy) + spec_heading_turn(receiver.direction)) % 8 + 1
    }
}

/// The sector of the direction `(dx, dy)`.
fn octant(dx: i64, dy: i64) -> (sector: u8)
    requires
        dx > i64::MIN,
        dy > i64::MIN,
    ensures
        sector == spec_octant(dx as int, dy as int),
        sector < 8,
{
    if dx == 0 && dy == 0 {
        return 0;
    }
    let ax: u128 = if dx < 0 {
        (-dx) as u128
    } else {
        dx as u128
    };
    let ay: u128 = if dy < 0 {
        (-dy) as u128
    } else {
        dy as u128
    };
    let sum: u128 = ax + ay;
    assert(sum * sum <= 0xffff_ffff_ffff_fffe * 0xffff_ffff_ffff_fffe) by (nonlinear_arith)
        requires
            0 <= sum <= 0xffff_ffff_ffff_fffe,
    ;
    assert(ax * ax <= 0x7fff_ffff_ffff_ffff * 0x7fff_ffff_ffff_ffff) by (nonlinear_arith)
        requires
            0 <= ax <= 0x7fff_ffff_ffff_ffff,
    ;
    assert(ay * ay <= 0x7fff_ffff_ffff_ffff * 0x7fff_ffff_ffff_ffff) by (nonlinear_arith)
        requires
            0 <= ay <= 0x7fff_ffff_ffff_ffff,
    ;
    let square: u128 = sum * sum;
    let twice_x: u128 = 2 * (ax * ax);
    let twice_y: u128 = 2 * (ay * ay);
    if square < twice_x {
        if dx > 0 {
            0
        } else {
            4
        }
    } else if square < twice_y {
        if dy > 0 {
            2
        } else {
            6
        }
    } else if dx > 0 && dy > 0 {
        1
    } else if dx < 0 && dy > 0 {
        3
    } else if dx < 0 && dy < 0 {
        5
    } else {
        7
    }
}

/// The sector from which a broadcast of `emitter` reaches `receiver`: 0 exactly where
/// both stand on the same cell, and a number from 1 to 8 otherwise. The heading of
/// the emitter plays no part.
pub fn get_sound_direction(emitter: Emitter, receiver: Receiver, size: Size) -> (sector: u8)
    requires
        size.x > 0,
        size.y > 0,
    ensures
        sector == spec_sound_direction(emitter, receiver, size),
        sector == 0 <==> emitter.pos == receiver.pos,
        sector <= 8,
{
    if emitter.pos.x == receiver.pos.x && emitter.pos.y == receiver.pos.y {
        return 0;
    }
    let way = get_shortest_path_torique(receiver.pos, emitter.pos, size);
    let sector = octant(way.0, way.1);
    let turn: u8 = match receiver.direction {
        Direction::East => 0,
        Direction::North => 6,
        Direction::South => 2,
        Direction::West => 4,
    };
    (sector + turn) % 8 + 1
}

/// A broadcast is heard from sector 0 exactly where emitter and receiver share a
/// cell, and from one of the sectors 1 to 8 everywhere else.
pub proof fn lemma_sound_direction_range(emitter: Emitter, receiver: Receiver, size: Size)
    requires
        size.x > 0,
        size.y > 0,
    ensures
        spec_sound_direction(emitter, receiver, size) == 0 <==> emitter.pos == receiver.pos,
        emitter.pos != receiver.pos ==> 1 <= spec_sound_direction(emitter, receiver, size) <= 8,
{
}

} // verus!
