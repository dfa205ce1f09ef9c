//! What an observer makes of the lines that the server sends it.
use crate::text::{
    copy_bytes, is_text, parse_u64, spec_parse_u64, spec_words, split_words, text, views,
};
use vstd::prelude::*;
use vstd::slice::slice_subrange;
use vstd::std_specs::convert::TryFromSpecImpl;

verus! {

/// A heading as an observer keeps it.
#[derive(Clone, Copy, Debug, PartialEq, Eq, Structural)]
pub enum Orientation {
    North,
    East,
    South,
    West,
}

impl TryFrom<u8> for Orientation {
    type Error = ();

    /// The heading that a number from 1 to 4 stands for.
    fn try_from(value: u8) -> (heading: Result<Self, ()>) {
        match value {
            1 => Ok(Orientation::North),
            2 => Ok(Orientation::East),
            3 => Ok(Orientation::South),
            4 => Ok(Orientation::West),
            _ => Err(()),
        }
    }
}

impl TryFromSpecImpl<u8> for Orientation {
    open spec fn obeys_try_from_spec() -> bool {
        true
    }

    open spec fn try_from_spec(value: u8) -> Result<Self, ()> {
        if value == 1 {
            Ok(Orientation::North)
        } else if value == 2 {
            Ok(Orientation::East)
        } else if value == 3 {
            Ok(Orientation::South)
        } else if value == 4 {
            Ok(Orientation::West)
        } else {
            Err(())
        }
    }
}

/// What a line of the server tells an observer.
#[derive(Debug)]
pub enum ServerMessage {
    MapSize { width: u32, height: u32 },
    TeamName { name: Vec<u8> },
    PlayerConnected { id: u64, pos: (u64, u64), orientation: u8, level: u8, team_name: Vec<u8> },
    PlayerPosition { id: u64, pos: (u64, u64), orientation: u8 },
    PlayerLevel { id: u64, level: u8 },
    PlayerInventory { id: u64, pos: (u64, u64), inventory: [u32; 7] },
    PlayerDied { id: u64 },
    /// A line that the observer does not act on.
    Other(()),
}

/// A message as a plain value.
pub ghost enum ServerMessageView {
    MapSize { width: u32, height: u32 },
    TeamName { name: Seq<u8> },
    PlayerConnected { id: u64, pos: (u64, u64), orientation: u8, level: u8, team_name: Seq<u8> },
    PlayerPosition { id: u64, pos: (u64, u64), orientation: u8 },
    PlayerLevel { id: u64, level: u8 },
    PlayerInventory { id: u64, pos: (u64, u64), inventory: Seq<u32> },
    PlayerDied { id: u64 },
    Other,
}

impl View for ServerMessage {
    type V = ServerMessageView;

    open spec fn view(&self) -> ServerMessageView {
        match *self {
            ServerMessage::MapSize { width, height } => ServerMessageView::MapSize { width, height },
            ServerMessage::TeamName { name } => ServerMessageView::TeamName { name: name@ },
            ServerMessage::PlayerConnected {
                id,
                pos,
                orientation,
                level,
                team_name,
            } => ServerMessageView::PlayerConnected {
                id,
                pos,
                orientation,
                level,
                team_name: team_name@,
            },
            ServerMessage::PlayerPosition {
                id,
                pos,
                orientation,
            } => ServerMessageView::PlayerPosition { id, pos, orientation },
            ServerMessage::PlayerLevel { id, level } => ServerMessageView::PlayerLevel { id, level },
            ServerMessage::PlayerInventory {
                id,
                pos,
                inventory,
            } => ServerMessageView::PlayerInventory { id, pos, inventory: inventory@ },
            ServerMessage::PlayerDied { id } => ServerMessageView::PlayerDied { id },
            ServerMessage::Other(_) => ServerMessageView::Other,
        }
    }
}

/// The number that `word` spells, if it is at most `limit`.
pub open spec fn spec_parse_upto(word: Seq<u8>, limit: u64) -> Option<u64> {
    match spec_parse_u64(word) {
        Some(number) => if number <= limit {
            Some(number)
        } else {
            None
        },
        None => None,
    }
}

/// The number of `#` at the head of `word`.
pub open spec fn leading_hashes(word: Seq<u8>) -> nat
    decreases word.len(),
{
    if word.len() > 0 && word[0] == 35 {
        1 + leading_hashes(word.drop_first())
    } else {
        0
    }
}

/// The handle that `word` spells behind any number of `#`.
pub open spec fn spec_parse_handle(word: Seq<u8>) -> Option<u64> {
    spec_parse_u64(word.subrange(leading_hashes(word) as int, word.len() as int))
}

/// What a line tells an observer, word by word. A line without a word tells nothing.
/// `msz`, `tna`, `pnw`, `ppo` and `pdi` tell something if they have enough words and
/// their numbers can be read, and nothing otherwise; words beyond those that are
/// read are ignored. Every other line is a message that the observer does not act
/// on.
pub open spec fn spec_message(words: Seq<Seq<u8>>) -> Option<ServerMessageView> {
    if words.len() == 0 {
        None
    } else if words[0] == text("msz") {
        if words.len() >= 3 {
            match (spec_parse_upto(words[1], u32::MAX as u64), spec_parse_upto(
                words[2],
                u32::MAX as u64,
            )) {
                (Some(width), Some(height)) => Some(
                    ServerMessageView::MapSize { width: width as u32, height: height as u32 },
                ),
                _ => None,
            }
        } else {
            None
        }
    } else if words[0] == text("tna") {
        if words.len() >= 2 {
            Some(ServerMessageView::TeamName { name: words[1] })
        } else {
            None
        }
    } else if words[0] == text("pnw") {
        if words.len() >= 7 {
            match (
                spec_parse_handle(words[1]),
                spec_parse_u64(words[2]),
                spec_parse_u64(words[3]),
                spec_parse_upto(words[4], u8::MAX as u64),
                spec_parse_upto(words[5], u8::MAX as u64),
            ) {
                (Some(id), Some(x), Some(y), Some(orientation), Some(level)) => Some(
                    ServerMessageView::PlayerConnected {
                        id,
                        pos: (x, y),
                        orientation: orientation as u8,
                        level: level as u8,
                        team_name: words[6],
                    },
                ),
                _ => None,
            }
        } else {
            None
        }
    } else if words[0] == text("ppo") {
        if words.len() >= 5 {
            match (
                spec_parse_handle(words[1]),
                spec_parse_u64(words[2]),
                spec_parse_u64(words[3]),
                spec_parse_upto(words[4], u8::MAX as u64),
            ) {
                (Some(id), Some(x), Some(y), Some(orientation)) => Some(
                    ServerMessageView::PlayerPosition {
                        id,
                        pos: (x, y),
                        orientation: orientation as u8,
                    },
                ),
                _ => None,
            }
        } else {
            None
        }
    } else if words[0] == text("pdi") {
        if words.len() >= 2 {
            match spec_parse_handle(words[1]) {
                Some(id) => Some(ServerMessageView::PlayerDied { id }),
                None => None,
            }
        } else {
            None
        }
    } else {
        Some(ServerMessageView::Other)
    }
}

/// The number that `word` spells, if it is at most `limit`.
fn parse_upto(word: &[u8], limit: u64) -> (number: Option<u64>)
    ensures
        number == spec_parse_upto(word@, limit),
{
    match parse_u64(word) {
        Some(number) => if number <= limit {
            Some(number)
        } else {
            None
        },
        None => None,
    }
}

/// The handle that `word` spells behind any number of `#`.
fn parse_handle(word: &[u8]) -> (id: Option<u64>)
    ensures
        id == spec_parse_handle(word@),
{
    let mut i: usize = 0;
    assert(word@.subrange(0, word@.len() as int) =~= word@);
    while i < word.len() && word[i] == 35
        invariant
            i <= word.len(),
            leading_hashes(word@) == i + leading_hashes(
                word@.subrange(i as int, word@.len() as int),
            ),
        decreases word.len() - i,
    {
        assert(word@.subrange(i as int, word@.len() as int).drop_first() =~= word@.subrange(
            i + 1,
            word@.len() as int,
        ));
        i += 1;
    }
    parse_u64(slice_subrange(word, i, word.len()))
}

/// Reads a line of the server as an observer does.
pub fn parse_server_message(msg: &[u8]) -> (message: Option<ServerMessage>)
    ensures
        match message {
            Some(read) => spec_message(spec_words(msg@)) == Some(read@),
            None => spec_message(spec_words(msg@)).is_none(),
        },
{
    let parts = split_words(msg);
    let ghost words = views(parts@);
    if parts.len() == 0 {
        return None;
    }
    assert(words[0] == parts@[0]@);
    let verb = parts[0].as_slice();
    if is_text(verb, "msz") {
        if parts.len() >= 3 {
            assert(words[1] == parts@[1]@ && words[2] == parts@[2]@);
            let width = parse_upto(parts[1].as_slice(), u32::MAX as u64);
            let height = parse_upto(parts[2].as_slice(), u32::MAX as u64);
            match (width, height) {
                (Some(width), Some(height)) => Some(
                    ServerMessage::MapSize { width: width as u32, height: height as u32 },
                ),
                _ => None,
            }
        } else {
            None
        }
    } else if is_text(verb, "tna") {
        if parts.len() >= 2 {
            assert(words[1] == parts@[1]@);
            Some(ServerMessage::TeamName { name: copy_bytes(parts[1].as_slice()) })
        } else {
            None
        }
    } else if is_text(verb, "pnw") {
        if parts.len() >= 7 {
            assert(words[1] == parts@[1]@ && words[2] == parts@[2]@ && words[3] == parts@[3]@
                && words[4] == parts@[4]@ && words[5] == parts@[5]@ && words[6] == parts@[6]@);
            let id = parse_handle(parts[1].as_slice());
            let x = parse_u64(parts[2].as_slice());
            let y = parse_u64(parts[3].as_slice());
            let orientation = parse_upto(parts[4].as_slice(), u8::MAX as u64);
            let level = parse_upto(parts[5].as_slice(), u8::MAX as u64);
            match (id, x, y, orientation, level) {
                (Some(id), Some(x), Some(y), Some(orientation), Some(level)) => Some(
                    ServerMessage::PlayerConnected {
                        id,
                        pos: (x, y),
                        orientation: orientation as u8,
                        level: level as u8,
                        team_name: copy_bytes(parts[6].as_slice()),
                    },
                ),
                _ => None,
            }
        } else {
            None
        }
    } else if is_text(verb, "ppo") {
        if parts.len() >= 5 {
            assert(words[1] == parts@[1]@ && words[2] == parts@[2]@ && words[3] == parts@[3]@
                && words[4] == parts@[4]@);
            let id = parse_handle(parts[1].as_slice());
            let x = parse_u64(parts[2].as_slice());
            let y = parse_u64(parts[3].as_slice());
            let orientation = parse_upto(parts[4].as_slice(), u8::MAX as u64);
            match (id, x, y, orientation) {
                (Some(id), Some(x), Some(y), Some(orientation)) => Some(
                    ServerMessage::PlayerPosition { id, pos: (x, y), orientation: orientation as u8 },
                ),
                _ => None,
            }
        } else {
            None
        }
    } else if is_text(verb, "pdi") {
        if parts.len() >= 2 {
            assert(words[1] == parts@[1]@);
            match parse_handle(parts[1].as_slice()) {
                Some(id) => Some(ServerMessage::PlayerDied { id }),
                None => None,
            }
        } else {
            None
        }
    } else {
        Some(ServerMessage::Other(()))
    }
}

} // verus!
