//! What clients ask of the server and what the server answers.
use crate::event::Event;
use crate::player::Direction;
use crate::resources::{ElevationLevel, LevelRequirement, Resource, Resources};
use crate::text::{copy_bytes, parse_u64, spec_parse_u64, spec_trim, trim, views};
use crate::vec2::{Size, UPosition};
use vstd::prelude::*;
use vstd::slice::slice_subrange;

verus! {

/// A handle on a client, an event, an egg or a team.
pub type Id = u64;

/// Anything that carries a handle.
pub trait HasId {
    /// The handle.
    spec fn spec_id(&self) -> Id;

    fn id(&self) -> (id: Id)
        ensures
            id == self.spec_id(),
    ;
}

/// What every kind of connection may report to the server.
#[derive(Debug, Clone, Copy, PartialEq, Eq, Structural)]
pub enum SharedAction {
    Disconnected,
    InvalidAction,
    InvalidParameters,
    ReachedTakeLimit,
    InvalidEncoding,
}

/// The two plain answers.
#[derive(Debug, Clone, Copy, PartialEq, Eq, Structural)]
pub enum SharedResponse {
    Ko,
    Okay,
}

/// What a player's connection asks of the server.
#[derive(Debug)]
pub enum AIAction {
    Shared(SharedAction),
    Action(Event),
}

/// What an observer's connection asks of the server.
#[derive(Debug, Clone, Copy, PartialEq, Eq, Structural)]
pub enum GUIAction {
    Shared(SharedAction),
    Msz,
    Bct(UPosition),
    Mct,
    Tna,
    Ppo(Id),
    Plv(Id),
    Pin(Id),
    Sgt,
    Sst(u64),
}

/// What a connection that has not logged in yet asks of the server.
#[derive(Debug)]
pub enum PendingAction {
    Shared(SharedAction),
    Login(Vec<u8>),
}

/// What a player sees: for each cell in view the number of players on it and what
/// lies on it.
pub type LookResult = Vec<(u64, Resources)>;

/// What the server tells a player.
#[derive(Debug)]
pub enum AIResponse {
    Shared(SharedResponse),
    Dead,
    Broadcast(u8, Vec<u8>),
    Incantating,
    LevelUp(ElevationLevel),
    Inventory(Resources),
    ConnectNbr(u64),
    Eject(u8),
    Look(LookResult),
}

/// A cell and what lies on it.
pub type BctResponse = (UPosition, Resources);

/// What the server tells an observer.
#[derive(Debug)]
pub enum GUIResponse {
    Shared(SharedResponse),
    Sbp,
    Msz(UPosition),
    Bct(BctResponse),
    Mct(Vec<BctResponse>),
    Tna(Vec<Vec<u8>>),
    Pnw(Id, UPosition, Direction, ElevationLevel, Vec<u8>),
    Ppo(Id, UPosition, Direction),
    Plv(Id, ElevationLevel),
    Pin(Id, UPosition, Resources),
    Pex(Id),
    Pbc(Id, Vec<u8>),
    Pic(UPosition, ElevationLevel, Vec<Id>),
    Pie(UPosition, bool),
    Pfk(Id),
    Pdr(Id, Resource),
    Pgt(Id, Resource),
    Pdi(Id),
    Enw(Id, Id, UPosition),
    Ebo(Id),
    Edi(Id),
    Sgt(u64),
    Sst(u64),
    Seg(Vec<u8>),
    Smg(Vec<u8>),
}

/// As what a connection has logged in: as an observer, or as a player, with the eggs
/// that its team has left and the size of the grid.
#[derive(Debug, Clone, Copy, PartialEq, Eq, Structural)]
pub enum TeamType {
    Graphic,
    IA(u64, Size),
}

/// What the server tells a connection that has not logged in yet.
#[derive(Debug, Clone, Copy, PartialEq, Eq, Structural)]
pub enum PendingResponse {
    Shared(SharedResponse),
    LogAs(TeamType),
}

/// What the server tells a connection.
#[derive(Debug)]
pub enum ServerResponse {
    AI(AIResponse),
    Gui(GUIResponse),
    Pending(PendingResponse),
}

/// What the connection `id` asks of the server.
#[derive(Debug)]
pub struct GameEvent<T> {
    pub id: Id,
    pub action: T,
}

pub type AIEvent = GameEvent<AIAction>;

pub type GUIEvent = GameEvent<GUIAction>;

pub type PendingEvent = GameEvent<PendingAction>;

/// What a connection asks of the server, by the kind of the connection.
#[derive(Debug)]
pub enum EventType {
    AI(AIEvent),
    GUI(GUIEvent),
    Pending(PendingEvent),
}

/// An event as a plain value.
pub ghost enum EventView {
    Broadcast(Seq<u8>),
    Forward,
    Right,
    Left,
    Look,
    Inventory,
    ConnectNbr,
    Fork,
    Eject,
    Take(Resource),
    SetObject(Resource),
    Incantation,
    Ko,
    Phantom,
    IncantationEnd(Seq<Id>, LevelRequirement, UPosition),
}

impl View for Event {
    type V = EventView;

    open spec fn view(&self) -> EventView {
        match *self {
            Event::Broadcast(text) => EventView::Broadcast(text@),
            Event::Forward => EventView::Forward,
            Event::Right => EventView::Right,
            Event::Left => EventView::Left,
            Event::Look => EventView::Look,
            Event::Inventory => EventView::Inventory,
            Event::ConnectNbr => EventView::ConnectNbr,
            Event::Fork => EventView::Fork,
            Event::Eject => EventView::Eject,
            Event::Take(resource) => EventView::Take(resource),
            Event::SetObject(resource) => EventView::SetObject(resource),
            Event::Incantation => EventView::Incantation,
            Event::Ko => EventView::Ko,
            Event::Phantom => EventView::Phantom,
            Event::IncantationEnd(players, needs, pos) => EventView::IncantationEnd(
                players@,
                needs,
                pos,
            ),
        }
    }
}

/// A request as a plain value: who asks, and what.
pub ghost enum EventTypeView {
    AIShared(Id, SharedAction),
    AIAction(Id, EventView),
    GUI(Id, GUIAction),
    PendingShared(Id, SharedAction),
    Login(Id, Seq<u8>),
}

impl View for EventType {
    type V = EventTypeView;

    open spec fn view(&self) -> EventTypeView {
        match *self {
            EventType::AI(GameEvent { id, action: AIAction::Shared(shared) }) => EventTypeView::AIShared(
                id,
                shared,
            ),
            EventType::AI(GameEvent { id, action: AIAction::Action(event) }) => EventTypeView::AIAction(
                id,
                event@,
            ),
            EventType::GUI(GameEvent { id, action }) => EventTypeView::GUI(id, action),
            EventType::Pending(
                GameEvent { id, action: PendingAction::Shared(shared) },
            ) => EventTypeView::PendingShared(id, shared),
            EventType::Pending(
                GameEvent { id, action: PendingAction::Login(name) },
            ) => EventTypeView::Login(id, name@),
        }
    }
}

/// An answer to a player as a plain value.
pub ghost enum AIResponseView {
    Shared(SharedResponse),
    Dead,
    Broadcast(u8, Seq<u8>),
    Incantating,
    LevelUp(ElevationLevel),
    Inventory(Resources),
    ConnectNbr(u64),
    Eject(u8),
    Look(Seq<(u64, Resources)>),
}

impl View for AIResponse {
    type V = AIResponseView;

    open spec fn view(&self) -> AIResponseView {
        match *self {
            AIResponse::Shared(shared) => AIResponseView::Shared(shared),
            AIResponse::Dead => AIResponseView::Dead,
            AIResponse::Broadcast(sector, text) => AIResponseView::Broadcast(sector, text@),
            AIResponse::Incantating => AIResponseView::Incantating,
            AIResponse::LevelUp(level) => AIResponseView::LevelUp(level),
            AIResponse::Inventory(bag) => AIResponseView::Inventory(bag),
            AIResponse::ConnectNbr(eggs) => AIResponseView::ConnectNbr(eggs),
            AIResponse::Eject(sector) => AIResponseView::Eject(sector),
            AIResponse::Look(cells) => AIResponseView::Look(cells@),
        }
    }
}

/// An answer to an observer as a plain value.
pub ghost enum GUIResponseView {
    Shared(SharedResponse),
    Sbp,
    Msz(UPosition),
    Bct(BctResponse),
    Mct(Seq<BctResponse>),
    Tna(Seq<Seq<u8>>),
    Pnw(Id, UPosition, Direction, ElevationLevel, Seq<u8>),
    Ppo(Id, UPosition, Direction),
    Plv(Id, ElevationLevel),
    Pin(Id, UPosition, Resources),
    Pex(Id),
    Pbc(Id, Seq<u8>),
    Pic(UPosition, ElevationLevel, Seq<Id>),
    Pie(UPosition, bool),
    Pfk(Id),
    Pdr(Id, Resource),
    Pgt(Id, Resource),
    Pdi(Id),
    Enw(Id, Id, UPosition),
    Ebo(Id),
    Edi(Id),
    Sgt(u64),
    Sst(u64),
    Seg(Seq<u8>),
    Smg(Seq<u8>),
}

impl View for GUIResponse {
    type V = GUIResponseView;

    open spec fn view(&self) -> GUIResponseView {
        match *self {
            GUIResponse::Shared(shared) => GUIResponseView::Shared(shared),
            GUIResponse::Sbp => GUIResponseView::Sbp,
            GUIResponse::Msz(size) => GUIResponseView::Msz(size),
            GUIResponse::Bct(cell) => GUIResponseView::Bct(cell),
            GUIResponse::Mct(cells) => GUIResponseView::Mct(cells@),
            GUIResponse::Tna(names) => GUIResponseView::Tna(views(names@)),
            GUIResponse::Pnw(id, pos, heading, level, team) => GUIResponseView::Pnw(
                id,
                pos,
                heading,
                level,
                team@,
            ),
            GUIResponse::Ppo(id, pos, heading) => GUIResponseView::Ppo(id, pos, heading),
            GUIResponse::Plv(id, level) => GUIResponseView::Plv(id, level),
            GUIResponse::Pin(id, pos, bag) => GUIResponseView::Pin(id, pos, bag),
            GUIResponse::Pex(id) => GUIResponseView::Pex(id),
            GUIResponse::Pbc(id, text) => GUIResponseView::Pbc(id, text@),
            GUIResponse::Pic(pos, level, players) => GUIResponseView::Pic(pos, level, players@),
            GUIResponse::Pie(pos, success) => GUIResponseView::Pie(pos, success),
            GUIResponse::Pfk(id) => GUIResponseView::Pfk(id),
            GUIResponse::Pdr(id, resource) => GUIResponseView::Pdr(id, resource),
            GUIResponse::Pgt(id, resource) => GUIResponseView::Pgt(id, resource),
            GUIResponse::Pdi(id) => GUIResponseView::Pdi(id),
            GUIResponse::Enw(egg, player, pos) => GUIResponseView::Enw(egg, player, pos),
            GUIResponse::Ebo(egg) => GUIResponseView::Ebo(egg),
            GUIResponse::Edi(egg) => GUIResponseView::Edi(egg),
            GUIResponse::Sgt(freq) => GUIResponseView::Sgt(freq),
            GUIResponse::Sst(freq) => GUIResponseView::Sst(freq),
            GUIResponse::Seg(team) => GUIResponseView::Seg(team@),
            GUIResponse::Smg(text) => GUIResponseView::Smg(text@),
        }
    }
}

/// An answer to a connection as a plain value.
pub ghost enum ServerResponseView {
    AI(AIResponseView),
    Gui(GUIResponseView),
    Pending(PendingResponse),
}

impl View for ServerResponse {
    type V = ServerResponseView;

    open spec fn view(&self) -> ServerResponseView {
        match *self {
            ServerResponse::AI(response) => ServerResponseView::AI(response@),
            ServerResponse::Gui(response) => ServerResponseView::Gui(response@),
            ServerResponse::Pending(response) => ServerResponseView::Pending(response),
        }
    }
}

/// Who is to receive an answer: one connection, or every observer that is connected.
#[derive(Debug, Clone, Copy, PartialEq, Eq, Structural)]
pub enum Audience {
    Client(Id),
    Observers,
}

/// An answer on its way out.
#[derive(Debug)]
pub struct Outgoing {
    pub to: Audience,
    pub response: ServerResponse,
}

/// An answer on its way out, as a plain value.
pub ghost struct OutgoingView {
    pub to: Audience,
    pub response: ServerResponseView,
}

impl View for Outgoing {
    type V = OutgoingView;

    open spec fn view(&self) -> OutgoingView {
        OutgoingView { to: self.to, response: self.response@ }
    }
}

/// The answers of an outbox as plain values, in order.
pub open spec fn outbox_view(outbox: Seq<Outgoing>) -> Seq<OutgoingView> {
    outbox.map_values(|message: Outgoing| message@)
}

/// An answer for the player `id`.
pub open spec fn to_player(id: Id, response: AIResponseView) -> OutgoingView {
    OutgoingView { to: Audience::Client(id), response: ServerResponseView::AI(response) }
}

/// An answer for every observer.
pub open spec fn to_observers(response: GUIResponseView) -> OutgoingView {
    OutgoingView { to: Audience::Observers, response: ServerResponseView::Gui(response) }
}

/// An answer for the observer `id` alone.
pub open spec fn to_observer(id: Id, response: GUIResponseView) -> OutgoingView {
    OutgoingView { to: Audience::Client(id), response: ServerResponseView::Gui(response) }
}

/// An answer for the connection `id` that has not logged in yet.
pub open spec fn to_pending(id: Id, response: PendingResponse) -> OutgoingView {
    OutgoingView { to: Audience::Client(id), response: ServerResponseView::Pending(response) }
}

/// Puts an answer for the player `id` into the outbox.
pub fn send_to_player(outbox: &mut Vec<Outgoing>, id: Id, response: AIResponse)
    ensures
        outbox_view(final(outbox)@) == outbox_view(old(outbox)@).push(to_player(id, response@)),
{
    outbox.push(Outgoing { to: Audience::Client(id), response: ServerResponse::AI(response) });
    assert(outbox_view(outbox@) =~= outbox_view(old(outbox)@).push(to_player(id, response@)));
}

/// Puts an answer for every observer into the outbox.
pub fn send_to_observers(outbox: &mut Vec<Outgoing>, response: GUIResponse)
    ensures
        outbox_view(final(outbox)@) == outbox_view(old(outbox)@).push(to_observers(response@)),
{
    outbox.push(Outgoing { to: Audience::Observers, response: ServerResponse::Gui(response) });
    assert(outbox_view(outbox@) =~= outbox_view(old(outbox)@).push(to_observers(response@)));
}

/// Puts an answer for the observer `id` alone into the outbox.
pub fn send_to_observer(outbox: &mut Vec<Outgoing>, id: Id, response: GUIResponse)
    ensures
        outbox_view(final(outbox)@) == outbox_view(old(outbox)@).push(to_observer(id, response@)),
{
    outbox.push(Outgoing { to: Audience::Client(id), response: ServerResponse::Gui(response) });
    assert(outbox_view(outbox@) =~= outbox_view(old(outbox)@).push(to_observer(id, response@)));
}

/// Puts an answer for the connection `id` that has not logged in yet into the outbox.
pub fn send_to_pending(outbox: &mut Vec<Outgoing>, id: Id, response: PendingResponse)
    ensures
        outbox_view(final(outbox)@) == outbox_view(old(outbox)@).push(to_pending(id, response)),
{
    outbox.push(Outgoing { to: Audience::Client(id), response: ServerResponse::Pending(response) });
    assert(outbox_view(outbox@) =~= outbox_view(old(outbox)@).push(to_pending(id, response)));
}

/// The number that `input` spells behind an optional `prefix`. With the prefix, white
/// space around the whole is ignored; without it, the input is read as it stands.
pub open spec fn spec_parse_prefixed_id(input: Seq<u8>, prefix: u8) -> Option<u64> {
    let trimmed = spec_trim(input);
    if trimmed.len() > 0 && trimmed[0] == prefix {
        spec_parse_u64(trimmed.subrange(1, trimmed.len() as int))
    } else {
        spec_parse_u64(input)
    }
}

/// Reads a handle that may carry `prefix` in front.
pub fn parse_prefixed_id(input: &[u8], prefix: u8) -> (id: Option<u64>)
    ensures
        id == spec_parse_prefixed_id(input@, prefix),
{
    let trimmed = trim(input);
    if trimmed.len() > 0 && trimmed[0] == prefix {
        parse_u64(slice_subrange(trimmed, 1, trimmed.len()))
    } else {
        parse_u64(input)
    }
}

/// A copy of a list of plain values.
pub fn copy_list<T: Copy>(list: &Vec<T>) -> (copy: Vec<T>)
    ensures
        copy@ == list@,
{
    let mut copy: Vec<T> = Vec::new();
    let mut i: usize = 0;
    while i < list.len()
        invariant
            i <= list.len(),
            copy@ == list@.subrange(0, i as int),
        decreases list.len() - i,
    {
        copy.push(list[i]);
        i += 1;
        assert(copy@ =~= list@.subrange(0, i as int));
    }
    assert(copy@ =~= list@);
    copy
}

/// A copy of a list of byte strings.
pub fn copy_lines(lines: &Vec<Vec<u8>>) -> (copy: Vec<Vec<u8>>)
    ensures
        views(copy@) == views(lines@),
{
    let mut copy: Vec<Vec<u8>> = Vec::new();
    let mut i: usize = 0;
    while i < lines.len()
        invariant
            i <= lines.len(),
            copy@.len() == i,
            forall|k: int| 0 <= k < i ==> (#[trigger] copy@[k])@ == lines@[k]@,
        decreases lines.len() - i,
    {
        copy.push(copy_bytes(lines[i].as_slice()));
        i += 1;
    }
    assert(views(copy@) =~= views(lines@));
    copy
}

impl AIResponse {
    /// A copy of the answer.
    pub fn duplicate(&self) -> (copy: AIResponse)
        ensures
            copy@ == self@,
    {
        match self {
            AIResponse::Shared(shared) => AIResponse::Shared(*shared),
            AIResponse::Dead => AIResponse::Dead,
            AIResponse::Broadcast(sector, words) => AIResponse::Broadcast(
                *sector,
                copy_bytes(words.as_slice()),
            ),
            AIResponse::Incantating => AIResponse::Incantating,
            AIResponse::LevelUp(level) => AIResponse::LevelUp(*level),
            AIResponse::Inventory(bag) => AIResponse::Inventory(*bag),
            AIResponse::ConnectNbr(eggs) => AIResponse::ConnectNbr(*eggs),
            AIResponse::Eject(sector) => AIResponse::Eject(*sector),
            AIResponse::Look(cells) => AIResponse::Look(copy_list(cells)),
        }
    }
}

impl GUIResponse {
    /// A copy of the answer.
    pub fn duplicate(&self) -> (copy: GUIResponse)
        ensures
            copy@ == self@,
    {
        match self {
            GUIResponse::Shared(shared) => GUIResponse::Shared(*shared),
            GUIResponse::Sbp => GUIResponse::Sbp,
            GUIResponse::Msz(size) => GUIResponse::Msz(*size),
            GUIResponse::Bct(cell) => GUIResponse::Bct(*cell),
            GUIResponse::Mct(cells) => GUIResponse::Mct(copy_list(cells)),
            GUIResponse::Tna(names) => GUIResponse::Tna(copy_lines(names)),
            GUIResponse::Pnw(id, pos, heading, level, team) => GUIResponse::Pnw(
                *id,
                *pos,
                *heading,
                *level,
                copy_bytes(team.as_slice()),
            ),
            GUIResponse::Ppo(id, pos, heading) => GUIResponse::Ppo(*id, *pos, *heading),
            GUIResponse::Plv(id, level) => GUIResponse::Plv(*id, *level),
            GUIResponse::Pin(id, pos, bag) => GUIResponse::Pin(*id, *pos, *bag),
            GUIResponse::Pex(id) => GUIResponse::Pex(*id),
            GUIResponse::Pbc(id, words) => GUIResponse::Pbc(*id, copy_bytes(words.as_slice())),
            GUIResponse::Pic(pos, level, players) => GUIResponse::Pic(
                *pos,
                *level,
                copy_list(players),
            ),
            GUIResponse::Pie(pos, success) => GUIResponse::Pie(*pos, *success),
            GUIResponse::Pfk(id) => GUIResponse::Pfk(*id),
            GUIResponse::Pdr(id, resource) => GUIResponse::Pdr(*id, *resource),
            GUIResponse::Pgt(id, resource) => GUIResponse::Pgt(*id, *resource),
            GUIResponse::Pdi(id) => GUIResponse::Pdi(*id),
            GUIResponse::Enw(egg, player, pos) => GUIResponse::Enw(*egg, *player, *pos),
            GUIResponse::Ebo(egg) => GUIResponse::Ebo(*egg),
            GUIResponse::Edi(egg) => GUIResponse::Edi(*egg),
            GUIResponse::Sgt(freq) => GUIResponse::Sgt(*freq),
            GUIResponse::Sst(freq) => GUIResponse::Sst(*freq),
            GUIResponse::Seg(team) => GUIResponse::Seg(copy_bytes(team.as_slice())),
            GUIResponse::Smg(words) => GUIResponse::Smg(copy_bytes(words.as_slice())),
        }
    }
}

impl ServerResponse {
    /// A copy of the answer.
    pub fn duplicate(&self) -> (copy: ServerResponse)
        ensures
            copy@ == self@,
    {
        match self {
            ServerResponse::AI(answer) => ServerResponse::AI(answer.duplicate()),
            ServerResponse::Gui(answer) => ServerResponse::Gui(answer.duplicate()),
            ServerResponse::Pending(answer) => ServerResponse::Pending(*answer),
        }
    }
}

/// Who receives an answer and what it receives, as plain values.
pub open spec fn deliveries_view(deliveries: Seq<(Id, ServerResponse)>) -> Seq<
    (Id, ServerResponseView),
> {
    deliveries.map_values(|delivery: (Id, ServerResponse)| (delivery.0, delivery.1@))
}

/// The answers of an outbox, each for every connection that it is meant for: an
/// answer for one connection goes to that connection, and an answer for the
/// observers goes to each observer in the order of the list. The order of the
/// answers is kept.
pub open spec fn spec_fan_out(outbox: Seq<OutgoingView>, observers: Seq<Id>) -> Seq<
    (Id, ServerResponseView),
>
    decreases outbox.len(),
{
    if outbox.len() == 0 {
        Seq::empty()
    } else {
        spec_fan_out(outbox.drop_last(), observers) + match outbox.last().to {
            Audience::Client(id) => seq![(id, outbox.last().response)],
            Audience::Observers => Seq::new(
                observers.len(),
                |k: int| (observers[k], outbox.last().response),
            ),
        }
    }
}

/// Gives every answer of the outbox to every connection that it is meant for.
pub fn fan_out(outbox: &Vec<Outgoing>, observers: &Vec<Id>) -> (deliveries: Vec<
    (Id, ServerResponse),
>)
    ensures
        deliveries_view(deliveries@) == spec_fan_out(outbox_view(outbox@), observers@),
{
    let mut deliveries: Vec<(Id, ServerResponse)> = Vec::new();
    let ghost all = outbox_view(outbox@);
    let mut i: usize = 0;
    assert(all.subrange(0, 0) =~= Seq::<OutgoingView>::empty());
    assert(deliveries_view(deliveries@) =~= spec_fan_out(all.subrange(0, 0), observers@));
    while i < outbox.len()
        invariant
            i <= outbox.len(),
            all == outbox_view(outbox@),
            deliveries_view(deliveries@) == spec_fan_out(all.subrange(0, i as int), observers@),
        decreases outbox.len() - i,
    {
        let ghost done = deliveries_view(deliveries@);
        let ghost upto = all.subrange(0, i + 1);
        assert(upto.drop_last() =~= all.subrange(0, i as int));
        assert(upto.last() == outbox@[i as int]@);
        match outbox[i].to {
            Audience::Client(id) => {
                deliveries.push((id, outbox[i].response.duplicate()));
                assert(deliveries_view(deliveries@) =~= done + seq![(id, upto.last().response)]);
            },
            Audience::Observers => {
                let mut k: usize = 0;
                assert(done =~= done + Seq::new(
                    0nat,
                    |j: int| (observers@[j], upto.last().response),
                ));
                while k < observers.len()
                    invariant
                        k <= observers.len(),
                        i < outbox.len(),
                        upto.last() == outbox@[i as int]@,
                        deliveries_view(deliveries@) == done + Seq::new(
                            k as nat,
                            |j: int| (observers@[j], upto.last().response),
                        ),
                    decreases observers.len() - k,
                {
                    let ghost earlier = deliveries_view(deliveries@);
                    deliveries.push((observers[k], outbox[i].response.duplicate()));
                    assert(deliveries_view(deliveries@) =~= earlier.push(
                        (observers@[k as int], upto.last().response),
                    ));
                    k += 1;
                    assert(deliveries_view(deliveries@) =~= done + Seq::new(
                        k as nat,
                        |j: int| (observers@[j], upto.last().response),
                    ));
                }
            },
        }
        i += 1;
    }
    assert(all.subrange(0, i as int) =~= all);
    deliveries
}

} // verus!
