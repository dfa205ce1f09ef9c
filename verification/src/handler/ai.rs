//! The handler of a player's connection.
use crate::event::Event;
use crate::formater::{
    spec_inventory_text, spec_level_text, spec_look_text, InventoryFormat, LevelFormat,
    LookFormat,
};
use crate::handler::command::{CommandHandler, CommandRes, CommandResView, Handler, State};
use crate::protocol::{
    AIAction, AIResponse, AIResponseView, EventType, EventTypeView, EventView, GameEvent, HasId,
    Id, ServerResponse, ServerResponseView, SharedAction, SharedResponse,
};
use crate::resources::Resource;
use crate::text::{
    copy_bytes, decimal, is_text, lowercase, push_bytes, push_decimal, push_text, spec_lowercase,
    spec_split_command, split_command, text, text_bytes,
};
use vstd::prelude::*;

verus! {

/// The resource that a lower-case name stands for.
pub open spec fn spec_parse_resource(name: Seq<u8>) -> Option<Resource> {
    if name == text("food") {
        Some(Resource::Food)
    } else if name == text("linemate") {
        Some(Resource::Linemate)
    } else if name == text("deraumere") {
        Some(Resource::Deraumere)
    } else if name == text("sibur") {
        Some(Resource::Sibur)
    } else if name == text("mendiane") {
        Some(Resource::Mendiane)
    } else if name == text("phiras") {
        Some(Resource::Phiras)
    } else if name == text("thystame") {
        Some(Resource::Thystame)
    } else {
        None
    }
}

/// The resource that a lower-case name stands for.
pub fn parse_resource(resource_name: &[u8]) -> (resource: Option<Resource>)
    ensures
        resource == spec_parse_resource(resource_name@),
{
    if is_text(resource_name, "food") {
        Some(Resource::Food)
    } else if is_text(resource_name, "linemate") {
        Some(Resource::Linemate)
    } else if is_text(resource_name, "deraumere") {
        Some(Resource::Deraumere)
    } else if is_text(resource_name, "sibur") {
        Some(Resource::Sibur)
    } else if is_text(resource_name, "mendiane") {
        Some(Resource::Mendiane)
    } else if is_text(resource_name, "phiras") {
        Some(Resource::Phiras)
    } else if is_text(resource_name, "thystame") {
        Some(Resource::Thystame)
    } else {
        None
    }
}

/// The event that a player's verb and arguments stand for, if they are a command of
/// the grammar. The verbs without arguments take none; `Broadcast`, `Take` and `Set`
/// need some. The name of a resource is read without regard to ASCII case.
pub open spec fn spec_ai_action(cmd_name: Seq<u8>, args: Seq<u8>) -> Option<EventView> {
    if args.len() == 0 {
        if cmd_name == text("Forward") {
            Some(EventView::Forward)
        } else if cmd_name == text("Right") {
            Some(EventView::Right)
        } else if cmd_name == text("Left") {
            Some(EventView::Left)
        } else if cmd_name == text("Look") {
            Some(EventView::Look)
        } else if cmd_name == text("Inventory") {
            Some(EventView::Inventory)
        } else if cmd_name == text("Connect_nbr") {
            Some(EventView::ConnectNbr)
        } else if cmd_name == text("Fork") {
            Some(EventView::Fork)
        } else if cmd_name == text("Eject") {
            Some(EventView::Eject)
        } else if cmd_name == text("Incantation") {
            Some(EventView::Incantation)
        } else {
            None
        }
    } else if cmd_name == text("Broadcast") {
        Some(EventView::Broadcast(args))
    } else if cmd_name == text("Take") {
        match spec_parse_resource(spec_lowercase(args)) {
            Some(resource) => Some(EventView::Take(resource)),
            None => None,
        }
    } else if cmd_name == text("Set") {
        match spec_parse_resource(spec_lowercase(args)) {
            Some(resource) => Some(EventView::SetObject(resource)),
            None => None,
        }
    } else {
        None
    }
}

/// The request of the player `id` that a verb and its arguments stand for: the event
/// of the grammar, or the report of an unreadable command.
pub open spec fn spec_ai_validate(id: Id, cmd_name: Seq<u8>, args: Seq<u8>) -> EventTypeView {
    match spec_ai_action(cmd_name, args) {
        Some(event) => EventTypeView::AIAction(id, event),
        None => EventTypeView::AIShared(id, SharedAction::InvalidAction),
    }
}

/// The text that a player reads for an answer of the server.
pub open spec fn spec_ai_line(response: AIResponseView) -> Seq<u8> {
    match response {
        AIResponseView::Shared(SharedResponse::Ko) => text("ko\n"),
        AIResponseView::Shared(SharedResponse::Okay) => text("ok\n"),
        AIResponseView::Dead => text("dead\n"),
        AIResponseView::Broadcast(sector, words) => text("message ") + decimal(sector as nat)
            + text(", ") + words + text("\n"),
        AIResponseView::Incantating => text("Elevation underway\n"),
        AIResponseView::LevelUp(level) => text("Current level: ") + spec_level_text(level) + text(
            "\n",
        ),
        AIResponseView::Inventory(bag) => spec_inventory_text(bag) + text("\n"),
        AIResponseView::ConnectNbr(eggs) => decimal(eggs as nat) + text("\n"),
        AIResponseView::Eject(sector) => text("eject ") + decimal(sector as nat) + text("\n"),
        AIResponseView::Look(cells) => spec_look_text(cells) + text("\n"),
    }
}

/// What the handler of a player makes of an answer: the death notice closes the
/// connection, every other answer for players is spelled out, and an answer meant
/// for another kind of connection is spelled `ko`.
pub open spec fn spec_ai_handle(response: ServerResponseView) -> CommandResView {
    match response {
        ServerResponseView::AI(AIResponseView::Dead) => CommandResView::BecomeDead(
            text("dead\n"),
        ),
        ServerResponseView::AI(answer) => CommandResView::Response(spec_ai_line(answer)),
        _ => CommandResView::Response(text("ko\n")),
    }
}

/// The handler of a player's connection.
pub struct AiHandler(pub Handler);

impl AiHandler {
    /// The handler of the connection `id`.
    pub fn new(id: u64) -> (handler: Self)
        ensures
            handler.0.id == id,
    {
        AiHandler(Handler { id })
    }
}

impl HasId for AiHandler {
    open spec fn spec_id(&self) -> Id {
        self.0.id
    }

    fn id(&self) -> (id: Id) {
        self.0.id
    }
}

impl CommandHandler for AiHandler {
    open spec fn spec_validate(&self, cmd_name: Seq<u8>, args: Seq<u8>) -> EventTypeView {
        spec_ai_validate(self.0.id, cmd_name, args)
    }

    open spec fn spec_parse(&self, line: Seq<u8>) -> EventTypeView {
        spec_ai_validate(self.0.id, spec_split_command(line).0, spec_split_command(line).1)
    }

    open spec fn spec_handle(&self, response: ServerResponseView) -> CommandResView {
        spec_ai_handle(response)
    }

    open spec fn spec_shared(&self, action: SharedAction) -> EventTypeView {
        EventTypeView::AIShared(self.0.id, action)
    }

    /// Reads a verb and its arguments by the grammar of the players.
    fn validate_cmd(&self, cmd_name: &[u8], args: &[u8]) -> (event: EventType) {
        let invalid = AIAction::Shared(SharedAction::InvalidAction);
        let action = if args.len() == 0 {
            if is_text(cmd_name, "Forward") {
                AIAction::Action(Event::Forward)
            } else if is_text(cmd_name, "Right") {
                AIAction::Action(Event::Right)
            } else if is_text(cmd_name, "Left") {
                AIAction::Action(Event::Left)
            } else if is_text(cmd_name, "Look") {
                AIAction::Action(Event::Look)
            } else if is_text(cmd_name, "Inventory") {
                AIAction::Action(Event::Inventory)
            } else if is_text(cmd_name, "Connect_nbr") {
                AIAction::Action(Event::ConnectNbr)
            } else if is_text(cmd_name, "Fork") {
                AIAction::Action(Event::Fork)
            } else if is_text(cmd_name, "Eject") {
                AIAction::Action(Event::Eject)
            } else if is_text(cmd_name, "Incantation") {
                AIAction::Action(Event::Incantation)
            } else {
                invalid
            }
        } else if is_text(cmd_name, "Broadcast") {
            AIAction::Action(Event::Broadcast(copy_bytes(args)))
        } else if is_text(cmd_name, "Take") {
            let lowered = lowercase(args);
            match parse_resource(lowered.as_slice()) {
                Some(resource) => AIAction::Action(Event::Take(resource)),
                None => invalid,
            }
        } else if is_text(cmd_name, "Set") {
            let lowered = lowercase(args);
            match parse_resource(lowered.as_slice()) {
                Some(resource) => AIAction::Action(Event::SetObject(resource)),
                None => invalid,
            }
        } else {
            invalid
        };
        EventType::AI(GameEvent { id: self.id(), action })
    }

    /// Cuts a line into verb and arguments and reads them.
    fn parse_command(&mut self, full_cmd: Vec<u8>) -> (event: EventType)
        ensures
            *final(self) == *old(self),
    {
        let parts = split_command(full_cmd.as_slice());
        self.validate_cmd(parts.0, parts.1)
    }

    /// Spells an answer of the server for a player.
    fn handle_command(&mut self, command: ServerResponse) -> (result: CommandRes)
        ensures
            *final(self) == *old(self),
    {
        let mut out: Vec<u8> = Vec::new();
        match command {
            ServerResponse::AI(response) => match response {
                AIResponse::Shared(SharedResponse::Ko) => {
                    CommandRes::Response(text_bytes("ko\n"))
                },
                AIResponse::Shared(SharedResponse::Okay) => {
                    CommandRes::Response(text_bytes("ok\n"))
                },
                AIResponse::Dead => CommandRes::ChangeState(State::DEAD(text_bytes("dead\n"))),
                AIResponse::Broadcast(sector, words) => {
                    push_text(&mut out, "message ");
                    push_decimal(&mut out, sector as u64);
                    push_text(&mut out, ", ");
                    push_bytes(&mut out, words.as_slice());
                    push_text(&mut out, "\n");
                    assert(out@ =~= spec_ai_line(AIResponseView::Broadcast(sector, words@)));
                    CommandRes::Response(out)
                },
                AIResponse::Inventory(bag) => {
                    InventoryFormat(&bag).fmt(&mut out);
                    push_text(&mut out, "\n");
                    assert(out@ =~= spec_ai_line(AIResponseView::Inventory(bag)));
                    CommandRes::Response(out)
                },
                AIResponse::ConnectNbr(eggs) => {
                    push_decimal(&mut out, eggs);
                    push_text(&mut out, "\n");
                    assert(out@ =~= spec_ai_line(AIResponseView::ConnectNbr(eggs)));
                    CommandRes::Response(out)
                },
                AIResponse::Eject(sector) => {
                    push_text(&mut out, "eject ");
                    push_decimal(&mut out, sector as u64);
                    push_text(&mut out, "\n");
                    assert(out@ =~= spec_ai_line(AIResponseView::Eject(sector)));
                    CommandRes::Response(out)
                },
                AIResponse::Incantating => CommandRes::Response(
                    text_bytes("Elevation underway\n"),
                ),
                AIResponse::LevelUp(level) => {
                    push_text(&mut out, "Current level: ");
                    LevelFormat(&level).fmt(&mut out);
                    push_text(&mut out, "\n");
                    assert(out@ =~= spec_ai_line(AIResponseView::LevelUp(level)));
                    CommandRes::Response(out)
                },
                AIResponse::Look(cells) => {
                    LookFormat(&cells).fmt(&mut out);
                    push_text(&mut out, "\n");
                    assert(out@ =~= spec_ai_line(AIResponseView::Look(cells@)));
                    CommandRes::Response(out)
                },
            },
            ServerResponse::Gui(_) => CommandRes::Response(text_bytes("ko\n")),
            ServerResponse::Pending(_) => CommandRes::Response(text_bytes("ko\n")),
        }
    }

    /// The request that reports `action` for this player.
    fn create_shared_event(&self, action: SharedAction) -> (event: EventType) {
        EventType::AI(GameEvent { id: self.id(), action: AIAction::Shared(action) })
    }
}

} // verus!
