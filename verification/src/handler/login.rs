//! The handler of a connection that has not logged in yet.
use crate::formater::{spec_uvec_text, UVecFormat};
use crate::handler::command::{CommandHandler, CommandRes, CommandResView, Handler, State};
use crate::protocol::{
    EventType, EventTypeView, GameEvent, HasId, Id, PendingAction, PendingResponse,
    ServerResponse, ServerResponseView, SharedAction, SharedResponse, TeamType,
};
use crate::text::{decimal, push_decimal, push_text, text, text_bytes};
use vstd::prelude::*;

verus! {

/// What the handler of a new connection makes of an answer: the log-in as observer or
/// as player changes the handler, the latter with the number of eggs left and the
/// size of the grid on two lines; the plain answers are spelled out; an answer meant
/// for another kind of connection is spelled `ko`.
pub open spec fn spec_login_handle(response: ServerResponseView) -> CommandResView {
    match response {
        ServerResponseView::Pending(PendingResponse::Shared(SharedResponse::Ko)) => CommandResView::Response(
            text("ko\n"),
        ),
        ServerResponseView::Pending(PendingResponse::Shared(SharedResponse::Okay)) => CommandResView::Response(
            text("ok\n"),
        ),
        ServerResponseView::Pending(PendingResponse::LogAs(TeamType::Graphic)) => CommandResView::BecomeGUI,
        ServerResponseView::Pending(
            PendingResponse::LogAs(TeamType::IA(eggs, size)),
        ) => CommandResView::BecomeAI(
            decimal(eggs as nat) + text("\n") + spec_uvec_text(size) + text("\n"),
        ),
        _ => CommandResView::Response(text("ko\n")),
    }
}

/// The handler of a connection that has not logged in yet.
pub struct LoginHandler(pub Handler);

impl LoginHandler {
    /// The handler of the connection `id`.
    pub fn new(id: Id) -> (handler: Self)
        ensures
            handler.0.id == id,
    {
        LoginHandler(Handler { id })
    }
}

impl HasId for LoginHandler {
    open spec fn spec_id(&self) -> Id {
        self.0.id
    }

    fn id(&self) -> (id: Id) {
        self.0.id
    }
}

impl CommandHandler for LoginHandler {
    open spec fn spec_validate(&self, cmd_name: Seq<u8>, args: Seq<u8>) -> EventTypeView {
        EventTypeView::PendingShared(self.0.id, SharedAction::InvalidAction)
    }

    open spec fn spec_parse(&self, line: Seq<u8>) -> EventTypeView {
        EventTypeView::Login(self.0.id, line)
    }

    open spec fn spec_handle(&self, response: ServerResponseView) -> CommandResView {
        spec_login_handle(response)
    }

    open spec fn spec_shared(&self, action: SharedAction) -> EventTypeView {
        EventTypeView::PendingShared(self.0.id, action)
    }

    /// A new connection has no verbs: a verb with arguments is reported as unreadable.
    fn validate_cmd(&self, _cmd_name: &[u8], _args: &[u8]) -> (event: EventType) {
        EventType::Pending(
            GameEvent { id: self.id(), action: PendingAction::Shared(SharedAction::InvalidAction) },
        )
    }

    /// Takes the whole line as the name of a team.
    fn parse_command(&mut self, team_name: Vec<u8>) -> (event: EventType)
        ensures
            *final(self) == *old(self),
    {
        EventType::Pending(GameEvent { id: self.id(), action: PendingAction::Login(team_name) })
    }

    /// Spells an answer of the server for a new connection.
    fn handle_command(&mut self, command: ServerResponse) -> (result: CommandRes)
        ensures
            *final(self) == *old(self),
    {
        match command {
            ServerResponse::Pending(response) => match response {
                PendingResponse::Shared(SharedResponse::Ko) => CommandRes::Response(
                    text_bytes("ko\n"),
                ),
                PendingResponse::Shared(SharedResponse::Okay) => CommandRes::Response(
                    text_bytes("ok\n"),
                ),
                PendingResponse::LogAs(TeamType::Graphic) => CommandRes::ChangeState(State::GUI),
                PendingResponse::LogAs(TeamType::IA(eggs, size)) => {
                    let mut out: Vec<u8> = Vec::new();
                    push_decimal(&mut out, eggs);
                    push_text(&mut out, "\n");
                    UVecFormat(&size).fmt(&mut out);
                    push_text(&mut out, "\n");
                    assert(out@ =~= decimal(eggs as nat) + text("\n") + spec_uvec_text(size) + text(
                        "\n",
                    ));
                    CommandRes::ChangeState(State::IA(out))
                },
            },
            ServerResponse::AI(_) => CommandRes::Response(text_bytes("ko\n")),
            ServerResponse::Gui(_) => CommandRes::Response(text_bytes("ko\n")),
        }
    }

    /// The request that reports `action` for this connection.
    fn create_shared_event(&self, action: SharedAction) -> (event: EventType) {
        EventType::Pending(GameEvent { id: self.id(), action: PendingAction::Shared(action) })
    }
}

} // verus!
