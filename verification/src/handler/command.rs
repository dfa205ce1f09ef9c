//! What the three kinds of handler have in common.
use crate::protocol::{
    EventType, EventTypeView, HasId, ServerResponse, ServerResponseView, SharedAction,
};
use vstd::prelude::*;

verus! {

/// The kind of handler that a connection turns to, with the text that announces the
/// turn to the client.
pub enum State {
    IA(Vec<u8>),
    GUI,
    DEAD(Vec<u8>),
}

/// What a handler makes of an answer of the server: a change of handler, or a text for
/// the client.
pub enum CommandRes {
    ChangeState(State),
    Response(Vec<u8>),
}

/// What a handler makes of an answer, as a plain value.
pub ghost enum CommandResView {
    BecomeAI(Seq<u8>),
    BecomeGUI,
    BecomeDead(Seq<u8>),
    Response(Seq<u8>),
}

impl View for CommandRes {
    type V = CommandResView;

    open spec fn view(&self) -> CommandResView {
        match *self {
            CommandRes::ChangeState(State::IA(text)) => CommandResView::BecomeAI(text@),
            CommandRes::ChangeState(State::GUI) => CommandResView::BecomeGUI,
            CommandRes::ChangeState(State::DEAD(text)) => CommandResView::BecomeDead(text@),
            CommandRes::Response(text) => CommandResView::Response(text@),
        }
    }
}

/// A handler reads the lines of one kind of connection and spells the answers of the
/// server for it.
pub trait CommandHandler: HasId {
    /// The request that a verb and its arguments stand for.
    spec fn spec_validate(&self, cmd_name: Seq<u8>, args: Seq<u8>) -> EventTypeView;

    /// The request that a line stands for.
    spec fn spec_parse(&self, line: Seq<u8>) -> EventTypeView;

    /// What the handler makes of an answer.
    spec fn spec_handle(&self, response: ServerResponseView) -> CommandResView;

    /// The request that reports `action` for this connection.
    spec fn spec_shared(&self, action: SharedAction) -> EventTypeView;

    fn validate_cmd(&self, cmd_name: &[u8], args: &[u8]) -> (event: EventType)
        ensures
            event@ == self.spec_validate(cmd_name@, args@),
    ;

    fn parse_command(&mut self, command: Vec<u8>) -> (event: EventType)
        ensures
            event@ == old(self).spec_parse(command@),
            final(self).spec_id() == old(self).spec_id(),
    ;

    fn handle_command(&mut self, command: ServerResponse) -> (result: CommandRes)
        ensures
            result@ == old(self).spec_handle(command@),
            final(self).spec_id() == old(self).spec_id(),
    ;

    fn create_shared_event(&self, action: SharedAction) -> (event: EventType)
        ensures
            event@ == self.spec_shared(action),
    ;
}

/// What every handler holds: the handle of its connection.
pub struct Handler {
    pub id: u64,
}

} // verus!
