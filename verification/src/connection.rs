//! The life of one connection: which handler reads its lines, what is passed on to the
//! server, what is written to the client, and when it ends.
use crate::constant::MAX_LINE_SIZE;
use crate::handler::ai::{spec_ai_handle, spec_ai_validate, AiHandler};
use crate::handler::command::{CommandHandler, CommandRes, CommandResView, State};
use crate::handler::graphics::{spec_gui_action, spec_gui_handle, GraphicHandler};
use crate::handler::login::{spec_login_handle, LoginHandler};
use crate::protocol::{
    EventType, EventTypeView, GUIAction, Id, ServerResponse, ServerResponseView, SharedAction,
};
use crate::text::{copy_bytes, spec_split_command, spec_trim_end, text, text_bytes, trim_end};
use vstd::prelude::*;

verus! {

/// Why a connection has ended.
#[derive(Debug, Clone, Copy, PartialEq, Eq, Structural)]
pub enum ConnectionError {
    /// The client has closed the connection.
    Disconnected,
    /// The server has closed the connection: the player is dead.
    ForciblyClosedByServer,
    /// The server no longer takes requests.
    ServerChannelError,
    /// Writing to the client has failed.
    IoError,
    /// Writing to the client has taken too long.
    Timeout,
}

/// What can go wrong when a line is read.
#[derive(Debug, Clone, Copy, PartialEq, Eq, Structural)]
pub enum RecvError {
    Closed,
    InvalidUTF8,
    ReachedTakeLimit,
}

/// What happens to a connection: the client sends a line, reading fails, or the
/// server answers.
pub enum ConnectionEvent {
    ClientMessage(Vec<u8>),
    ClientError(RecvError),
    ServerResponse(ServerResponse),
}

/// Which handler a connection has.
#[derive(Debug, Clone, Copy, PartialEq, Eq, Structural)]
pub enum HandlerKind {
    Pending,
    AI,
    GUI,
}

/// A connection: its handle and the handler it has at the moment.
#[derive(Debug, Clone, Copy, PartialEq, Eq, Structural)]
pub struct Connection {
    pub id: Id,
    pub kind: HandlerKind,
}

/// What is to be done after something has happened to a connection: a request to
/// pass on to the server, a text to write to the client, and, where the connection
/// ends, why.
pub struct Step {
    pub to_server: Option<EventType>,
    pub to_client: Option<Vec<u8>>,
    pub outcome: Option<ConnectionError>,
}

/// A step as a plain value.
pub ghost struct StepView {
    pub to_server: Option<EventTypeView>,
    pub to_client: Option<Seq<u8>>,
    pub outcome: Option<ConnectionError>,
}

impl View for Step {
    type V = StepView;

    open spec fn view(&self) -> StepView {
        StepView {
            to_server: match self.to_server {
                Some(event) => Some(event@),
                None => None,
            },
            to_client: match self.to_client {
                Some(words) => Some(words@),
                None => None,
            },
            outcome: self.outcome,
        }
    }
}

/// What reading gives: `None` for a line to be handled, or what went wrong. A read
/// that failed counts as invalid text, a read of nothing as the end of the
/// connection, and a line of more than 8193 bytes as too long.
pub open spec fn spec_read_outcome(read: Option<usize>) -> Option<RecvError> {
    match read {
        None => Some(RecvError::InvalidUTF8),
        Some(bytes) => if bytes == 0 {
            Some(RecvError::Closed)
        } else if bytes > MAX_LINE_SIZE {
            Some(RecvError::ReachedTakeLimit)
        } else {
            None
        },
    }
}

/// Judges what a read has given: the number of bytes read, or nothing if the read
/// failed.
pub fn read_outcome(read: Option<usize>) -> (error: Option<RecvError>)
    ensures
        error == spec_read_outcome(read),
{
    match read {
        None => Some(RecvError::InvalidUTF8),
        Some(bytes) => if bytes == 0 {
            Some(RecvError::Closed)
        } else if bytes > MAX_LINE_SIZE {
            Some(RecvError::ReachedTakeLimit)
        } else {
            None
        },
    }
}

impl Connection {
    /// The request that a line stands for, by the handler of the connection. The
    /// handler of a new connection takes the whole line as the name of a team; the
    /// other two cut it at the first space into verb and arguments.
    pub open spec fn spec_parse(self, line: Seq<u8>) -> EventTypeView {
        match self.kind {
            HandlerKind::Pending => EventTypeView::Login(self.id, line),
            HandlerKind::AI => spec_ai_validate(
                self.id,
                spec_split_command(line).0,
                spec_split_command(line).1,
            ),
            HandlerKind::GUI => EventTypeView::GUI(
                self.id,
                spec_gui_action(spec_split_command(line).0, spec_split_command(line).1),
            ),
        }
    }

    /// The request that reports `action` for this connection.
    pub open spec fn spec_shared(self, action: SharedAction) -> EventTypeView {
        match self.kind {
            HandlerKind::Pending => EventTypeView::PendingShared(self.id, action),
            HandlerKind::AI => EventTypeView::AIShared(self.id, action),
            HandlerKind::GUI => EventTypeView::GUI(self.id, GUIAction::Shared(action)),
        }
    }

    /// What the handler of the connection makes of an answer of the server.
    pub open spec fn spec_handle(self, response: ServerResponseView) -> CommandResView {
        match self.kind {
            HandlerKind::Pending => spec_login_handle(response),
            HandlerKind::AI => spec_ai_handle(response),
            HandlerKind::GUI => spec_gui_handle(response),
        }
    }

    /// The step that ends the connection for the given reason: the server is told
    /// that the connection is gone.
    pub open spec fn spec_ending(self, reason: ConnectionError) -> StepView {
        StepView {
            to_server: Some(self.spec_shared(SharedAction::Disconnected)),
            to_client: None,
            outcome: Some(reason),
        }
    }

    /// What is to be done after an answer of the server, by what the handler makes
    /// of it. A text is written to the client; a change to the handler of players
    /// writes its text too; a change to the handler of observers writes nothing; and
    /// the death notice is written and ends the connection.
    pub open spec fn spec_after_answer(self, made: CommandResView) -> (HandlerKind, StepView) {
        match made {
            CommandResView::BecomeAI(words) => (
                HandlerKind::AI,
                StepView { to_server: None, to_client: Some(words), outcome: None },
            ),
            CommandResView::BecomeGUI => (
                HandlerKind::GUI,
                StepView { to_server: None, to_client: None, outcome: None },
            ),
            CommandResView::Response(words) => (
                self.kind,
                StepView { to_server: None, to_client: Some(words), outcome: None },
            ),
            CommandResView::BecomeDead(words) => (
                self.kind,
                StepView {
                    to_server: Some(self.spec_shared(SharedAction::Disconnected)),
                    to_client: Some(words),
                    outcome: Some(ConnectionError::ForciblyClosedByServer),
                },
            ),
        }
    }

    /// A new connection with the handler of new connections, and the greeting that
    /// is written to the client.
    pub fn new(id: Id) -> (made: (Connection, Vec<u8>))
        ensures
            made.0 == (Connection { id, kind: HandlerKind::Pending }),
            made.1@ == text("WELCOME\n"),
    {
        (Connection { id, kind: HandlerKind::Pending }, text_bytes("WELCOME\n"))
    }

    /// The request that reports `action` for this connection.
    pub fn create_shared_event(&self, action: SharedAction) -> (event: EventType)
        ensures
            event@ == self.spec_shared(action),
    {
        match self.kind {
            HandlerKind::Pending => LoginHandler::new(self.id).create_shared_event(action),
            HandlerKind::AI => AiHandler::new(self.id).create_shared_event(action),
            HandlerKind::GUI => GraphicHandler::new(self.id).create_shared_event(action),
        }
    }

    /// The request that a line stands for, by the handler of the connection.
    pub fn parse_command(&self, line: Vec<u8>) -> (event: EventType)
        ensures
            event@ == self.spec_parse(line@),
    {
        match self.kind {
            HandlerKind::Pending => {
                let mut handler = LoginHandler::new(self.id);
                handler.parse_command(line)
            },
            HandlerKind::AI => {
                let mut handler = AiHandler::new(self.id);
                handler.parse_command(line)
            },
            HandlerKind::GUI => {
                let mut handler = GraphicHandler::new(self.id);
                handler.parse_command(line)
            },
        }
    }

    /// What the handler of the connection makes of an answer of the server.
    pub fn handle_command(&self, response: ServerResponse) -> (made: CommandRes)
        ensures
            made@ == self.spec_handle(response@),
    {
        match self.kind {
            HandlerKind::Pending => {
                let mut handler = LoginHandler::new(self.id);
                handler.handle_command(response)
            },
            HandlerKind::AI => {
                let mut handler = AiHandler::new(self.id);
                handler.handle_command(response)
            },
            HandlerKind::GUI => {
                let mut handler = GraphicHandler::new(self.id);
                handler.handle_command(response)
            },
        }
    }

    /// The step that ends the connection for the given reason.
    pub fn ending(&self, reason: ConnectionError) -> (step: Step)
        ensures
            step@ == self.spec_ending(reason),
    {
        Step {
            to_server: Some(self.create_shared_event(SharedAction::Disconnected)),
            to_client: None,
            outcome: Some(reason),
        }
    }

    /// What is to be done after writing to the client has failed: the connection
    /// ends, as timed out or as broken.
    pub fn write_failed(&self, timed_out: bool) -> (step: Step)
        ensures
            step@ == self.spec_ending(
                if timed_out {
                    ConnectionError::Timeout
                } else {
                    ConnectionError::IoError
                },
            ),
    {
        if timed_out {
            self.ending(ConnectionError::Timeout)
        } else {
            self.ending(ConnectionError::IoError)
        }
    }

    /// Takes in what has happened to the connection and says what is to be done. A
    /// line is stripped of trailing white space, read by the handler and passed on
    /// to the server. A closed connection ends; text that cannot be read and a line
    /// that is too long are reported to the server, and the connection goes on. An
    /// answer of the server is spelled by the handler, which may change with it.
    pub fn handle(&mut self, event: ConnectionEvent) -> (step: Step)
        ensures
            final(self).id == old(self).id,
            match event {
                ConnectionEvent::ClientMessage(line) => final(self).kind == old(self).kind
                    && step@ == (StepView {
                    to_server: Some(old(self).spec_parse(spec_trim_end(line@))),
                    to_client: None,
                    outcome: None,
                }),
                ConnectionEvent::ClientError(RecvError::Closed) => final(self).kind == old(
                    self).kind && step@ == old(self).spec_ending(ConnectionError::Disconnected),
                ConnectionEvent::ClientError(RecvError::InvalidUTF8) => final(self).kind == old(
                    self).kind && step@ == (StepView {
                    to_server: Some(old(self).spec_shared(SharedAction::InvalidEncoding)),
                    to_client: None,
                    outcome: None,
                }),
                ConnectionEvent::ClientError(RecvError::ReachedTakeLimit) => final(self).kind
                    == old(self).kind && step@ == (StepView {
                    to_server: Some(old(self).spec_shared(SharedAction::ReachedTakeLimit)),
                    to_client: None,
                    outcome: None,
                }),
                ConnectionEvent::ServerResponse(response) => (final(self).kind, step@) == old(
                    self).spec_after_answer(old(self).spec_handle(response@)),
            },
    {
        match event {
            ConnectionEvent::ClientMessage(line) => {
                let trimmed = copy_bytes(trim_end(line.as_slice()));
                Step { to_server: Some(self.parse_command(trimmed)), to_client: None, outcome: None }
            },
            ConnectionEvent::ClientError(RecvError::Closed) => self.ending(
                ConnectionError::Disconnected,
            ),
            ConnectionEvent::ClientError(RecvError::InvalidUTF8) => Step {
                to_server: Some(self.create_shared_event(SharedAction::InvalidEncoding)),
                to_client: None,
                outcome: None,
            },
            ConnectionEvent::ClientError(RecvError::ReachedTakeLimit) => Step {
                to_server: Some(self.create_shared_event(SharedAction::ReachedTakeLimit)),
                to_client: None,
                outcome: None,
            },
            ConnectionEvent::ServerResponse(response) => match self.handle_command(response) {
                CommandRes::ChangeState(State::IA(words)) => {
                    self.kind = HandlerKind::AI;
                    Step { to_server: None, to_client: Some(words), outcome: None }
                },
                CommandRes::ChangeState(State::GUI) => {
                    self.kind = HandlerKind::GUI;
                    Step { to_server: None, to_client: None, outcome: None }
                },
                CommandRes::Response(words) => Step {
                    to_server: None,
                    to_client: Some(words),
                    outcome: None,
                },
                CommandRes::ChangeState(State::DEAD(words)) => Step {
                    to_server: Some(self.create_shared_event(SharedAction::Disconnected)),
                    to_client: Some(words),
                    outcome: Some(ConnectionError::ForciblyClosedByServer),
                },
            },
        }
    }
}

} // verus!
