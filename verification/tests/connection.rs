use zappy_server::connection::{
    read_outcome, Connection, ConnectionError, ConnectionEvent, HandlerKind, RecvError,
};
use zappy_server::event::Event;
use zappy_server::protocol::{
    AIAction, AIResponse, EventType, GUIAction, GUIResponse, PendingAction, PendingResponse,
    ServerResponse, SharedAction, SharedResponse, TeamType,
};
use zappy_server::vec2::Size;

#[test]
fn reads_are_judged_by_their_length() {
    assert_eq!(read_outcome(None), Some(RecvError::InvalidUTF8));
    assert_eq!(read_outcome(Some(0)), Some(RecvError::Closed));
    assert_eq!(read_outcome(Some(1)), None);
    assert_eq!(read_outcome(Some(8193)), None);
    assert_eq!(read_outcome(Some(8194)), Some(RecvError::ReachedTakeLimit));
}

#[test]
fn a_new_connection_is_greeted() {
    let (connection, greeting) = Connection::new(9);
    assert_eq!(greeting, b"WELCOME\n".to_vec());
    assert_eq!(connection, Connection { id: 9, kind: HandlerKind::Pending });
}

#[test]
fn a_connection_logs_in_as_a_player_and_dies() {
    let (mut connection, _) = Connection::new(2);
    let step = connection.handle(ConnectionEvent::ClientMessage(b"alpha\r\n".to_vec()));
    assert!(matches!(
        &step.to_server,
        Some(EventType::Pending(event))
            if event.id == 2 && matches!(&event.action, PendingAction::Login(name) if name == b"alpha")
    ));
    assert!(step.to_client.is_none() && step.outcome.is_none());
    let step = connection.handle(ConnectionEvent::ServerResponse(ServerResponse::Pending(
        PendingResponse::Shared(SharedResponse::Ko),
    )));
    assert_eq!(step.to_client, Some(b"ko\n".to_vec()));
    assert_eq!(connection.kind, HandlerKind::Pending);
    let step = connection.handle(ConnectionEvent::ServerResponse(ServerResponse::Pending(
        PendingResponse::LogAs(TeamType::IA(0, Size::new(5, 5))),
    )));
    assert_eq!(step.to_client, Some(b"0\n5 5\n".to_vec()));
    assert!(step.to_server.is_none() && step.outcome.is_none());
    assert_eq!(connection.kind, HandlerKind::AI);
    let step = connection.handle(ConnectionEvent::ClientMessage(b"Take food \n".to_vec()));
    assert!(matches!(
        &step.to_server,
        Some(EventType::AI(event))
            if event.id == 2 && matches!(event.action, AIAction::Action(Event::Take(_)))
    ));
    let step = connection.handle(ConnectionEvent::ClientError(RecvError::ReachedTakeLimit));
    assert!(matches!(
        &step.to_server,
        Some(EventType::AI(event))
            if matches!(event.action, AIAction::Shared(SharedAction::ReachedTakeLimit))
    ));
    assert!(step.outcome.is_none());
    let step = connection.handle(ConnectionEvent::ClientError(RecvError::InvalidUTF8));
    assert!(matches!(
        &step.to_server,
        Some(EventType::AI(event))
            if matches!(event.action, AIAction::Shared(SharedAction::InvalidEncoding))
    ));
    let step = connection.handle(ConnectionEvent::ServerResponse(ServerResponse::AI(
        AIResponse::Shared(SharedResponse::Okay),
    )));
    assert_eq!(step.to_client, Some(b"ok\n".to_vec()));
    let step = connection.handle(ConnectionEvent::ServerResponse(ServerResponse::AI(
        AIResponse::Dead,
    )));
    assert_eq!(step.to_client, Some(b"dead\n".to_vec()));
    assert_eq!(step.outcome, Some(ConnectionError::ForciblyClosedByServer));
    assert!(matches!(
        &step.to_server,
        Some(EventType::AI(event))
            if event.id == 2 && matches!(event.action, AIAction::Shared(SharedAction::Disconnected))
    ));
}

#[test]
fn a_connection_logs_in_as_an_observer_and_leaves() {
    let (mut connection, _) = Connection::new(4);
    let step = connection.handle(ConnectionEvent::ServerResponse(ServerResponse::Pending(
        PendingResponse::LogAs(TeamType::Graphic),
    )));
    assert!(step.to_client.is_none() && step.to_server.is_none() && step.outcome.is_none());
    assert_eq!(connection.kind, HandlerKind::GUI);
    let step = connection.handle(ConnectionEvent::ClientMessage(b"sst 10\n".to_vec()));
    assert!(matches!(
        &step.to_server,
        Some(EventType::GUI(event)) if event.id == 4 && event.action == GUIAction::Sst(10)
    ));
    let step = connection.handle(ConnectionEvent::ServerResponse(ServerResponse::Gui(
        GUIResponse::Sst(10),
    )));
    assert_eq!(step.to_client, Some(b"sst 10\n".to_vec()));
    let step = connection.handle(ConnectionEvent::ClientError(RecvError::Closed));
    assert_eq!(step.outcome, Some(ConnectionError::Disconnected));
    assert!(step.to_client.is_none());
    assert!(matches!(
        &step.to_server,
        Some(EventType::GUI(event))
            if event.action == GUIAction::Shared(SharedAction::Disconnected)
    ));
}

#[test]
fn a_failed_write_ends_the_connection() {
    let (connection, _) = Connection::new(6);
    let step = connection.write_failed(true);
    assert_eq!(step.outcome, Some(ConnectionError::Timeout));
    assert!(matches!(
        &step.to_server,
        Some(EventType::Pending(event))
            if event.id == 6 && matches!(event.action, PendingAction::Shared(SharedAction::Disconnected))
    ));
    assert_eq!(connection.write_failed(false).outcome, Some(ConnectionError::IoError));
    assert_eq!(
        connection.ending(ConnectionError::ServerChannelError).outcome,
        Some(ConnectionError::ServerChannelError)
    );
}
