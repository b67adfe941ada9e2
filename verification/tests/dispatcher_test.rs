//! Tests for the dispatcher registry and its mailboxes.

use kazahane::dispatcher::Dispatcher;
use kazahane::dispatcher::MessageToConnection;
use kazahane::dispatcher::MessageToRoom;
use kazahane::dispatcher::MessageToServer;
use kazahane::dispatcher::ServerShutdownReason;
use kazahane::Identifier;

#[test]
fn connection_is_addressable_exactly_while_registered() {
    let mut d = Dispatcher::new();
    let id = Identifier::generate();
    assert!(d.connection_sender(&id).is_none());
    let _rx = d.register_connection(id);
    assert!(d.connection_sender(&id).is_some());
    d.drop_connection(&id);
    assert!(d.connection_sender(&id).is_none());
}

#[test]
fn room_is_addressable_exactly_while_registered() {
    let mut d = Dispatcher::new();
    let room = Identifier::generate();
    let other = Identifier::generate();
    assert!(d.room_sender(&room).is_none());
    let _rx = d.register_room(&room);
    assert!(d.room_sender(&room).is_some());
    assert!(d.room_sender(&other).is_none());
    d.drop_room(&room);
    assert!(d.room_sender(&room).is_none());
}

#[test]
fn message_flows_through_connection_mailbox() {
    let mut d = Dispatcher::new();
    let id = Identifier::generate();
    let mut rx = d.register_connection(id);
    let tx = d.connection_sender(&id).unwrap();
    tx.try_send(MessageToConnection::TestCountUpResponse { counter: 5 })
        .unwrap();
    match rx.try_recv().unwrap() {
        MessageToConnection::TestCountUpResponse { counter } => assert_eq!(counter, 5),
        other => panic!("unexpected message: {:?}", other),
    }
}

#[test]
fn message_flows_through_room_mailbox() {
    let mut d = Dispatcher::new();
    let room = Identifier::generate();
    let member = Identifier::generate();
    let mut rx = d.register_room(&room);
    let tx = d.room_sender(&room).unwrap();
    tx.try_send(MessageToRoom::Join {
        connection_id: member,
    })
    .unwrap();
    match rx.try_recv().unwrap() {
        MessageToRoom::Join { connection_id } => assert!(connection_id.eq_id(&member)),
        other => panic!("unexpected message: {:?}", other),
    }
}

#[test]
fn message_flows_through_server_mailbox() {
    let mut d = Dispatcher::new();
    assert!(d.server_sender().is_none());
    let mut rx = d.register_server();
    let tx = d.server_sender().unwrap();
    tx.try_send(MessageToServer::Shutdown {
        reason: ServerShutdownReason::SigTerm,
    })
    .unwrap();
    assert!(matches!(
        rx.try_recv().unwrap(),
        MessageToServer::Shutdown { .. }
    ));
}

#[test]
fn broadcast_snapshot_covers_every_connection() {
    let mut d = Dispatcher::new();
    let a = Identifier::generate();
    let b = Identifier::generate();
    let mut rx_a = d.register_connection(a);
    let mut rx_b = d.register_connection(b);
    let senders = d.all_connections();
    assert_eq!(senders.len(), 2);
    for tx in senders {
        tx.try_send(MessageToConnection::Shutdown {
            reason: ServerShutdownReason::SigTerm,
        })
        .unwrap();
    }
    assert!(matches!(
        rx_a.try_recv().unwrap(),
        MessageToConnection::Shutdown { .. }
    ));
    assert!(matches!(
        rx_b.try_recv().unwrap(),
        MessageToConnection::Shutdown { .. }
    ));
}

#[test]
fn reregistering_a_room_keeps_one_entry() {
    let mut d = Dispatcher::new();
    let room = Identifier::generate();
    let _rx1 = d.register_room(&room);
    let _rx2 = d.register_room(&room);
    assert!(d.room_sender(&room).is_some());
    d.drop_room(&room);
    assert!(d.room_sender(&room).is_none());
}
