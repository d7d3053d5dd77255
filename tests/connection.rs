use aerox::{Connection, ConnectionId, ConnectionIdGenerator, ConnectionState};

#[test]
fn connection_test_connection_id() {
    let id1 = ConnectionId::new(1);
    let id2 = ConnectionId::new(2);
    assert_ne!(id1, id2);
    assert_eq!(id1.value(), 1);
}

#[test]
fn id_test_connection_id() {
    let id1 = ConnectionId::new(1);
    let id2 = ConnectionId::new(2);
    assert_ne!(id1, id2);
    assert_eq!(id1.value(), 1);
}

#[test]
fn test_connection_id_generation() {
    let id1 = ConnectionId::new(1);
    let id2 = ConnectionId::new(2);
    assert_ne!(id1, id2);
}

#[test]
fn connection_test_id_generator() {
    let mut generator = ConnectionIdGenerator::new();
    let id1 = generator.next();
    let id2 = generator.next();
    assert_eq!(id1.value(), 1);
    assert_eq!(id2.value(), 2);
}

#[test]
fn id_test_id_generator() {
    let mut generator = ConnectionIdGenerator::new();
    let id1 = generator.next();
    let id2 = generator.next();
    assert_eq!(id1.value(), 1);
    assert_eq!(id2.value(), 2);
}

#[test]
fn connection_test_connection_age() {
    let id = ConnectionId::new(1);
    let conn = Connection::new(id, "127.0.0.1:8080".to_string(), 1_000);
    assert!(conn.age(1_050) < 100);
}

#[test]
fn id_test_connection_age() {
    let id = ConnectionId::new(1);
    let conn = Connection::new(id, "127.0.0.1:8080".to_string(), 1_000);
    assert!(conn.age(1_000) < 100);
}

#[test]
fn connection_test_connection_idle_time() {
    let id = ConnectionId::new(1);
    let mut conn = Connection::new(id, "127.0.0.1:8080".to_string(), 5_000);
    assert!(conn.idle_time(5_010) < 100);
    conn.update_active(5_020);
    assert!(conn.idle_time(5_030) < 100);
}

#[test]
fn id_test_connection_idle_time() {
    let id = ConnectionId::new(1);
    let mut conn = Connection::new(id, "127.0.0.1:8080".to_string(), 0);
    assert!(conn.idle_time(1) < 100);
    conn.update_active(2);
    assert!(conn.idle_time(2) < 100);
}

#[test]
fn ids_strictly_increase_and_never_repeat() {
    let mut generator = ConnectionIdGenerator::new();
    let mut last = 0u64;
    for _ in 0..1000 {
        let id = generator.next().value();
        assert!(id > last);
        last = id;
    }
    assert_eq!(last, 1000);
}

#[test]
fn connection_id_text_is_decimal() {
    assert_eq!(ConnectionId::new(0).to_string(), "0");
    assert_eq!(ConnectionId::new(1234567890).to_string(), "1234567890");
}

#[test]
fn closed_connection_is_not_touched() {
    let mut conn = Connection::new(ConnectionId::new(3), "peer".to_string(), 10);
    assert_eq!(conn.state, ConnectionState::Connected);
    conn.close();
    conn.update_active(50);
    assert_eq!(conn.state, ConnectionState::Closed);
    assert_eq!(conn.last_active, 10);
}

#[test]
fn activity_never_moves_backwards() {
    let mut conn = Connection::new(ConnectionId::new(3), "peer".to_string(), 100);
    conn.update_active(40);
    assert_eq!(conn.last_active, 100);
    conn.update_active(150);
    assert_eq!(conn.last_active, 150);
    assert_eq!(conn.idle_time(170), 20);
    assert_eq!(conn.age(170), 70);
}

#[test]
fn test_connection_id() {
    let id1 = ConnectionId::new(1);
    let id2 = ConnectionId::new(2);
    assert_ne!(id1, id2);
    assert_eq!(id1.value(), 1);
}

#[test]
fn test_id_generator() {
    let mut generator = ConnectionIdGenerator::new();
    let id1 = generator.next();
    let id2 = generator.next();
    assert_eq!(id1.value(), 1);
    assert_eq!(id2.value(), 2);
}
