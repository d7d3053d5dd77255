use aerox::{Connection, ConnectionId, ConnectionPool};

fn conn(id: u64, now: u64) -> Connection {
    Connection::new(ConnectionId::new(id), "127.0.0.1:8080".to_string(), now)
}

#[test]
fn test_pool_creation() {
    let pool = ConnectionPool::new();
    assert_eq!(pool.len(), 0);
    assert!(pool.is_empty());
}

#[test]
fn test_pool_add_remove() {
    let mut pool = ConnectionPool::new();
    let id = ConnectionId::new(1);
    pool.add(conn(1, 0));
    assert_eq!(pool.len(), 1);
    assert!(pool.contains(id));

    let removed = pool.remove(id);
    assert!(removed.is_some());
    assert_eq!(pool.len(), 0);
    assert!(!pool.contains(id));
}

#[test]
fn test_pool_get() {
    let mut pool = ConnectionPool::new();
    let id = ConnectionId::new(1);
    pool.add(conn(1, 0));

    let retrieved = pool.get(id);
    assert!(retrieved.is_some());
    assert_eq!(retrieved.unwrap().id, id);
}

#[test]
fn test_pool_cleanup() {
    let mut pool = ConnectionPool::new();
    for i in 1..=3 {
        pool.add(conn(i, 0));
    }
    let cleaned = pool.cleanup_idle(1, 10);
    assert_eq!(cleaned, 3);
    assert_eq!(pool.len(), 0);
}

#[test]
fn removing_an_absent_id_is_not_an_error() {
    let mut pool = ConnectionPool::new();
    pool.add(conn(1, 0));
    assert!(pool.remove(ConnectionId::new(9)).is_none());
    assert_eq!(pool.len(), 1);
    assert!(pool.remove(ConnectionId::new(1)).is_some());
    assert!(pool.remove(ConnectionId::new(1)).is_none());
    assert!(!pool.contains(ConnectionId::new(1)));
}

#[test]
fn adding_the_same_id_replaces() {
    let mut pool = ConnectionPool::new();
    pool.add(conn(1, 0));
    pool.add(conn(1, 7));
    assert_eq!(pool.len(), 1);
    assert_eq!(pool.get(ConnectionId::new(1)).unwrap().last_active, 7);
}

#[test]
fn reaper_removes_exactly_the_idle_ones() {
    let mut pool = ConnectionPool::new();
    pool.add(conn(1, 0));
    pool.add(conn(2, 50));
    pool.add(conn(3, 90));
    pool.add(conn(4, 100));
    // At 100 with a threshold of 50: idle 100, 50, 10, 0.
    let removed = pool.cleanup_idle(50, 100);
    assert_eq!(removed, 2);
    assert_eq!(pool.len(), 2);
    assert!(!pool.contains(ConnectionId::new(1)));
    assert!(!pool.contains(ConnectionId::new(2)));
    assert!(pool.contains(ConnectionId::new(3)));
    assert!(pool.contains(ConnectionId::new(4)));
    let mut ids: Vec<u64> = pool.all_ids().iter().map(|i| i.value()).collect();
    ids.sort();
    assert_eq!(ids, vec![3, 4]);
}
