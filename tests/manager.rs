use aerox::{ConnectionId, ConnectionManager};

#[test]
fn test_manager_creation() {
    let manager = ConnectionManager::with_defaults();
    assert_eq!(manager.connection_count(), 0);
}

#[test]
fn test_manager_create_connection() {
    let mut manager = ConnectionManager::with_defaults();
    let id = manager.create_connection("127.0.0.1:8080".to_string(), 0).unwrap();
    assert_eq!(manager.connection_count(), 1);

    let conn = manager.get_connection(id);
    assert!(conn.is_some());
}

#[test]
fn test_manager_remove_connection() {
    let mut manager = ConnectionManager::with_defaults();
    let id = manager.create_connection("127.0.0.1:8080".to_string(), 0).unwrap();
    let removed = manager.remove_connection(id);
    assert!(removed);
    assert_eq!(manager.connection_count(), 0);
}

#[test]
fn test_manager_metrics() {
    let mut manager = ConnectionManager::with_defaults();
    manager.create_connection("127.0.0.1:8080".to_string(), 0).unwrap();
    manager.create_connection("127.0.0.1:8080".to_string(), 0).unwrap();

    assert_eq!(manager.metrics().current_connections(), 2);
    assert_eq!(manager.metrics().total_connections(), 2);
}

#[test]
fn test_manager_report() {
    let manager = ConnectionManager::with_defaults();
    let report = manager.report();
    assert!(report.contains("连接管理器报告"));
    assert!(report.contains("连接数: 0"));
}

#[test]
fn manager_ids_start_at_one_and_grow() {
    let mut manager = ConnectionManager::with_defaults();
    let a = manager.create_connection("a".to_string(), 0).unwrap();
    let b = manager.create_connection("b".to_string(), 0).unwrap();
    assert_eq!(a.value(), 1);
    assert_eq!(b.value(), 2);
    assert!(!manager.remove_connection(ConnectionId::new(99)));
    assert_eq!(manager.metrics().current_connections(), 2);
}

#[test]
fn manager_reaping_updates_the_counter() {
    let mut manager = ConnectionManager::with_defaults();
    manager.create_connection("a".to_string(), 0).unwrap();
    manager.create_connection("b".to_string(), 100).unwrap();
    let removed = manager.cleanup_idle(60, 120);
    assert_eq!(removed, 1);
    assert_eq!(manager.connection_count(), 1);
    assert_eq!(manager.metrics().current_connections(), 1);
    assert_eq!(manager.metrics().total_connections(), 2);
    assert!(manager.report().contains("连接数: 1"));
}
