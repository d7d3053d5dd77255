use aerox::{ConnectionBalancer, ConnectionMetrics};

#[test]
fn test_metrics_creation() {
    let metrics = ConnectionMetrics::new();
    assert_eq!(metrics.current_connections(), 0);
    assert_eq!(metrics.total_connections(), 0);
}

#[test]
fn test_metrics_inc_dec() {
    let mut metrics = ConnectionMetrics::new();

    metrics.inc_connections();
    assert_eq!(metrics.current_connections(), 1);
    assert_eq!(metrics.total_connections(), 1);

    metrics.dec_connections();
    assert_eq!(metrics.current_connections(), 0);
    assert_eq!(metrics.total_connections(), 1);
}

#[test]
fn test_metrics_bytes() {
    let mut metrics = ConnectionMetrics::new();

    metrics.record_bytes_received(1024);
    assert_eq!(metrics.total_bytes_received(), 1024);

    metrics.record_bytes_sent(2048);
    assert_eq!(metrics.total_bytes_sent(), 2048);
}

#[test]
fn test_metrics_messages() {
    let mut metrics = ConnectionMetrics::new();

    metrics.record_message_received();
    assert_eq!(metrics.total_messages_received(), 1);

    metrics.record_message_sent();
    assert_eq!(metrics.total_messages_sent(), 1);
}

#[test]
fn test_metrics_summary() {
    let metrics = ConnectionMetrics::new();
    let summary = metrics.summary();
    assert!(summary.contains("连接指标"));
    assert!(summary.contains("当前连接: 0"));
}

#[test]
fn metrics_summary_lists_every_counter() {
    let metrics = ConnectionMetrics::with_values(2, 5, 100, 200, 7, 9);
    assert_eq!(
        metrics.summary(),
        "连接指标:\n- 当前连接: 2\n- 总连接数: 5\n- 接收字节: 100\n- 发送字节: 200\n- 接收消息: 7\n- 发送消息: 9"
    );
    let snapshot = metrics.clone_inner();
    assert_eq!(snapshot.total_bytes_sent(), 200);
}

#[test]
fn current_connections_do_not_go_below_zero() {
    let mut metrics = ConnectionMetrics::new();
    metrics.dec_connections();
    assert_eq!(metrics.current_connections(), 0);
}

#[test]
fn test_balancer_creation() {
    let balancer = ConnectionBalancer::new(4);
    assert_eq!(balancer.worker_count(), 4);
}

#[test]
fn test_balancer_distribution() {
    let mut balancer = ConnectionBalancer::new(4);

    let mut counts = vec![0; 4];
    for _ in 0..16 {
        let worker_id = balancer.next_worker();
        counts[worker_id] += 1;
    }

    assert_eq!(counts, vec![4, 4, 4, 4]);
}

#[test]
fn balancer_goes_round_in_order() {
    let mut balancer = ConnectionBalancer::new(3);
    let picks: Vec<usize> = (0..7).map(|_| balancer.next_worker()).collect();
    assert_eq!(picks, vec![0, 1, 2, 0, 1, 2, 0]);
}

#[test]
fn forty_connections_over_four_workers() {
    let mut balancer = ConnectionBalancer::new(4);
    let mut counts = vec![0; 4];
    for _ in 0..40 {
        counts[balancer.next_worker()] += 1;
    }
    assert_eq!(counts, vec![10, 10, 10, 10]);
}

#[test]
fn single_worker_takes_everything() {
    let mut balancer = ConnectionBalancer::new(1);
    for _ in 0..5 {
        assert_eq!(balancer.next_worker(), 0);
    }
}
