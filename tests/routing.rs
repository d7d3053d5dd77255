use aerox::{
    AeroXError, AeroXErrorKind, Chain, ChainEvent, ConnectionId, Context, LoggingMiddleware,
    Router, Stack, Step, TimeoutMiddleware,
};

type Handler = fn(&Context) -> bool;

fn test_handler(ctx: &Context) -> bool {
    ctx.message_id() == 100
}

fn echo_handler(ctx: &Context) -> bool {
    ctx.message_id() == 200
}

fn ctx(message_id: u16, sequence_id: u32, data: Vec<u8>) -> Context {
    Context::new(
        ConnectionId::new(1),
        "127.0.0.1:8080".to_string(),
        message_id,
        sequence_id,
        data,
        0,
    )
}

#[test]
fn router_test_router_creation() {
    let router: Router<Handler> = Router::new();
    assert_eq!(router.route_count(), 0);
    assert!(!router.has_route(100));
}

#[test]
fn integration_test_test_router_creation() {
    let _router: Router<Handler> = Router::new();
}

#[test]
fn test_add_route() {
    let mut router: Router<Handler> = Router::new();
    router.add_route(100, test_handler).unwrap();
    assert_eq!(router.route_count(), 1);
    assert!(router.has_route(100));
}

#[test]
fn test_duplicate_route() {
    let mut router: Router<Handler> = Router::new();
    router.add_route(100, test_handler).unwrap();
    let result = router.add_route(100, echo_handler);
    assert!(result.is_err());
}

#[test]
fn test_get_route() {
    let mut router: Router<Handler> = Router::new();
    router.add_route(100, test_handler).unwrap();
    assert!(router.get_route(100).is_some());
    assert!(router.get_route(200).is_none());
}

#[test]
fn test_handle_message() {
    let mut router: Router<Handler> = Router::new();
    router.add_route(100, test_handler).unwrap();
    let c = ctx(100, 1000, b"test data".to_vec());
    let handler = router.route_for(c.message_id()).unwrap();
    assert!(handler(&c));
}

#[test]
fn test_handle_unknown_route() {
    let router: Router<Handler> = Router::new();
    let c = ctx(999, 1000, Vec::new());
    assert!(router.route_for(c.message_id()).is_err());
}

#[test]
fn test_multiple_routes() {
    let mut router: Router<Handler> = Router::new();
    router.add_route(100, test_handler).unwrap();
    router.add_route(200, echo_handler).unwrap();
    assert_eq!(router.route_count(), 2);

    let c1 = ctx(100, 1000, Vec::new());
    assert!(router.route_for(c1.message_id()).unwrap()(&c1));
    let c2 = ctx(200, 1001, Vec::new());
    assert!(router.route_for(c2.message_id()).unwrap()(&c2));
}

#[test]
fn second_registration_fails_and_first_stays() {
    let mut router: Router<u32> = Router::new();
    assert!(router.add_route(7, 1).is_ok());
    let err = router.add_route(7, 2).unwrap_err();
    assert_eq!(err.kind(), AeroXErrorKind::Router);
    assert_eq!(err.to_string(), "路由错误: 路由已存在: 7");
    assert_eq!(router.get_route(7), Some(&1));
    assert_eq!(router.route_count(), 1);
}

#[test]
fn route_miss_names_the_id() {
    let router: Router<u32> = Router::new();
    match router.route_for(9999) {
        Err(AeroXError::Router(m)) => assert_eq!(m, "未找到路由: 9999"),
        _ => panic!("expected a route miss"),
    }
}

#[test]
fn test_context_creation() {
    let conn_id = ConnectionId::new(1);
    let c = Context::new(conn_id, "127.0.0.1:8080".to_string(), 100, 1000, b"test data".to_vec(), 0);
    assert_eq!(c.connection_id(), conn_id);
    assert_eq!(c.peer_addr(), "127.0.0.1:8080");
    assert_eq!(c.message_id(), 100);
    assert_eq!(c.sequence_id(), 1000);
    assert_eq!(c.data(), &b"test data".to_vec());
}

#[test]
fn test_context_data_clone() {
    let data = b"test".to_vec();
    let c = Context::new(ConnectionId::new(1), "127.0.0.1:8080".to_string(), 100, 1000, data.clone(), 0);
    let cloned = c.data_clone();
    assert_eq!(cloned, data);
}

#[test]
fn test_middleware_creation() {
    let logging = LoggingMiddleware::new();
    assert!(!logging.verbose);
    assert!(LoggingMiddleware::verbose().verbose);
}

#[test]
fn test_stack_creation() {
    let stack: Stack<&str> = Stack::new();
    assert_eq!(stack.len(), 0);
}

#[test]
fn test_timeout_middleware_success() {
    let middleware = TimeoutMiddleware::from_millis(100);
    assert_eq!(middleware.timeout_millis(), 100);
    assert!(middleware.outcome(Some(Ok(()))).is_ok());
}

#[test]
fn test_timeout_middleware_timeout() {
    let middleware = TimeoutMiddleware::from_millis(10);
    let result = middleware.outcome(None);
    assert!(matches!(result, Err(AeroXError::Timeout)));
}

#[test]
fn timeout_passes_inner_errors_through() {
    let middleware = TimeoutMiddleware::from_secs(5);
    assert_eq!(middleware.timeout_millis(), 5000);
    let result = middleware.outcome(Some(Err(AeroXError::router("x"))));
    assert!(matches!(result, Err(AeroXError::Router(_))));
}

fn layers_in_entry_order(chain: &Chain<&'static str, &'static str>) -> Vec<&'static str> {
    let mut seen = Vec::new();
    let mut next = chain.entry();
    loop {
        match chain.step(next) {
            Step::Layer(m, n) => {
                seen.push(*m);
                next = n;
            }
            Step::Handler(h) => {
                seen.push(*h);
                break;
            }
        }
    }
    seen
}

#[test]
fn first_added_middleware_is_entered_first() {
    let mut stack = Stack::new();
    stack.push("A").push("B");
    let chain = stack.build("H");
    assert_eq!(chain.depth(), 2);
    assert_eq!(layers_in_entry_order(&chain), vec!["A", "B", "H"]);
}

#[test]
fn onion_order_and_short_circuit() {
    let mut stack = Stack::new();
    stack.push("A");
    stack.push("B");
    let chain = stack.build("H");
    assert_eq!(
        chain.event_order(None),
        vec![
            ChainEvent::Enter(0),
            ChainEvent::Enter(1),
            ChainEvent::Handler,
            ChainEvent::Exit(1),
            ChainEvent::Exit(0),
        ]
    );
    assert_eq!(
        chain.event_order(Some(1)),
        vec![
            ChainEvent::Enter(0),
            ChainEvent::Enter(1),
            ChainEvent::Exit(1),
            ChainEvent::Exit(0),
        ]
    );
}
