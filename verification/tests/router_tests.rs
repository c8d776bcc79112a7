use mojentic::router::Router;
use std::any::TypeId;
use std::sync::Arc;

struct TestAgent;
struct TestEvent1;
struct TestEvent2;

#[test]
fn test_router_new() {
    let router: Router<Arc<TestAgent>> = Router::new();
    assert_eq!(router.route_len(), 0);
}

#[test]
fn test_router_default() {
    let router: Router<Arc<TestAgent>> = Router::default();
    assert_eq!(router.route_len(), 0);
}

#[test]
fn test_add_route() {
    let mut router = Router::new();
    let agent = Arc::new(TestAgent);

    router.add_route::<TestEvent1>(agent.clone());

    let agents = router.get_agents(TypeId::of::<TestEvent1>());
    assert_eq!(agents.len(), 1);
}

#[test]
fn test_add_multiple_routes_same_type() {
    let mut router = Router::new();
    let agent1 = Arc::new(TestAgent);
    let agent2 = Arc::new(TestAgent);

    router.add_route::<TestEvent1>(agent1);
    router.add_route::<TestEvent1>(agent2);

    let agents = router.get_agents(TypeId::of::<TestEvent1>());
    assert_eq!(agents.len(), 2);
}

#[test]
fn test_add_routes_different_types() {
    let mut router = Router::new();
    let agent1 = Arc::new(TestAgent);
    let agent2 = Arc::new(TestAgent);

    router.add_route::<TestEvent1>(agent1);
    router.add_route::<TestEvent2>(agent2);

    let agents1 = router.get_agents(TypeId::of::<TestEvent1>());
    let agents2 = router.get_agents(TypeId::of::<TestEvent2>());

    assert_eq!(agents1.len(), 1);
    assert_eq!(agents2.len(), 1);
}

#[test]
fn test_get_agents_no_routes() {
    let router: Router<Arc<TestAgent>> = Router::new();
    let agents = router.get_agents(TypeId::of::<TestEvent1>());
    assert_eq!(agents.len(), 0);
}

#[test]
fn test_get_agents_different_type() {
    let mut router = Router::new();
    let agent = Arc::new(TestAgent);

    router.add_route::<TestEvent1>(agent);

    let agents = router.get_agents(TypeId::of::<TestEvent2>());
    assert_eq!(agents.len(), 0);
}

#[test]
fn agents_keep_registration_order() {
    let mut router: Router<u32> = Router::new();
    router.add_route::<TestEvent1>(1);
    router.add_route::<TestEvent2>(9);
    router.add_route::<TestEvent1>(2);
    assert_eq!(router.get_agents(TypeId::of::<TestEvent1>()), vec![1, 2]);
    assert_eq!(router.get_agents(TypeId::of::<TestEvent2>()), vec![9]);
    assert_eq!(router.route_len(), 2);
}
