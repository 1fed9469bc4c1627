use pacmine::task_manager::TaskManager;
use pacmine::websocket::{accept, upstream_forward, AcceptOutcome, PeerMessage, WebSocketManager};

#[test]
fn registered_task_answers_both_lookups() {
    let mut registry: TaskManager<String, String> = TaskManager::new();
    registry.register(5, "to-task".to_string(), "from-task".to_string());
    assert_eq!(registry.get_sender(5).unwrap(), "to-task");
    assert_eq!(registry.get_receiver(5).unwrap(), "from-task");
    assert!(registry.get_sender(6).is_none());
    assert!(registry.get_receiver(6).is_none());
}

#[test]
fn re_registering_overwrites_the_endpoints() {
    let mut registry: TaskManager<String, String> = TaskManager::new();
    registry.register(5, "old-tx".to_string(), "old-rx".to_string());
    registry.register(5, "new-tx".to_string(), "new-rx".to_string());
    assert_eq!(registry.get_sender(5).unwrap(), "new-tx");
    assert_eq!(registry.get_receiver(5).unwrap(), "new-rx");
}

#[test]
fn token_resolves_until_swept() {
    let mut manager = WebSocketManager::new();
    let token = manager.register_task(42, 1_000);
    assert_eq!(manager.get_task_id(token), Some(42));
    // Repeated lookups do not consume the session.
    assert_eq!(manager.get_task_id(token), Some(42));
    // A sweep before the time-to-live has elapsed keeps the session.
    manager.sweep(600_000, 1_000 + 599_999);
    assert_eq!(manager.get_task_id(token), Some(42));
    // Once the time-to-live has elapsed relative to creation, the sweep
    // removes it.
    manager.sweep(600_000, 1_000 + 600_000);
    assert_eq!(manager.get_task_id(token), None);
}

#[test]
fn sweep_keeps_unexpired_sessions() {
    let mut manager = WebSocketManager::new();
    let young = manager.register_task(1, 10_000);
    let old = manager.register_task(2, 0);
    manager.sweep(5_000, 10_001);
    assert_eq!(manager.get_task_id(young), Some(1));
    assert_eq!(manager.get_task_id(old), None);
}

#[test]
fn malformed_token_is_a_request_format_error() {
    let manager = WebSocketManager::new();
    let registry: TaskManager<String, String> = TaskManager::new();
    match accept("not-a-token", &manager, &registry) {
        AcceptOutcome::MalformedToken { status, body } => {
            assert_eq!(status, 400);
            assert!(!body.success);
            assert!(!body.error.is_empty());
        },
        other => panic!("unexpected outcome: {:?}", other),
    }
}

#[test]
fn never_issued_token_is_not_found() {
    let manager = WebSocketManager::new();
    let registry: TaskManager<String, String> = TaskManager::new();
    match accept("123e4567-e89b-12d3-a456-426614174000", &manager, &registry) {
        AcceptOutcome::UnknownToken { status, body } => {
            assert_eq!(status, 404);
            assert!(!body.success);
            assert_eq!(body.error, "The connection cannot be found");
        },
        other => panic!("unexpected outcome: {:?}", other),
    }
}

#[test]
fn token_for_an_unregistered_workload_gives_an_empty_session() {
    let mut manager = WebSocketManager::new();
    let registry: TaskManager<String, String> = TaskManager::new();
    let token = manager.register_task(42, 0);
    let text = uuid::Uuid::from_u128(token).hyphenated().to_string();
    match accept(&text, &manager, &registry) {
        AcceptOutcome::EmptySession { task_id } => assert_eq!(task_id, 42),
        other => panic!("unexpected outcome: {:?}", other),
    }
}

#[test]
fn token_for_a_registered_workload_is_bridged() {
    let mut manager = WebSocketManager::new();
    let mut registry: TaskManager<String, String> = TaskManager::new();
    registry.register(42, "tx".to_string(), "rx".to_string());
    let token = manager.register_task(42, 0);
    let text = uuid::Uuid::from_u128(token).hyphenated().to_string();
    match accept(&text, &manager, &registry) {
        AcceptOutcome::Bridge { task_id } => assert_eq!(task_id, 42),
        other => panic!("unexpected outcome: {:?}", other),
    }
}

#[test]
fn expired_token_is_not_found() {
    let mut manager = WebSocketManager::new();
    let registry: TaskManager<String, String> = TaskManager::new();
    let token = manager.register_task(7, 0);
    manager.sweep(1, 100);
    let text = uuid::Uuid::from_u128(token).hyphenated().to_string();
    match accept(&text, &manager, &registry) {
        AcceptOutcome::UnknownToken { status, body } => {
            assert_eq!(status, 404);
            assert_eq!(body.error, "The connection cannot be found");
        },
        other => panic!("unexpected outcome: {:?}", other),
    }
}

#[test]
fn only_text_messages_are_forwarded_upstream() {
    assert_eq!(
        upstream_forward(PeerMessage::Text("stop\n".to_string())),
        Some("stop\n".to_string())
    );
    assert_eq!(upstream_forward(PeerMessage::NonText), None);
}
