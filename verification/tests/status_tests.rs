use oracle_node::status::{ServiceStatus, StatusRegistry, Worker};

fn failure_reason(status: &ServiceStatus) -> &str {
    match status {
        ServiceStatus::Failed { message } => message,
        ServiceStatus::Running => panic!("expected a recorded failure"),
    }
}

#[test]
fn workers_start_running() {
    let registry = StatusRegistry::new();
    assert!(matches!(registry.status(Worker::Fetcher), ServiceStatus::Running));
    assert!(matches!(registry.status(Worker::Processor), ServiceStatus::Running));
}

#[test]
fn failure_is_terminal_and_first_reason_wins() {
    let mut registry = StatusRegistry::new();
    registry.set_failed(Worker::Fetcher, "rpc unreachable".to_string());
    assert_eq!(failure_reason(registry.status(Worker::Fetcher)), "rpc unreachable");

    // The worker's exit path reports again on its way out; the slot must
    // neither revert to Running nor change its recorded reason.
    registry.set_failed(Worker::Fetcher, "Unknown reason".to_string());
    assert!(matches!(registry.status(Worker::Fetcher), ServiceStatus::Failed { .. }));
    assert_eq!(failure_reason(registry.status(Worker::Fetcher)), "rpc unreachable");

    // The other slot is untouched.
    assert!(matches!(registry.status(Worker::Processor), ServiceStatus::Running));
}

#[test]
fn slots_fail_independently() {
    let mut registry = StatusRegistry::new();
    registry.set_failed(Worker::Processor, "channel closed".to_string());
    assert!(matches!(registry.status(Worker::Fetcher), ServiceStatus::Running));
    assert_eq!(failure_reason(registry.status(Worker::Processor)), "channel closed");
}
