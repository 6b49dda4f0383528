use feedscan::server::{
    server_launch, spawn_failure, startup_step, StartupStep, MAX_START_ATTEMPTS, POLL_INTERVAL_MS,
    SERVER_ADDRESS,
};

#[test]
fn server_is_run_with_node() {
    let unix = server_launch(false);
    assert_eq!(unix.program, "node");
    assert_eq!(
        unix.env,
        vec![
            ("NODE_ENV".to_string(), "production".to_string()),
            ("PORT".to_string(), "3000".to_string()),
            ("HOST".to_string(), "127.0.0.1".to_string()),
        ]
    );
    assert_eq!(server_launch(true).program, "node.exe");
    assert_eq!(SERVER_ADDRESS, "http://127.0.0.1:3000");
    assert_eq!(POLL_INTERVAL_MS, 500);
}

#[test]
fn spawn_failure_message() {
    assert_eq!(
        spawn_failure("not found"),
        "Failed to start server: not found. Please ensure Node.js is installed and in PATH"
    );
}

#[test]
fn wait_ends_after_twenty_polls() {
    assert_eq!(startup_step(1, true), (StartupStep::Started, false));
    assert_eq!(startup_step(3, false), (StartupStep::Wait, false));
    assert_eq!(startup_step(4, false), (StartupStep::Wait, true));
    assert_eq!(startup_step(19, false), (StartupStep::Wait, false));
    assert_eq!(startup_step(MAX_START_ATTEMPTS, false), (StartupStep::GaveUp, true));
    let mut polls = 0;
    for attempt in 1..=MAX_START_ATTEMPTS {
        polls += 1;
        if startup_step(attempt, false).0 != StartupStep::Wait {
            break;
        }
    }
    assert_eq!(polls, 20);
}
