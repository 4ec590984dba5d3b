use chopd::app::{App, AppState};
use chopd::config::{Args, Config};

fn fresh() -> App {
    App::new(Config::init())
}

#[test]
fn new_app_is_starting_and_empty() {
    let app = fresh();
    assert_eq!(app.title, "chopd-rs");
    assert!(matches!(app.state(), AppState::Starting));
    assert!(app.get_logs().is_empty());
    assert_eq!(app.get_request_count(), 0);
    assert_eq!(app.config().proxy_port, 4000);
    assert_eq!(app.config().target_port, 3000);
}

#[test]
fn set_state_keeps_error_message() {
    let mut app = fresh();
    app.set_state(AppState::Error("connection refused".to_string()));
    match app.state() {
        AppState::Error(message) => assert_eq!(message, "connection refused"),
        other => panic!("unexpected state {:?}", other),
    }
    app.set_state(AppState::Stopping);
    assert!(matches!(app.state(), AppState::Stopping));
}

#[test]
fn notices_are_capped_first_in_first_out() {
    let mut app = fresh();
    for i in 0..1001i64 {
        app.add_log_at(i, format!("notice {}", i));
    }
    let logs = app.get_logs();
    assert_eq!(logs.len(), 1000);
    assert_eq!(logs[0], (1, "notice 1".to_string()));
    assert_eq!(logs[999], (1000, "notice 1000".to_string()));
}

#[test]
fn tick_evicts_notices_an_hour_old() {
    let mut app = fresh();
    app.add_log_at(0, "old".to_string());
    app.add_log_at(1, "edge".to_string());
    app.add_log_at(5_000, "young".to_string());
    app.on_tick_at(3_600_000);
    assert_eq!(app.get_logs(), vec![(1, "edge".to_string()), (5_000, "young".to_string())]);
    app.on_tick_at(3_600_001);
    assert_eq!(app.get_logs(), vec![(5_000, "young".to_string())]);
}

#[test]
fn request_count_increments() {
    let mut app = fresh();
    app.increment_request_count();
    app.increment_request_count();
    assert_eq!(app.get_request_count(), 2);
}

#[test]
fn clear_logs_forgets_everything() {
    let mut app = fresh();
    app.add_log("hello".to_string());
    assert_eq!(app.get_logs().len(), 1);
    app.clear_logs();
    assert!(app.get_logs().is_empty());
    app.on_tick();
    assert!(app.get_logs().is_empty());
}

#[test]
fn arguments_override_file_and_defaults() {
    let none = Args { command: None, proxy_port: None, target_port: None };
    let cfg = Config::new(&none, None);
    assert_eq!(
        (cfg.command.as_str(), cfg.proxy_port, cfg.target_port),
        ("npm run dev", 4000, 3000)
    );
    assert!(cfg.env.is_empty());

    let args =
        Args { command: Some("serve".to_string()), proxy_port: Some(8080), target_port: None };
    assert!(!args.wants_init());
    let mut file = Config::init();
    file.command = "yarn dev".to_string();
    file.target_port = 5173;
    file.env.insert("A".to_string(), "1".to_string());
    let cfg = Config::new(&args, Some(file));
    assert_eq!((cfg.command.as_str(), cfg.proxy_port, cfg.target_port), ("yarn dev", 8080, 5173));
    assert_eq!(cfg.env.get("A").map(String::as_str), Some("1"));

    let init = Args { command: Some("init".to_string()), proxy_port: None, target_port: None };
    assert!(init.wants_init());
}
