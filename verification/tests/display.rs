use chopd::app::{poll_timeout, tick_due, App, AppState, TICK_MILLIS};
use chopd::config::{default_proxy_port, default_target_port, gitignore_update, Args, Config};
use chopd::render::{elapsed_clock, elapsed_seconds, status, status_line, Tone};
use chopd::text::{copy_option, copy_texts, push_decimal, push_decimal2, push_hex};

#[test]
fn numbers_are_spelled_in_decimal() {
    let mut out = String::from("n=");
    push_decimal(&mut out, 0);
    out.push(',');
    push_decimal(&mut out, 9);
    out.push(',');
    push_decimal(&mut out, 10);
    out.push(',');
    push_decimal(&mut out, 65535);
    out.push(',');
    push_decimal(&mut out, u64::MAX);
    assert_eq!(out, "n=0,9,10,65535,18446744073709551615");
}

#[test]
fn two_digit_numbers_are_padded() {
    let mut out = String::new();
    for n in [0, 7, 10, 59, 100] {
        push_decimal2(&mut out, n);
        out.push(' ');
    }
    assert_eq!(out, "00 07 10 59 100 ");
}

#[test]
fn bytes_are_spelled_in_lower_case_hex() {
    let mut out = String::from("0x");
    push_hex(&mut out, &[0x00, 0x0f, 0xa0, 0xff, 0x5c]);
    assert_eq!(out, "0x000fa0ff5c");
    push_hex(&mut out, &[]);
    assert_eq!(out, "0x000fa0ff5c");
    let mut digits = String::new();
    push_hex(&mut digits, &[0x01, 0x23, 0x45, 0x67, 0x89, 0xab, 0xcd, 0xef]);
    assert_eq!(digits, "0123456789abcdef");
}

#[test]
fn copies_are_equal() {
    assert_eq!(copy_option(&Some("a".to_string())), Some("a".to_string()));
    assert_eq!(copy_option(&None), None);
    let texts = vec!["a".to_string(), String::new(), "c".to_string()];
    assert_eq!(copy_texts(&texts), texts);
}

#[test]
fn status_words_and_colours() {
    assert_eq!(status(&AppState::Starting), ("Starting...", Tone::Yellow));
    assert_eq!(status(&AppState::Running), ("Running", Tone::Green));
    assert_eq!(status(&AppState::Error("x".to_string())), ("Error", Tone::Red));
    assert_eq!(status(&AppState::Stopping), ("Stopping...", Tone::Yellow));
}

#[test]
fn status_line_names_ports_and_requests() {
    let args = Args { command: None, proxy_port: Some(4001), target_port: Some(80) };
    let mut app = App::new(Config::new(&args, None));
    assert_eq!(status_line(&app), "Status: Starting... | Proxy: :4001 \u{2192} :80 | Requests: 0");
    app.set_state(AppState::Running);
    for _ in 0..12 {
        app.increment_request_count();
    }
    assert_eq!(status_line(&app), "Status: Running | Proxy: :4001 \u{2192} :80 | Requests: 12");
    app.set_state(AppState::Error("boom".to_string()));
    assert_eq!(status_line(&app), "Status: Error | Proxy: :4001 \u{2192} :80 | Requests: 12");
}

#[test]
fn ages_are_shown_as_a_clock() {
    assert_eq!(elapsed_clock(0), "00:00:00");
    assert_eq!(elapsed_clock(59), "00:00:59");
    assert_eq!(elapsed_clock(60), "00:01:00");
    assert_eq!(elapsed_clock(3661), "01:01:01");
    assert_eq!(elapsed_clock(86399), "23:59:59");
    assert_eq!(elapsed_clock(360000), "100:00:00");
}

#[test]
fn ages_are_whole_seconds_and_never_negative() {
    assert_eq!(elapsed_seconds(0, 999), 0);
    assert_eq!(elapsed_seconds(0, 1000), 1);
    assert_eq!(elapsed_seconds(500, 3_661_500), 3661);
    assert_eq!(elapsed_seconds(10, 10), 0);
    assert_eq!(elapsed_seconds(10, 5), 0);
    assert_eq!(elapsed_seconds(i64::MIN, i64::MAX), (u64::MAX / 1000));
}

#[test]
fn event_loop_waits_until_the_next_tick() {
    assert_eq!(TICK_MILLIS, 200);
    assert_eq!(poll_timeout(0), 200);
    assert_eq!(poll_timeout(150), 50);
    assert_eq!(poll_timeout(200), 0);
    assert_eq!(poll_timeout(u64::MAX), 0);
    assert!(!tick_due(199));
    assert!(tick_due(200));
    assert!(tick_due(10_000));
}

#[test]
fn keys_quit_and_clear() {
    let mut app = App::new(Config::init());
    app.add_log_at(1, "one".to_string());
    assert!(!app.on_key('x'));
    assert_eq!(app.get_logs().len(), 1);
    assert!(matches!(app.state(), AppState::Starting));
    assert!(!app.on_key('c'));
    assert!(app.get_logs().is_empty());
    app.add_log_at(2, "two".to_string());
    assert!(app.on_key('q'));
    assert!(matches!(app.state(), AppState::Stopping));
    assert_eq!(app.get_logs().len(), 1);
    assert!(!app.on_key('Q'));
}

#[test]
fn default_ports() {
    assert_eq!(default_proxy_port(), 4000);
    assert_eq!(default_target_port(), 3000);
    let cfg = Config::init();
    assert_eq!(cfg.command, "npm run dev");
    assert_eq!((cfg.proxy_port, cfg.target_port), (4000, 3000));
    assert!(cfg.env.is_empty());
}

#[test]
fn gitignore_gains_the_entry_once() {
    assert_eq!(gitignore_update(""), Some("\n.chopin\n".to_string()));
    assert_eq!(gitignore_update("target\n"), Some("target\n.chopin\n".to_string()));
    assert_eq!(gitignore_update("target"), Some("target\n.chopin\n".to_string()));
    assert_eq!(gitignore_update("a\n\n"), Some("a\n\n.chopin\n".to_string()));
    assert_eq!(gitignore_update("target\n.chopin\n"), None);
    assert_eq!(gitignore_update("x.chopin-cache"), None);
    assert_eq!(gitignore_update(".chopi\nn"), Some(".chopi\nn\n.chopin\n".to_string()));
}

#[test]
fn logging_now_stamps_with_the_wall_clock() {
    let mut app = App::new(Config::init());
    app.add_log("hello".to_string());
    let logs = app.get_logs();
    assert_eq!(logs.len(), 1);
    assert_eq!(logs[0].1, "hello");
    assert!(logs[0].0 > 1_600_000_000_000);
    app.on_tick();
    assert_eq!(app.get_logs().len(), 1);
}

#[test]
fn request_count_starts_at_zero_and_counts_up() {
    let mut app = App::new(Config::init());
    assert_eq!(app.get_request_count(), 0);
    app.increment_request_count();
    assert_eq!(app.get_request_count(), 1);
}
