use daiana::util::pretty_logger::colored_level;
use daiana::util::pretty_logger::format_record;
use daiana::util::pretty_logger::max_target_width;
use daiana::util::pretty_logger::next_target_width;
use daiana::util::pretty_logger::LogLevel;
use std::sync::atomic::AtomicUsize;

#[test]
fn levels_have_colored_labels() {
    assert_eq!(colored_level(LogLevel::Trace), "\x1b[35m\u{1f338} TRACE\x1b[0m");
    assert_eq!(colored_level(LogLevel::Info), "\x1b[32m\u{1f331} INFO \x1b[0m");
    assert_eq!(colored_level(LogLevel::Error), "\x1b[31m\u{1f353} ERROR\x1b[0m");
}

#[test]
fn target_width_grows_to_the_widest_target() {
    let width = AtomicUsize::new(0);
    assert_eq!(max_target_width(&width, "daiana"), 6);
    assert_eq!(max_target_width(&width, "a"), 6);
    assert_eq!(max_target_width(&width, "daiana::service"), 15);
    assert_eq!(max_target_width(&width, "x"), 15);
}

#[test]
fn next_width_is_the_larger_and_records_only_a_wider_target() {
    assert_eq!(next_target_width(6, 15), (15, true));
    assert_eq!(next_target_width(15, 15), (15, false));
    assert_eq!(next_target_width(15, 1), (15, false));
    assert_eq!(next_target_width(0, 0), (0, false));
}

#[test]
fn log_line_layout() {
    let line = format_record(None, LogLevel::Warn, "app", 5, "hello");
    assert_eq!(line, " \x1b[33m\u{2728} WARN \x1b[0m \u{2502} \x1b[35mapp  \x1b[0m \u{276f} hello");
    let line = format_record(Some("T"), LogLevel::Debug, "module", 2, "m");
    assert_eq!(line, " T \x1b[36m\u{1f98b} DEBUG\x1b[0m \u{2502} \x1b[35mmodule\x1b[0m \u{276f} m");
}

#[test]
fn logger_installs_once() {
    assert!(daiana::util::pretty_logger::try_init_custom_env("DAIANA_TEST_LOG").is_ok());
    assert!(daiana::util::pretty_logger::try_init().is_err());
    assert!(daiana::util::pretty_logger::init().is_err());
    assert!(daiana::util::pretty_logger::init_timed().is_err());
    assert!(daiana::util::pretty_logger::init_custom_env("DAIANA_TEST_LOG").is_err());
}
