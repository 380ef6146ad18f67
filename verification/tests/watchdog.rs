use oscq_watchdog::config::load_config;
use oscq_watchdog::config::Config;
use oscq_watchdog::supervisor::interpret_poll;
use oscq_watchdog::supervisor::next_step;
use oscq_watchdog::supervisor::supervise_once;
use oscq_watchdog::supervisor::PollOutcome;
use oscq_watchdog::supervisor::Step;
use oscq_watchdog::text::parse_port_body;

#[test]
fn config_valid_document() {
    let c = load_config("httpPort: 8080");
    assert_eq!(c, Some(Config { http_port: 8080 }));
}

#[test]
fn config_unrecognized_fields_ignored() {
    let c = load_config("httpPort: 6969\nother: hello\nmore: [1, 2]");
    assert_eq!(c, Some(Config { http_port: 6969 }));
}

#[test]
fn config_missing_field_fails() {
    assert_eq!(load_config("otherField: 3"), None);
}

#[test]
fn config_malformed_document_fails() {
    assert_eq!(load_config("httpPort: [not: closed"), None);
}

#[test]
fn config_empty_document_fails() {
    assert_eq!(load_config(""), None);
}

#[test]
fn config_port_out_of_range_fails() {
    assert_eq!(load_config("httpPort: 70000"), None);
    assert_eq!(load_config("httpPort: -1"), None);
}

#[test]
fn config_non_integer_port_fails() {
    assert_eq!(load_config("httpPort: \"8080ish\""), None);
}

#[test]
fn parse_plain_integer() {
    assert_eq!(parse_port_body("7000"), 7000);
    assert_eq!(parse_port_body("0"), 0);
    assert_eq!(parse_port_body("1"), 1);
}

#[test]
fn parse_whitespace_padded_integer() {
    assert_eq!(parse_port_body("   42  "), 42);
    assert_eq!(parse_port_body("\n\t7000\r\n"), 7000);
}

#[test]
fn parse_signed_integers() {
    assert_eq!(parse_port_body("-5"), -5);
    assert_eq!(parse_port_body("+7"), 7);
}

#[test]
fn parse_extreme_values() {
    assert_eq!(parse_port_body("2147483647"), 2147483647);
    assert_eq!(parse_port_body("-2147483648"), -2147483648);
}

#[test]
fn parse_out_of_range_is_zero() {
    assert_eq!(parse_port_body("2147483648"), 0);
    assert_eq!(parse_port_body("-2147483649"), 0);
    assert_eq!(parse_port_body("99999999999999999999"), 0);
}

#[test]
fn parse_non_numeric_is_zero() {
    assert_eq!(parse_port_body("ready"), 0);
    assert_eq!(parse_port_body(""), 0);
    assert_eq!(parse_port_body("   "), 0);
    assert_eq!(parse_port_body("12a"), 0);
    assert_eq!(parse_port_body("4 2"), 0);
    assert_eq!(parse_port_body("-"), 0);
    assert_eq!(parse_port_body("+"), 0);
    assert_eq!(parse_port_body("--3"), 0);
}

#[test]
fn step_on_zero_sends_start() {
    assert_eq!(next_step(&PollOutcome::Port(0)), Step::SendStart);
}

#[test]
fn step_on_nonzero_is_done_without_start() {
    assert_eq!(next_step(&PollOutcome::Port(7000)), Step::Done(7000));
    assert_eq!(next_step(&PollOutcome::Port(-3)), Step::Done(-3));
}

#[test]
fn step_on_unreachable_restarts() {
    assert_eq!(next_step(&PollOutcome::Unreachable), Step::Restart);
}

#[test]
fn interpret_poll_keeps_failure_distinct_from_zero() {
    assert_eq!(interpret_poll(&None), PollOutcome::Unreachable);
    assert_eq!(interpret_poll(&Some(String::from("0"))), PollOutcome::Port(0));
}

#[test]
fn interpret_poll_trims_body() {
    assert_eq!(
        interpret_poll(&Some(String::from("   42  "))),
        PollOutcome::Port(42),
    );
}

#[test]
fn discover_once_scenario() {
    let config = load_config("httpPort: 8080").unwrap();
    assert_eq!(config.http_port, 8080);
    let first = supervise_once(&Some(String::from("0")));
    assert_eq!(first, Step::SendStart);
    let second = supervise_once(&Some(String::from("7000")));
    assert_eq!(second, Step::Done(7000));
}

#[test]
fn connection_refused_scenario() {
    let step = supervise_once(&None);
    assert_eq!(step, Step::Restart);
    let after_restart = supervise_once(&Some(String::from("7000")));
    assert_eq!(after_restart, Step::Done(7000));
}

#[test]
fn non_numeric_body_scenario() {
    let step = supervise_once(&Some(String::from("ready")));
    assert_eq!(step, Step::SendStart);
    let zero_step = supervise_once(&Some(String::from("0")));
    assert_eq!(step, zero_step);
}
