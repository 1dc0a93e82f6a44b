use piano::ports::{
    attempts_for, format_port_list, matches_filter, select_index, MidiError, Retry, Verdict,
    PORT_POLL_INTERVAL_MILLIS,
};
use std::time::Duration;

fn names(names: &[&str]) -> Vec<String> {
    names.iter().map(|name| (*name).to_owned()).collect()
}

#[test]
fn no_filter_matches_the_first_port_seen() {
    assert!(matches_filter("Yamaha P-125", None));
    assert!(matches_filter("", None));
}

#[test]
fn a_filter_matches_case_insensitively_by_substring() {
    assert!(matches_filter("Yamaha P-125", Some("yamaha")));
    assert!(matches_filter("Yamaha P-125", Some("P-125")));
    assert!(!matches_filter("Yamaha P-125", Some("Roland")));
}

#[test]
fn letters_beyond_ascii_lose_their_case_too() {
    assert!(matches_filter("KLAVIER \u{c4}\u{d6}", Some("r \u{e4}\u{f6}")));
    assert!(matches_filter("klavier \u{e4}\u{f6}", Some("\u{c4}\u{d6}")));
    assert!(matches_filter("piano", Some("")));
    assert!(!matches_filter("", Some("piano")));
    assert!(matches_filter("aab", Some("ab")));
}

fn assert_send_sync<T: Send + Sync>() {}

#[test]
fn midi_error_is_send_and_sync_on_every_platform() {
    assert_send_sync::<MidiError>();
}

#[test]
fn an_empty_port_list_is_an_absent_instrument_not_an_unmatched_filter() {
    let error = select_index(&names(&[]), None).expect_err("no ports means no choice");
    assert!(matches!(error, MidiError::NoPortsAvailable));

    let error = select_index(&names(&[]), Some("yamaha")).expect_err("still no choice");
    assert!(
        matches!(error, MidiError::NoPortsAvailable),
        "a filter does not turn a missing instrument into a filter problem"
    );
}

#[test]
fn without_a_filter_the_first_port_wins() {
    let ports = names(&["Digital Piano", "IAC Driver Bus 1"]);
    assert_eq!(select_index(&ports, None).expect("a port exists"), 0);
}

#[test]
fn a_filter_picks_the_first_port_whose_name_contains_it() {
    let ports = names(&["IAC Driver Bus 1", "Digital Piano", "Digital Piano 2"]);
    assert_eq!(select_index(&ports, Some("digital")).expect("one port matches"), 1);
}

#[test]
fn an_unmatched_filter_reports_the_filter_and_the_ports_that_were_there() {
    let ports = names(&["Digital Piano"]);
    let error = select_index(&ports, Some("roland")).expect_err("nothing matches");
    let MidiError::NoMatchingPort { filter, available } = error else {
        panic!("expected an unmatched filter, got a different failure");
    };
    assert_eq!(filter, "roland");
    assert_eq!(available, ports);
}

#[test]
fn a_zero_timeout_still_probes_once() {
    assert_eq!(attempts_for(Duration::ZERO.as_millis()), 1);
    assert_eq!(attempts_for(Duration::from_millis(1).as_millis()), 1);
}

#[test]
fn a_timeout_becomes_one_attempt_per_interval_plus_the_immediate_one() {
    assert_eq!(attempts_for(Duration::from_secs(5).as_millis()), 21);
    assert_eq!(attempts_for(PORT_POLL_INTERVAL_MILLIS), 2);
}

#[test]
fn an_absurd_timeout_saturates_rather_than_overflowing() {
    assert_eq!(attempts_for(Duration::MAX.as_millis()), u32::MAX);
    assert_eq!(attempts_for(u128::MAX), u32::MAX);
}

struct Run {
    connected: bool,
    outcome: Result<&'static str, MidiError>,
    tries: u32,
    waits: u32,
}

/// Drives a search with a scripted sequence of outcomes, counting attempts and
/// waits.
fn run_retry(attempts: u32, script: Vec<Result<&'static str, MidiError>>) -> Run {
    let mut remaining = script.into_iter();
    let mut tries = 0;
    let mut waits = 0;
    let mut retry = match Retry::new(attempts) {
        Ok(retry) => retry,
        Err(error) => return Run { connected: false, outcome: Err(error), tries, waits },
    };
    loop {
        tries += 1;
        let outcome = remaining.next().unwrap_or(Err(MidiError::NoPortsAvailable));
        match retry.after_attempt(outcome) {
            Verdict::Finished(outcome) => {
                return Run { connected: outcome.is_ok(), outcome, tries, waits };
            }
            Verdict::WaitAndRetry => waits += 1,
        }
    }
}

#[test]
fn an_instrument_already_there_is_never_waited_for() {
    let retry = run_retry(21, vec![Ok("Digital Piano")]);
    assert!(retry.connected);
    assert_eq!(retry.tries, 1);
    assert_eq!(retry.waits, 0, "waited despite connecting immediately");
}

#[test]
fn an_instrument_switched_on_late_is_picked_up_without_a_rerun() {
    let retry = run_retry(
        21,
        vec![
            Err(MidiError::NoPortsAvailable),
            Err(MidiError::NoPortsAvailable),
            Ok("Digital Piano"),
        ],
    );
    assert!(retry.connected, "gave up on an instrument that showed up");
    assert_eq!(retry.tries, 3);
    assert_eq!(retry.waits, 2, "one wait between each pair of attempts");
}

#[test]
fn an_instrument_that_never_appears_gives_up_after_the_last_attempt() {
    let retry = run_retry(4, vec![]);
    assert!(!retry.connected);
    assert_eq!(retry.outcome, Err(MidiError::NoPortsAvailable));
    assert_eq!(retry.tries, 4);
    assert_eq!(retry.waits, 3, "must not sleep after the final attempt");
}

#[test]
fn a_failure_waiting_cannot_fix_is_not_waited_out() {
    let retry = run_retry(21, vec![Err(MidiError::Connect("port busy".to_owned()))]);
    assert!(!retry.connected);
    assert_eq!(retry.outcome, Err(MidiError::Connect("port busy".to_owned())));
    assert_eq!(retry.tries, 1, "retried a connection the port refused");
    assert_eq!(retry.waits, 0);
}

#[test]
fn zero_attempts_fails_without_touching_the_backend() {
    let retry = run_retry(0, vec![Ok("Digital Piano")]);
    assert!(!retry.connected);
    assert_eq!(retry.outcome, Err(MidiError::NoPortsAvailable));
    assert_eq!(retry.tries, 0);
    assert_eq!(retry.waits, 0);
}

#[test]
fn the_last_error_is_the_one_reported() {
    let mut retry = Retry::new(2).expect("two attempts are some");
    let absent = MidiError::NoMatchingPort { filter: "x".to_owned(), available: names(&["y"]) };
    assert_eq!(retry.after_attempt::<u8>(Err(MidiError::NoPortsAvailable)), Verdict::WaitAndRetry);
    assert_eq!(
        retry.after_attempt::<u8>(Err(absent.clone())),
        Verdict::Finished(Err(absent))
    );
}

#[test]
fn an_absent_port_is_worth_waiting_for() {
    assert!(MidiError::NoPortsAvailable.is_port_absent());
    assert!(MidiError::NoMatchingPort {
        filter: "yamaha".to_owned(),
        available: names(&["Digital Piano"]),
    }
    .is_port_absent());
}

#[test]
fn a_refused_connection_is_not_worth_waiting_for() {
    assert!(!MidiError::Connect("port busy".to_owned()).is_port_absent());
    assert!(!MidiError::BackendInit("no driver".to_owned()).is_port_absent());
    assert!(!MidiError::PortName("gone".to_owned()).is_port_absent());
}

#[test]
fn an_empty_port_list_says_what_to_check_rather_than_printing_nothing() {
    let message = MidiError::NoPortsAvailable.message();
    assert!(message.contains("powered on"), "unhelpful: {message}");
    assert!(message.contains("cable"), "unhelpful: {message}");
    assert!(
        !message.contains("[]"),
        "still printing an empty list at the player: {message}"
    );
}

#[test]
fn an_unmatched_filter_names_the_filter_and_what_was_there_instead() {
    let message = MidiError::NoMatchingPort {
        filter: "roland".to_owned(),
        available: names(&["Digital Piano", "IAC Driver Bus 1"]),
    }
    .message();
    assert!(message.contains("roland"), "lost the filter: {message}");
    assert!(
        message.contains("Digital Piano"),
        "lost what was available: {message}"
    );
}

#[test]
fn messages_quote_what_they_were_given() {
    let available = names(&["Digital \"Piano\"", "tab\there"]);
    let expected = format!(
        "no MIDI input port name contains {:?}; available ports: {:?}",
        "ro\\land", available
    );
    let error = MidiError::NoMatchingPort { filter: "ro\\land".to_owned(), available };
    assert_eq!(error.message(), expected);
    assert_eq!(
        MidiError::BackendInit("no driver".to_owned()).message(),
        "could not initialise the MIDI backend: no driver"
    );
    assert_eq!(
        MidiError::PortName("gone".to_owned()).message(),
        "could not read the name of a MIDI input port: gone"
    );
    assert_eq!(
        MidiError::Connect("port busy".to_owned()).message(),
        "could not connect to the MIDI input port: port busy"
    );
}

#[test]
fn an_empty_listing_says_what_to_check() {
    let listing = format_port_list(&names(&[]));
    assert!(listing.contains("powered on"), "unhelpful: {listing}");
    assert!(listing.contains("audio only"), "unhelpful: {listing}");
    assert!(
        listing.contains("Audio MIDI Setup"),
        "no way to confirm the system sees it: {listing}"
    );
}

#[test]
fn a_listing_shows_every_port_one_per_line() {
    let listing = format_port_list(&names(&["Digital Piano", "IAC Driver Bus 1"]));
    assert_eq!(
        listing,
        "available MIDI input ports:\n  Digital Piano\n  IAC Driver Bus 1"
    );
}

#[test]
fn a_refusal_ends_a_search_that_had_attempts_left() {
    let refused = || MidiError::Connect("port busy".to_owned());
    let script = vec![Err(MidiError::NoPortsAvailable), Err(refused()), Ok("Digital Piano")];
    let retry = run_retry(21, script);
    assert_eq!(retry.outcome, Err(refused()));
    assert_eq!(retry.tries, 2);
    assert_eq!(retry.waits, 1);
}
