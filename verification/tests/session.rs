use mkpw::config::Mkpw;
use mkpw::capture::Event;
use mkpw::session::{Action, Failure, Prompt, Stage};

fn settings(list: &[&str]) -> Mkpw {
    Mkpw::new(list.iter().map(|w| w.to_string()).collect()).unwrap()
}

fn typing(lines: &[&str]) -> Vec<Event> {
    let mut events = Vec::new();
    for line in lines {
        for c in line.chars() {
            events.push(Event::Character(c));
        }
        events.push(Event::Character('\n'));
    }
    events
}

fn is_mask(action: &Action) -> bool {
    match action {
        Action::Echo(mask) => mask.chars().count() == 11 && mask.chars().all(|c| c == 'O' || c == 'o'),
        _ => false,
    }
}

#[test]
fn confirmation_that_differs_is_a_mismatch() {
    let mkpw = settings(&["mkpw", "example.com"]);
    assert_eq!(mkpw.run(&typing(&["abc", "abd"])), Some(Err(Failure::ConfirmationMismatch)));
}

#[test]
fn mismatch_shows_no_password() {
    let mkpw = settings(&["mkpw", "example.com"]);
    let (mut session, first) = mkpw.begin();
    assert_eq!(first, Action::Ask(Prompt::Passphrase));
    let mut last = first;
    for event in typing(&["abc", "abd"]) {
        last = mkpw.step(&mut session, event);
        assert!(!matches!(last, Action::Reveal(_)));
    }
    assert_eq!(last, Action::Fail(Failure::ConfirmationMismatch));
    assert_eq!(session.stage(), Stage::Closed);
}

#[test]
fn confirmation_that_agrees_gives_the_password() {
    let mkpw = settings(&["mkpw", "example.com"]);
    assert_eq!(mkpw.run(&typing(&["abc", "abc"])), Some(Ok("fjkLRi0Bwf".to_string())));
    assert_eq!(
        mkpw.run(&typing(&["correct horse", "correct horse"])),
        Some(Ok("ZIAg8FZElW".to_string()))
    );
}

#[test]
fn without_confirmation_one_entry_is_enough() {
    let mkpw = settings(&["mkpw", "-n", "example.com"]);
    assert_eq!(mkpw.run(&typing(&["abc"])), Some(Ok("fjkLRi0Bwf".to_string())));
    assert_eq!(mkpw.run(&typing(&["abc", "abd"])), Some(Ok("fjkLRi0Bwf".to_string())));
}

#[test]
fn entries_are_trimmed_before_derivation() {
    let mkpw = settings(&["mkpw", "-n", "example.com"]);
    let password = mkpw.run(&typing(&["  secret  "])).unwrap().unwrap();
    assert_eq!(password, mkpw::deriver::derive("example.com", "secret", false, 10));
    assert_eq!(password, "fKzmUvJtiI");
    assert_ne!(password, mkpw::deriver::derive("example.com", "  secret  ", false, 10));
}

#[test]
fn entries_are_trimmed_before_comparison() {
    let mkpw = settings(&["mkpw", "example.com"]);
    assert_eq!(mkpw.run(&typing(&[" secret", "secret\t"])), Some(Ok("fKzmUvJtiI".to_string())));
    assert_eq!(
        mkpw.run(&typing(&["sec ret", "secret"])),
        Some(Err(Failure::ConfirmationMismatch))
    );
}

#[test]
fn empty_passphrase_is_a_passphrase() {
    let mkpw = settings(&["mkpw", "-n", "a"]);
    assert_eq!(mkpw.run(&typing(&[""])), Some(Ok("NXUDmGlRuA".to_string())));
    assert_eq!(mkpw.run(&typing(&["   "])), Some(Ok("NXUDmGlRuA".to_string())));
}

#[test]
fn run_follows_the_settings() {
    let mkpw = settings(&["mkpw", "-n", "-a", "-l", "24", "example.com"]);
    assert_eq!(mkpw.run(&typing(&["p83"])), Some(Ok("_CC-1IaJqsWWjqMRi1ITEQ==".to_string())));
}

#[test]
fn run_that_ends_early() {
    let mkpw = settings(&["mkpw", "example.com"]);
    assert_eq!(mkpw.run(&Vec::new()), None);
    assert_eq!(mkpw.run(&typing(&["abc"])), None);
    let mut events = typing(&["abc"]);
    events.push(Event::Character('a'));
    assert_eq!(mkpw.run(&events), None);
}

#[test]
fn run_stops_at_the_end_of_the_dialogue() {
    let mkpw = settings(&["mkpw", "example.com"]);
    let mut events = typing(&["abc", "abc"]);
    events.push(Event::ReadFailure);
    assert_eq!(mkpw.run(&events), Some(Ok("fjkLRi0Bwf".to_string())));
}

#[test]
fn read_failure_ends_the_dialogue() {
    let mkpw = settings(&["mkpw", "example.com"]);
    assert_eq!(mkpw.run(&vec![Event::ReadFailure]), Some(Err(Failure::TerminalReadError)));
    let mut events = typing(&["abc"]);
    events.push(Event::Character('a'));
    events.push(Event::ReadFailure);
    events.extend(typing(&["bc"]));
    assert_eq!(mkpw.run(&events), Some(Err(Failure::TerminalReadError)));
}

#[test]
fn other_events_change_nothing() {
    let mkpw = settings(&["mkpw", "example.com"]);
    let events = vec![
        Event::Other,
        Event::Character('a'),
        Event::Idle,
        Event::Character('b'),
        Event::Other,
        Event::Character('c'),
        Event::Character('\n'),
        Event::Idle,
        Event::Character('a'),
        Event::Character('b'),
        Event::Other,
        Event::Character('c'),
        Event::Character('\n'),
    ];
    assert_eq!(mkpw.run(&events), Some(Ok("fjkLRi0Bwf".to_string())));
}

#[test]
fn every_keystroke_is_echoed_as_a_mask() {
    let mkpw = settings(&["mkpw", "example.com"]);
    let (mut session, _) = mkpw.begin();
    for c in ['a', ' ', 'ä', '\t', '\r', '\u{1f600}', 'O', '\u{8}'] {
        let action = mkpw.step(&mut session, Event::Character(c));
        assert!(is_mask(&action), "{:?}", action);
        assert_eq!(session.stage(), Stage::Entering);
    }
}

#[test]
fn step_by_step_through_a_dialogue() {
    let mkpw = settings(&["mkpw", "example.com"]);
    let (mut session, first) = mkpw.begin();
    assert_eq!(first, Action::Ask(Prompt::Passphrase));
    assert_eq!(session.stage(), Stage::Entering);
    assert_eq!(mkpw.step(&mut session, Event::Other), Action::ReadOn);
    assert_eq!(mkpw.step(&mut session, Event::Idle), Action::ReadOn);
    assert!(is_mask(&mkpw.step(&mut session, Event::Character('a'))));
    assert!(is_mask(&mkpw.step(&mut session, Event::Character('b'))));
    assert!(is_mask(&mkpw.step(&mut session, Event::Character('c'))));
    assert_eq!(mkpw.step(&mut session, Event::Character('\n')), Action::Ask(Prompt::Confirmation));
    assert_eq!(session.stage(), Stage::Confirming);
    assert!(is_mask(&mkpw.step(&mut session, Event::Character('a'))));
    assert_eq!(mkpw.step(&mut session, Event::Other), Action::ReadOn);
    assert!(is_mask(&mkpw.step(&mut session, Event::Character('b'))));
    assert!(is_mask(&mkpw.step(&mut session, Event::Character('c'))));
    assert_eq!(session.stage(), Stage::Confirming);
    assert_eq!(
        mkpw.step(&mut session, Event::Character('\n')),
        Action::Reveal("fjkLRi0Bwf".to_string())
    );
    assert_eq!(session.stage(), Stage::Closed);
}

#[test]
fn nothing_moves_a_closed_dialogue() {
    let mkpw = settings(&["mkpw", "-n", "example.com"]);
    let (mut session, _) = mkpw.begin();
    assert_eq!(mkpw.step(&mut session, Event::ReadFailure), Action::Fail(Failure::TerminalReadError));
    assert_eq!(session.stage(), Stage::Closed);
    assert_eq!(mkpw.step(&mut session, Event::Character('a')), Action::ReadOn);
    assert_eq!(mkpw.step(&mut session, Event::Character('\n')), Action::ReadOn);
    assert_eq!(mkpw.step(&mut session, Event::ReadFailure), Action::ReadOn);
    assert_eq!(mkpw.step(&mut session, Event::Other), Action::ReadOn);
    assert_eq!(session.stage(), Stage::Closed);
}

#[test]
fn read_failure_while_confirming() {
    let mkpw = settings(&["mkpw", "example.com"]);
    let (mut session, _) = mkpw.begin();
    for event in typing(&["abc"]) {
        mkpw.step(&mut session, event);
    }
    assert_eq!(session.stage(), Stage::Confirming);
    assert_eq!(mkpw.step(&mut session, Event::ReadFailure), Action::Fail(Failure::TerminalReadError));
    assert_eq!(session.stage(), Stage::Closed);
}

#[test]
fn prompts_and_failures_in_words() {
    assert_eq!(Prompt::Passphrase.text(), "Enter passphrase:");
    assert_eq!(Prompt::Confirmation.text(), "Confirm passphrase:");
    assert_eq!(Failure::ConfirmationMismatch.message(), "Passphrase and confirmation do not match!");
    assert_eq!(Failure::TerminalReadError.message(), "Error reading from terminal!");
}

#[test]
fn announcement_names_the_domain() {
    let mkpw = settings(&["mkpw", "example.com"]);
    assert_eq!(
        mkpw.announcement("ZIAg8FZElW"),
        "Password for domain 'example.com': ZIAg8FZElW"
    );
    assert_eq!(mkpw.announcement(""), "Password for domain 'example.com': ");
}
