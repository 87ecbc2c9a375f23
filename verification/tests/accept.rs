use drawbridge_boot::accept::{initial_phase, log_target, step, Action, Event, Phase};

fn accepted(peer: &str) -> Event {
    Event::Accepted { peer: Some(peer.to_string()) }
}

#[test]
fn acceptor_starts_listening() {
    assert_eq!(initial_phase(), Phase::Listening);
    assert_eq!(log_target(), "main");
}

#[test]
fn arriving_connection_is_handled() {
    let (phase, action) = step(Phase::Listening, accepted("10.0.0.7:51000"));
    assert_eq!(phase, Phase::Handling);
    match action {
        Action::Handle { note } => assert_eq!(note, "received TCP connection from 10.0.0.7:51000"),
        other => panic!("{:?}", other),
    }
}

#[test]
fn unknown_peer_is_logged_as_such() {
    let (phase, action) = step(Phase::Listening, Event::Accepted { peer: None });
    assert_eq!(phase, Phase::Handling);
    match action {
        Action::Handle { note } => assert_eq!(note, "received TCP connection from unknown address"),
        other => panic!("{:?}", other),
    }
}

#[test]
fn failed_accept_is_reported_and_listening_goes_on() {
    let (phase, action) = step(Phase::Listening, Event::AcceptFailed);
    assert_eq!(phase, Phase::Listening);
    match action {
        Action::Report { message } => {
            assert_eq!(message, "failed to handle request: failed to initialize connection")
        }
        other => panic!("{:?}", other),
    }
}

#[test]
fn handled_connection_leads_to_the_next_accept() {
    let (phase, action) = step(Phase::Handling, Event::Handled);
    assert_eq!(phase, Phase::Listening);
    assert!(matches!(action, Action::Accept));
}

#[test]
fn failed_handler_is_reported_and_listening_goes_on() {
    let (phase, action) =
        step(Phase::Handling, Event::HandlerFailed { reason: "tls handshake eof".to_string() });
    assert_eq!(phase, Phase::Listening);
    match action {
        Action::Report { message } => assert_eq!(message, "failed to handle request: tls handshake eof"),
        other => panic!("{:?}", other),
    }
    let (phase, action) = step(phase, accepted("10.0.0.8:2"));
    assert_eq!(phase, Phase::Handling);
    assert!(matches!(action, Action::Handle { .. }));
}

#[test]
fn second_connection_waits_for_the_first() {
    let (phase, first) = step(initial_phase(), accepted("10.0.0.1:1"));
    assert!(matches!(first, Action::Handle { .. }));
    let (phase, second) = step(phase, accepted("10.0.0.2:2"));
    assert_eq!(phase, Phase::Handling);
    assert!(matches!(second, Action::Ignore));
    let (phase, failed) = step(phase, Event::AcceptFailed);
    assert_eq!(phase, Phase::Handling);
    assert!(matches!(failed, Action::Ignore));
    let (phase, done) = step(phase, Event::Handled);
    assert_eq!(phase, Phase::Listening);
    assert!(matches!(done, Action::Accept));
    let (phase, again) = step(phase, accepted("10.0.0.2:2"));
    assert_eq!(phase, Phase::Handling);
    assert!(matches!(again, Action::Handle { .. }));
}

#[test]
fn completion_without_a_running_handler_is_ignored() {
    let (phase, action) = step(Phase::Listening, Event::Handled);
    assert_eq!(phase, Phase::Listening);
    assert!(matches!(action, Action::Ignore));
    let (phase, action) = step(Phase::Listening, Event::HandlerFailed { reason: "x".to_string() });
    assert_eq!(phase, Phase::Listening);
    assert!(matches!(action, Action::Ignore));
}

#[test]
fn handlers_never_overlap_in_a_long_run() {
    let events = vec![
        accepted("a"),
        Event::HandlerFailed { reason: "boom".to_string() },
        Event::AcceptFailed,
        accepted("b"),
        accepted("c"),
        Event::Handled,
        accepted("d"),
        Event::Handled,
        Event::Handled,
    ];
    let mut phase = initial_phase();
    let mut running = 0;
    let mut started = 0;
    for event in events {
        let (next, action) = step(phase, event);
        match action {
            Action::Handle { .. } => {
                running += 1;
                started += 1;
            }
            Action::Accept | Action::Report { .. } => {
                if phase == Phase::Handling {
                    running -= 1;
                }
            }
            Action::Ignore => {}
        }
        assert!(running == 0 || running == 1);
        assert_eq!(running == 1, next == Phase::Handling);
        phase = next;
    }
    assert_eq!(started, 3);
    assert_eq!(phase, Phase::Listening);
}
