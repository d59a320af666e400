use secret_agent::connection::{Action, Connection, Event, Phase};

#[test]
fn encrypted_connection_shakes_hands_then_serves() {
    let mut c = Connection::accepted(true);
    assert_eq!(c, Connection { encrypted: true, phase: Phase::Accepted });
    assert_eq!(c.on_event(Event::Started), Action::Handshake);
    assert_eq!(c.phase, Phase::Handshaking);
    assert_eq!(c.on_event(Event::HandshakeCompleted), Action::Serve);
    assert_eq!(c.phase, Phase::Serving);
    assert!(!c.is_closed());
    assert_eq!(c.on_event(Event::Finished), Action::Discard);
    assert_eq!(c.phase, Phase::Closed);
    assert!(c.is_closed());
}

#[test]
fn plain_connection_serves_at_once() {
    let mut c = Connection::accepted(false);
    assert_eq!(c.on_event(Event::Started), Action::Serve);
    assert_eq!(c.phase, Phase::Serving);
    assert_eq!(c.on_event(Event::Finished), Action::Discard);
    assert!(c.is_closed());
    assert!(!c.encrypted);
}

#[test]
fn failed_handshake_discards_the_connection() {
    let mut c = Connection::accepted(true);
    c.on_event(Event::Started);
    assert_eq!(c.on_event(Event::HandshakeFailed), Action::Discard);
    assert!(c.is_closed());
    for event in [Event::Started, Event::HandshakeCompleted, Event::HandshakeFailed, Event::Finished] {
        assert_eq!(c.on_event(event), Action::Nothing);
        assert!(c.is_closed());
    }
}

#[test]
fn event_out_of_place_ends_the_connection() {
    let cases = [
        (Phase::Accepted, Event::HandshakeCompleted),
        (Phase::Accepted, Event::HandshakeFailed),
        (Phase::Accepted, Event::Finished),
        (Phase::Handshaking, Event::Started),
        (Phase::Handshaking, Event::Finished),
        (Phase::Serving, Event::Started),
        (Phase::Serving, Event::HandshakeCompleted),
        (Phase::Serving, Event::HandshakeFailed),
    ];
    for encrypted in [false, true] {
        for (phase, event) in cases {
            let mut c = Connection { encrypted, phase };
            assert_eq!(c.on_event(event), Action::Discard, "{:?} {:?}", phase, event);
            assert_eq!(c, Connection { encrypted, phase: Phase::Closed });
        }
    }
}

#[test]
fn failed_handshake_leaves_other_connections_alone() {
    let mut bad = Connection::accepted(true);
    let mut good = Connection::accepted(true);
    assert_eq!(bad.on_event(Event::Started), Action::Handshake);
    assert_eq!(good.on_event(Event::Started), Action::Handshake);
    assert_eq!(bad.on_event(Event::HandshakeFailed), Action::Discard);
    assert_eq!(good.on_event(Event::HandshakeCompleted), Action::Serve);
    assert_eq!(good.phase, Phase::Serving);
    assert_eq!(bad.phase, Phase::Closed);
}
