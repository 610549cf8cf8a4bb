use pass_it_on::client::sign_ready_messages;
use pass_it_on::notifications::{Key, Message};
use pass_it_on::shutdown::{next_phase, DispatchEvent, DispatchPhase, ShutdownSignal};

#[test]
fn shutdown_flag_is_monotonic() {
    let mut signal = ShutdownSignal::new();
    assert!(!signal.is_triggered());
    signal.trigger();
    assert!(signal.is_triggered());
    // Triggering again never turns it off.
    signal.trigger();
    assert!(signal.is_triggered());
}

#[test]
fn dispatch_reaches_drained_within_the_grace_protocol() {
    let mut phase = DispatchPhase::Configured;
    phase = next_phase(phase, DispatchEvent::StartRequested);
    assert_eq!(phase, DispatchPhase::Starting);
    phase = next_phase(phase, DispatchEvent::AllReady);
    assert_eq!(phase, DispatchPhase::Running);
    phase = next_phase(phase, DispatchEvent::ShutdownRequested);
    assert_eq!(phase, DispatchPhase::ShuttingDown);
    phase = next_phase(phase, DispatchEvent::GraceElapsed);
    assert_eq!(phase, DispatchPhase::Drained);
}

#[test]
fn drained_is_terminal_and_phases_never_regress() {
    for event in [
        DispatchEvent::StartRequested,
        DispatchEvent::AllReady,
        DispatchEvent::ShutdownRequested,
        DispatchEvent::GraceElapsed,
    ] {
        assert_eq!(next_phase(DispatchPhase::Drained, event), DispatchPhase::Drained);
        assert_eq!(
            next_phase(DispatchPhase::ShuttingDown, DispatchEvent::AllReady),
            DispatchPhase::ShuttingDown
        );
    }
    // A shutdown request while starting skips running entirely.
    assert_eq!(
        next_phase(DispatchPhase::Starting, DispatchEvent::ShutdownRequested),
        DispatchPhase::ShuttingDown
    );
}

#[test]
fn queued_messages_are_signed_in_order() {
    let mut bytes = [0u8; 32];
    bytes.copy_from_slice("UVXu7wtbXHWNgAr6rWyPnaZbZK9aYin8".as_bytes());
    let master = Key::from_bytes(&bytes);
    let queue = vec![
        Message::with_time("one", 1).to_client_ready_message("n1"),
        Message::with_time("two", 2).to_client_ready_message("n2"),
    ];
    let signed = sign_ready_messages(queue, &master);
    assert_eq!(signed.len(), 2);
    assert_eq!(signed[0].message().text(), "one");
    assert_eq!(signed[1].message().text(), "two");
    assert!(signed[0].validate(&Key::generate("n1", &master)));
    assert!(!signed[0].validate(&Key::generate("n2", &master)));
    assert!(signed[1].validate(&Key::generate("n2", &master)));
}
