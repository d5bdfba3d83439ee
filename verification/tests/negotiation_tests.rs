use tn5250r::negotiation::{negotiation_step, NegotiationAction, NegotiationEnd, NegotiationEvent, NegotiationLoop};

#[test]
fn test_negotiation_setup_rounds() {
    let (st, a) = negotiation_step(NegotiationLoop::start(), NegotiationEvent::Opened { initial_len: 6 });
    assert_eq!(a, NegotiationAction::SendInitial);
    let (st, a) = negotiation_step(st, NegotiationEvent::Check { complete: false, elapsed_secs: 0 });
    assert_eq!(a, NegotiationAction::Read);
    let (st, a) = negotiation_step(st, NegotiationEvent::Received { bytes: 3 });
    assert_eq!(a, NegotiationAction::Negotiate);
    let (st, a) = negotiation_step(st, NegotiationEvent::Reply { response_len: 3 });
    assert_eq!(a, NegotiationAction::SendReplyAndWait);
    assert_eq!(st.attempts, 1);
    let (st, a) = negotiation_step(st, NegotiationEvent::Check { complete: true, elapsed_secs: 1 });
    assert_eq!(a, NegotiationAction::Conclude);
    let (st, a) = negotiation_step(st, NegotiationEvent::Conclude { complete: true });
    assert_eq!(a, NegotiationAction::Finish(NegotiationEnd::Complete));
    assert!(!st.setup);
    assert_eq!(st.outcome, Some(NegotiationEnd::Complete));
}

#[test]
fn test_negotiation_limits() {
    let st = NegotiationLoop { setup: true, attempts: 30, outcome: None };
    assert_eq!(negotiation_step(st, NegotiationEvent::Check { complete: false, elapsed_secs: 0 }).1, NegotiationAction::Conclude);
    let st = NegotiationLoop { setup: true, attempts: 29, outcome: None };
    assert_eq!(negotiation_step(st, NegotiationEvent::Check { complete: false, elapsed_secs: 14 }).1, NegotiationAction::Read);
    assert_eq!(negotiation_step(st, NegotiationEvent::Check { complete: false, elapsed_secs: 15 }).1, NegotiationAction::Conclude);
    assert_eq!(negotiation_step(st, NegotiationEvent::Received { bytes: 0 }).1, NegotiationAction::Conclude);
    assert_eq!(negotiation_step(st, NegotiationEvent::TimedOut).1, NegotiationAction::ForceThenConclude);
    assert_eq!(negotiation_step(st, NegotiationEvent::IoError).1, NegotiationAction::Abort);
}

#[test]
fn test_negotiation_conclusions() {
    let st = NegotiationLoop::start();
    assert_eq!(negotiation_step(st, NegotiationEvent::Conclude { complete: false }).1, NegotiationAction::ForceFinal);
    assert_eq!(negotiation_step(st, NegotiationEvent::Forced { accepted: true }).1, NegotiationAction::Finish(NegotiationEnd::Partial));
    assert_eq!(negotiation_step(st, NegotiationEvent::Forced { accepted: false }).1, NegotiationAction::Finish(NegotiationEnd::Failed));
}

#[test]
fn test_negotiation_running_replies() {
    let st = NegotiationLoop { setup: false, attempts: 4, outcome: Some(NegotiationEnd::Partial) };
    assert_eq!(negotiation_step(st, NegotiationEvent::HostData { negotiated: false }).1, NegotiationAction::Negotiate);
    assert_eq!(negotiation_step(st, NegotiationEvent::HostData { negotiated: true }).1, NegotiationAction::Deliver);
    assert_eq!(negotiation_step(st, NegotiationEvent::Reply { response_len: 2 }), (st, NegotiationAction::SendReplyAndDeliver));
    assert_eq!(negotiation_step(st, NegotiationEvent::Reply { response_len: 0 }), (st, NegotiationAction::Deliver));
    assert_eq!(negotiation_step(st, NegotiationEvent::IoError).1, NegotiationAction::Deliver);
}
