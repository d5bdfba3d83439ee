//! The decisions of telnet option negotiation on a connection: the setup
//! loop that exchanges options with the host before a session starts (at
//! most 30 rounds and 15 seconds), and the replies to option requests that
//! arrive while it is still incomplete. The program performs the actions
//! (reads, writes, pauses, the negotiator's own work) and reports what
//! happened as events.

use vstd::prelude::*;

verus! {

/// Rounds of option exchange the setup loop allows.
pub const MAX_NEGOTIATION_ATTEMPTS: usize = 30;

/// Seconds the setup loop allows.
pub const NEGOTIATION_TIMEOUT_SECS: u64 = 15;

/// How the setup loop ended.
#[derive(Debug, Clone, Copy, PartialEq, Eq, Structural)]
pub enum NegotiationEnd {
    /// The negotiator reports the negotiation complete.
    Complete,
    /// Not complete, but the negotiator accepted to proceed with the
    /// options it has.
    Partial,
    /// Essential options were not negotiated: the connection fails.
    Failed,
}

/// Where the negotiation stands.
#[derive(Debug, Clone, Copy, PartialEq, Eq, Structural)]
pub struct NegotiationLoop {
    /// Whether the setup loop runs (before a session starts).
    pub setup: bool,
    /// Rounds of host data handled by the setup loop.
    pub attempts: usize,
    /// How the setup loop ended, once it has.
    pub outcome: Option<NegotiationEnd>,
}

/// What happened, as the program reports it.
#[derive(Debug, Clone, Copy, PartialEq, Eq, Structural)]
pub enum NegotiationEvent {
    /// The connection is open; the negotiator's opening requests are
    /// `initial_len` bytes long.
    Opened { initial_len: usize },
    /// Before a round: whether the negotiator reports completion, and the
    /// whole seconds since the setup loop began.
    Check { complete: bool, elapsed_secs: u64 },
    /// A read from the host gave `bytes` bytes (0: the host closed).
    Received { bytes: usize },
    /// The negotiator answered the host's data with `response_len` bytes.
    Reply { response_len: usize },
    /// A read timed out (or would block).
    TimedOut,
    /// A read or write failed otherwise.
    IoError,
    /// The setup loop stopped: whether the negotiator reports completion.
    Conclude { complete: bool },
    /// The negotiator was asked to proceed without completion: whether it
    /// accepted.
    Forced { accepted: bool },
    /// Data arrived on a running connection; `negotiated` tells whether
    /// negotiation completed.
    HostData { negotiated: bool },
}

/// What the program is to do next.
#[derive(Debug, Clone, Copy, PartialEq, Eq, Structural)]
pub enum NegotiationAction {
    /// Send the opening requests, then report `Check`.
    SendInitial,
    /// Report `Check`.
    Poll,
    /// Read from the host and report `Received`, `TimedOut` or `IoError`.
    Read,
    /// Hand the host's data to the negotiator and report `Reply`.
    Negotiate,
    /// Send the negotiator's answer, pause, then report `Check`.
    SendReplyAndWait,
    /// Pause, then report `Check`.
    Wait,
    /// Ask the negotiator to proceed (ignoring its answer), then report
    /// `Conclude`.
    ForceThenConclude,
    /// Report `Conclude`.
    Conclude,
    /// Ask the negotiator to proceed and report `Forced`.
    ForceFinal,
    /// The setup loop is over with this outcome (a failure fails the
    /// connection).
    Finish(NegotiationEnd),
    /// Give up with the I/O error.
    Abort,
    /// Send the negotiator's answer, then deliver the data.
    SendReplyAndDeliver,
    /// Deliver the data.
    Deliver,
}

impl NegotiationLoop {
    /// The setup loop before anything happened.
    pub open spec fn spec_start() -> Self {
        NegotiationLoop { setup: true, attempts: 0, outcome: None }
    }

    /// The setup loop before anything happened.
    pub fn start() -> (r: Self)
        ensures
            r == Self::spec_start(),
    {
        NegotiationLoop { setup: true, attempts: 0, outcome: None }
    }
}

/// The loop after the setup ended with `end`.
pub open spec fn finished(st: NegotiationLoop, end: NegotiationEnd) -> (NegotiationLoop, NegotiationAction) {
    (NegotiationLoop { setup: false, outcome: Some(end), ..st }, NegotiationAction::Finish(end))
}

/// One decision:
/// - on opening, the setup loop starts (no rounds yet) and sends the
///   opening requests if there are any;
/// - a round starts unless the negotiator reports completion, 30 rounds
///   were used or 15 seconds passed, in which case the loop concludes;
/// - a read of nothing (the host closed) concludes; data go to the
///   negotiator;
/// - in the setup loop the negotiator's answer counts a round and is sent
///   if not empty, with a pause either way; on a running connection it is
///   sent if not empty, and the data are delivered;
/// - a timed-out read asks the negotiator to proceed and concludes;
/// - another I/O error aborts the setup loop (on a running connection it
///   is only reported, and the data are delivered);
/// - at the conclusion a complete negotiation ends the loop as complete;
///   otherwise the negotiator is asked to proceed, and the loop ends as
///   partial if it accepts, else as failed;
/// - data on a running connection go to the negotiator while negotiation
///   is incomplete, and are delivered once it completed.
pub open spec fn spec_negotiation_step(st: NegotiationLoop, ev: NegotiationEvent) -> (NegotiationLoop, NegotiationAction) {
    match ev {
        NegotiationEvent::Opened { initial_len } => (
            NegotiationLoop::spec_start(),
            if initial_len > 0 { NegotiationAction::SendInitial } else { NegotiationAction::Poll },
        ),
        NegotiationEvent::Check { complete, elapsed_secs } => (
            st,
            if complete || st.attempts >= MAX_NEGOTIATION_ATTEMPTS || elapsed_secs >= NEGOTIATION_TIMEOUT_SECS {
                NegotiationAction::Conclude
            } else {
                NegotiationAction::Read
            },
        ),
        NegotiationEvent::Received { bytes } => (
            st,
            if bytes == 0 { NegotiationAction::Conclude } else { NegotiationAction::Negotiate },
        ),
        NegotiationEvent::Reply { response_len } => if st.setup {
            (
                NegotiationLoop { attempts: if st.attempts == usize::MAX { st.attempts } else { (st.attempts + 1) as usize }, ..st },
                if response_len > 0 { NegotiationAction::SendReplyAndWait } else { NegotiationAction::Wait },
            )
        } else {
            (st, if response_len > 0 { NegotiationAction::SendReplyAndDeliver } else { NegotiationAction::Deliver })
        },
        NegotiationEvent::TimedOut => (st, NegotiationAction::ForceThenConclude),
        NegotiationEvent::IoError => (st, if st.setup { NegotiationAction::Abort } else { NegotiationAction::Deliver }),
        NegotiationEvent::Conclude { complete } => if complete {
            finished(st, NegotiationEnd::Complete)
        } else {
            (st, NegotiationAction::ForceFinal)
        },
        NegotiationEvent::Forced { accepted } => finished(st, if accepted { NegotiationEnd::Partial } else { NegotiationEnd::Failed }),
        NegotiationEvent::HostData { negotiated } => (st, if negotiated { NegotiationAction::Deliver } else { NegotiationAction::Negotiate }),
    }
}

/// One decision (see `spec_negotiation_step`).
pub fn negotiation_step(st: NegotiationLoop, ev: NegotiationEvent) -> (r: (NegotiationLoop, NegotiationAction))
    ensures
        r == spec_negotiation_step(st, ev),
{
    match ev {
        NegotiationEvent::Opened { initial_len } => (
            NegotiationLoop::start(),
            if initial_len > 0 { NegotiationAction::SendInitial } else { NegotiationAction::Poll },
        ),
        NegotiationEvent::Check { complete, elapsed_secs } => (
            st,
            if complete || st.attempts >= MAX_NEGOTIATION_ATTEMPTS || elapsed_secs >= NEGOTIATION_TIMEOUT_SECS {
                NegotiationAction::Conclude
            } else {
                NegotiationAction::Read
            },
        ),
        NegotiationEvent::Received { bytes } => (
            st,
            if bytes == 0 { NegotiationAction::Conclude } else { NegotiationAction::Negotiate },
        ),
        NegotiationEvent::Reply { response_len } => if st.setup {
            let attempts = if st.attempts == usize::MAX { st.attempts } else { st.attempts + 1 };
            (
                NegotiationLoop { attempts, ..st },
                if response_len > 0 { NegotiationAction::SendReplyAndWait } else { NegotiationAction::Wait },
            )
        } else {
            (st, if response_len > 0 { NegotiationAction::SendReplyAndDeliver } else { NegotiationAction::Deliver })
        },
        NegotiationEvent::TimedOut => (st, NegotiationAction::ForceThenConclude),
        NegotiationEvent::IoError => (st, if st.setup { NegotiationAction::Abort } else { NegotiationAction::Deliver }),
        NegotiationEvent::Conclude { complete } => if complete {
            (NegotiationLoop { setup: false, outcome: Some(NegotiationEnd::Complete), ..st }, NegotiationAction::Finish(NegotiationEnd::Complete))
        } else {
            (st, NegotiationAction::ForceFinal)
        },
        NegotiationEvent::Forced { accepted } => {
            let end = if accepted { NegotiationEnd::Partial } else { NegotiationEnd::Failed };
            (NegotiationLoop { setup: false, outcome: Some(end), ..st }, NegotiationAction::Finish(end))
        },
        NegotiationEvent::HostData { negotiated } => (st, if negotiated { NegotiationAction::Deliver } else { NegotiationAction::Negotiate }),
    }
}

/// The setup loop stops after at most 30 rounds: once 30 rounds were
/// counted, a check concludes whatever the negotiator and the clock say.
pub proof fn lemma_rounds_bounded(st: NegotiationLoop, complete: bool, elapsed_secs: u64)
    requires
        st.attempts >= MAX_NEGOTIATION_ATTEMPTS,
    ensures
        spec_negotiation_step(st, NegotiationEvent::Check { complete, elapsed_secs }).1 == NegotiationAction::Conclude,
{
}

/// A negotiation that is not complete ends as partial exactly when the
/// negotiator accepts to proceed, and as failed otherwise; a complete one
/// ends as complete without asking.
pub proof fn lemma_conclusion(st: NegotiationLoop, complete: bool, accepted: bool)
    ensures
        complete ==> spec_negotiation_step(st, NegotiationEvent::Conclude { complete }).1 == NegotiationAction::Finish(NegotiationEnd::Complete),
        !complete ==> spec_negotiation_step(st, NegotiationEvent::Conclude { complete }).1 == NegotiationAction::ForceFinal,
        spec_negotiation_step(st, NegotiationEvent::Forced { accepted }).1 == NegotiationAction::Finish(
            if accepted { NegotiationEnd::Partial } else { NegotiationEnd::Failed },
        ),
{
}

} // verus!
