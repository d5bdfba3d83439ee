//! The decisions of the loop that reads a connection's stream: what to do
//! with each read, when to retry and when to stop. The program does the
//! reads, the waiting and the forwarding of data, and reports each read as
//! an event.

use vstd::prelude::*;
use crate::network::{network_data_ok, validate_network_data};

verus! {

/// The largest read accepted, in bytes.
pub const MAX_READ_SIZE: usize = 8192;

/// Consecutive failed reads after which the loop stops.
pub const MAX_CONSECUTIVE_ERRORS: u32 = 10;

/// Milliseconds to wait before reading again after a read that timed out.
pub const RETRY_DELAY_MS: u64 = 50;

/// The receive loop's state: failed reads in a row.
#[derive(Debug, Clone, Copy, PartialEq, Eq, Structural)]
pub struct ReceiveLoop {
    pub consecutive_errors: u32,
}

/// What a read gave, as the program reports it.
#[derive(Debug, Clone, Copy, PartialEq, Eq, Structural)]
pub enum ReceiveEvent {
    /// `len` bytes were read; `sound` tells whether they pass the network
    /// data checks (see `read_event`).
    Read { len: usize, sound: bool },
    /// The read timed out or would block.
    TimedOut,
    /// The read failed otherwise.
    Failed,
    /// The data could not be handed on: the receiver is gone.
    ForwardFailed,
}

/// Why the loop stopped.
#[derive(Debug, Clone, Copy, PartialEq, Eq, Structural)]
pub enum StopReason {
    /// The host closed the connection.
    Closed,
    /// Too many failed reads in a row.
    TooManyErrors,
    /// The receiver of the data is gone.
    ReceiverGone,
}

/// What the program is to do next.
#[derive(Debug, Clone, Copy, PartialEq, Eq, Structural)]
pub enum ReceiveAction {
    /// Hand the data on, then read again.
    Forward,
    /// Wait this many milliseconds, then read again.
    Retry(u64),
    /// A failed read: report suspicious data if `suspicious`, wait
    /// `millis` milliseconds, then read again.
    Backoff { millis: u64, suspicious: bool },
    /// Stop reading; report suspicious data first if `suspicious`.
    Stop { reason: StopReason, suspicious: bool },
}

impl ReceiveLoop {
    /// A loop with no failed read yet.
    pub fn new() -> (r: Self)
        ensures
            r.consecutive_errors == 0,
    {
        ReceiveLoop { consecutive_errors: 0 }
    }
}

/// The event for data that were read: their length and whether they pass
/// `network_data_ok`.
pub open spec fn spec_read_event(data: Seq<u8>) -> ReceiveEvent {
    ReceiveEvent::Read { len: data.len() as usize, sound: network_data_ok(data) }
}

/// The event for data that were read (see `spec_read_event`).
pub fn read_event(data: &[u8]) -> (r: ReceiveEvent)
    ensures
        r == spec_read_event(data@),
{
    ReceiveEvent::Read { len: data.len(), sound: validate_network_data(data) }
}

/// The loop after a failed read (suspicious data count as one): the count
/// goes up; at ten in a row the loop stops, else it waits 100 ms times the
/// count.
pub open spec fn failed_read(st: ReceiveLoop, suspicious: bool) -> (ReceiveLoop, ReceiveAction) {
    let c = if st.consecutive_errors == u32::MAX { u32::MAX } else { (st.consecutive_errors + 1) as u32 };
    (
        ReceiveLoop { consecutive_errors: c },
        if c >= MAX_CONSECUTIVE_ERRORS {
            ReceiveAction::Stop { reason: StopReason::TooManyErrors, suspicious }
        } else {
            ReceiveAction::Backoff { millis: (100 * c) as u64, suspicious }
        },
    )
}

/// One decision: a read of nothing means the host closed, and the loop
/// stops; a read over 8192 bytes, or of data that fail the network checks
/// (reported as suspicious), is a failed read (see `failed_read`); other
/// data clear the error count and are handed on; a read that timed out is
/// retried after 50 ms; another failed read counts as one; when the
/// receiver is gone the loop stops.
pub open spec fn spec_receive_step(st: ReceiveLoop, ev: ReceiveEvent) -> (ReceiveLoop, ReceiveAction) {
    match ev {
        ReceiveEvent::Read { len, sound } => if len == 0 {
            (st, ReceiveAction::Stop { reason: StopReason::Closed, suspicious: false })
        } else if len > MAX_READ_SIZE {
            failed_read(st, false)
        } else if !sound {
            failed_read(st, true)
        } else {
            (ReceiveLoop { consecutive_errors: 0 }, ReceiveAction::Forward)
        },
        ReceiveEvent::TimedOut => (st, ReceiveAction::Retry(RETRY_DELAY_MS)),
        ReceiveEvent::Failed => failed_read(st, false),
        ReceiveEvent::ForwardFailed => (st, ReceiveAction::Stop { reason: StopReason::ReceiverGone, suspicious: false }),
    }
}

/// A failed read (see `failed_read`).
fn count_failed_read(st: ReceiveLoop, suspicious: bool) -> (r: (ReceiveLoop, ReceiveAction))
    ensures
        r == failed_read(st, suspicious),
{
    let c = if st.consecutive_errors == u32::MAX { u32::MAX } else { st.consecutive_errors + 1 };
    if c >= MAX_CONSECUTIVE_ERRORS {
        (ReceiveLoop { consecutive_errors: c }, ReceiveAction::Stop { reason: StopReason::TooManyErrors, suspicious })
    } else {
        (ReceiveLoop { consecutive_errors: c }, ReceiveAction::Backoff { millis: 100 * (c as u64), suspicious })
    }
}

/// One decision (see `spec_receive_step`).
pub fn receive_step(st: ReceiveLoop, ev: ReceiveEvent) -> (r: (ReceiveLoop, ReceiveAction))
    ensures
        r == spec_receive_step(st, ev),
{
    match ev {
        ReceiveEvent::Read { len, sound } => if len == 0 {
            (st, ReceiveAction::Stop { reason: StopReason::Closed, suspicious: false })
        } else if len > MAX_READ_SIZE {
            count_failed_read(st, false)
        } else if !sound {
            count_failed_read(st, true)
        } else {
            (ReceiveLoop { consecutive_errors: 0 }, ReceiveAction::Forward)
        },
        ReceiveEvent::TimedOut => (st, ReceiveAction::Retry(RETRY_DELAY_MS)),
        ReceiveEvent::Failed => count_failed_read(st, false),
        ReceiveEvent::ForwardFailed => (st, ReceiveAction::Stop { reason: StopReason::ReceiverGone, suspicious: false }),
    }
}

/// The loop never reads on after ten failed reads in a row: from nine, a
/// failed read stops it.
pub proof fn lemma_errors_stop(st: ReceiveLoop, suspicious: bool)
    requires
        st.consecutive_errors >= MAX_CONSECUTIVE_ERRORS - 1,
    ensures
        failed_read(st, suspicious).1 == (ReceiveAction::Stop { reason: StopReason::TooManyErrors, suspicious }),
{
}

/// Only sound data of at most 8192 bytes are ever handed on.
pub proof fn lemma_forward_only_sound(st: ReceiveLoop, data: Seq<u8>)
    requires
        data.len() <= usize::MAX,
        spec_receive_step(st, spec_read_event(data)).1 == ReceiveAction::Forward,
    ensures
        0 < data.len() <= MAX_READ_SIZE,
        network_data_ok(data),
{
}

} // verus!
