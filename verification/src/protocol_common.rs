//! What every terminal protocol processor offers to a session.

use vstd::prelude::*;

verus! {

/// A terminal protocol: consumes host data, produces replies, and answers
/// telnet option negotiation.
pub trait TerminalProtocol {
    /// What the processor keeps true between calls.
    spec fn inv(&self) -> bool;

    /// Process a block of host data.
    fn process_data(&mut self, data: &[u8]) -> (r: Result<(), String>)
        requires
            old(self).inv(),
        ensures
            final(self).inv(),
    ;

    /// The reply that processing left pending, if any.
    fn generate_response(&mut self) -> (r: Option<Vec<u8>>)
        requires
            old(self).inv(),
        ensures
            final(self).inv(),
    ;

    /// Return to the initial protocol state.
    fn reset(&mut self)
        requires
            old(self).inv(),
        ensures
            final(self).inv(),
    ;

    /// The protocol's name.
    fn protocol_name(&self) -> &str;

    /// Whether the protocol considers the session connected.
    fn is_connected(&self) -> bool;

    /// The answer to a telnet option request (`data` empty) or
    /// subnegotiation (`data` its payload).
    fn handle_negotiation(&mut self, option: u8, data: &[u8]) -> (r: Option<Vec<u8>>)
        requires
            old(self).inv(),
        ensures
            final(self).inv(),
    ;
}

} // verus!
