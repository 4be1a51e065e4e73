//! How the two processes are told to stop.
//!
//! A process is stopped from outside by a signal, which raises its shutdown
//! flag. The receiver stops the producer by a control byte: the two may run
//! under different users and cannot signal each other, but they share a
//! pipe. This module says which signals each role listens for and what goes
//! over the control channel. Installing handlers and moving the byte is the
//! caller's part.

use crate::lifecycle::Role;
use vstd::prelude::*;

verus! {

/// The byte that the receiver writes to ask the producer to stop.
pub const CONTROL_BYTE: u8 = 0x0A;

/// A signal that raises the shutdown flag.
#[derive(Clone, Copy, Debug, PartialEq, Eq, Structural)]
pub enum ShutdownSignal {
    /// The terminate signal.
    Terminate,
    /// The interrupt signal.
    Interrupt,
    /// The first user-defined signal: an operator's request to stop.
    User1,
}

/// The signals that raise the shutdown flag of a role, in the order in
/// which they are registered: terminate and interrupt for both, and the
/// user-defined signal for the receiver.
pub open spec fn signals_of(role: Role) -> Seq<ShutdownSignal> {
    match role {
        Role::Producer => seq![ShutdownSignal::Terminate, ShutdownSignal::Interrupt],
        Role::Receiver => seq![
            ShutdownSignal::Terminate,
            ShutdownSignal::Interrupt,
            ShutdownSignal::User1,
        ],
    }
}

/// The signals for which `role` installs a handler.
pub fn shutdown_signals(role: Role) -> (signals: Vec<ShutdownSignal>)
    ensures
        signals@ == signals_of(role),
{
    let mut signals: Vec<ShutdownSignal> = Vec::new();
    signals.push(ShutdownSignal::Terminate);
    signals.push(ShutdownSignal::Interrupt);
    if let Role::Receiver = role {
        signals.push(ShutdownSignal::User1);
    }
    signals
}

/// What the receiver writes to the control channel: the control byte, once.
pub fn control_message() -> (message: Vec<u8>)
    ensures
        message@ == seq![CONTROL_BYTE],
{
    let mut message: Vec<u8> = Vec::new();
    message.push(CONTROL_BYTE);
    message
}

} // verus!
