use vstd::prelude::*;

verus! {

/// What exactly was wrong with a reply that broke the wire protocol.
#[derive(Clone, Copy, Debug, PartialEq, Eq, Structural)]
pub enum Violation {
    /// A status byte that is neither acknowledgment; the byte is carried along.
    UnexpectedByte(u8),
    /// A frame or payload of the wrong length; the length is carried along.
    UnexpectedLength(usize),
}

/// Every way an operation of the harness can fail.
#[derive(Clone, Copy, Debug, PartialEq, Eq, Structural)]
pub enum Error {
    /// The byte transport reported a fault other than a timeout.
    Transport,
    /// The transport did not answer within the timeout in force.
    Timeout,
    /// The target answered a command with a negative acknowledgment.
    NegativeAcknowledge,
    /// The target answered with a byte or a length the protocol does not allow.
    ProtocolViolation(Violation),
    /// The command is not in the set the target reported.
    UnsupportedCommand(u8),
    /// No discovered channel holds a chip with this id.
    ChipNotFound(u16),
    /// The switch refused a selection.
    ChannelRejected,
    /// An external tool ended with a failure status.
    ExternalToolFailure,
}

impl Error {
    /// True for the errors that mean the target broke the wire protocol.
    pub open spec fn is_protocol_violation(self) -> bool {
        self is ProtocolViolation
    }
}

} // verus!
