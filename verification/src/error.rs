//! Errors surfaced by the codecs, the typed accessors and the session engine.

use vstd::prelude::*;
use crate::asdu::{CauseOfTransmission, TypeID};

verus! {

#[derive(Debug, Clone, Copy, PartialEq, Eq, Structural)]
pub enum Error {
    /// The ASDU's type identifier does not match the accessor or constructor called.
    ErrTypeIDNotMatch(TypeID),
    /// The cause of transmission is not one that the command family allows.
    ErrCmdCause(CauseOfTransmission),
    /// The type identifier octet maps to no known type.
    ErrUnknownTypeID(u8),
    /// The cause-of-transmission octet carries a cause number that maps to no known cause.
    ErrInvalidCause(u8),
    /// The byte sequence ends before the objects it declares.
    ErrAsduTooShort,
    /// The first octet of an APDU is not the start octet.
    ErrInvalidStartFrame(u8),
    /// The declared APDU length lies outside the allowed range.
    ErrInvalidApduLength(usize),
    /// The connection is gone.
    ErrUseClosedConnection,
    /// Telemetry transmission has not been activated.
    ErrNotActive,
}

} // verus!
