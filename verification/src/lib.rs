//! An IEC 60870-5-104 telecontrol protocol stack: APCI/ASDU codecs and the
//! per-connection session state machine, with machine-checked contracts.

pub mod apci;
pub mod asdu;
pub mod codec;
pub mod cproc;
pub mod csys;
pub mod error;
pub mod le;
pub mod mproc;
pub mod msys;
pub mod session;
pub mod station;
pub mod time;

use vstd::prelude::*;

verus! {

/// Start octet of every APDU on the wire.
pub const START_FRAME: u8 = 0x68;

} // verus!
