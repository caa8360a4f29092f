//! A minimal in-memory station image for a controlled station: single- and
//! double-point tables keyed by object address, updated by incoming
//! commands. An interrogation answer is built from the tables' contents.

use vstd::prelude::*;
use std::collections::HashMap;
use crate::asdu::{Asdu, TypeID};
use crate::error::Error;

verus! {

/// The station image a demonstration server answers from: the current
/// single-point states and double-point states by object address.
pub struct ExampleServer {
    pub siq: HashMap<u16, bool>,
    pub diq: HashMap<u16, u8>,
}

impl ExampleServer {
    /// A station image over the given point tables.
    pub fn new(siq: HashMap<u16, bool>, diq: HashMap<u16, u8>) -> (r: ExampleServer)
        ensures
            r.siq@ == siq@,
            r.diq@ == diq@,
    {
        ExampleServer { siq, diq }
    }

    /// Take one delivered command ASDU: a single command drives the
    /// addressed single point, a double command the addressed double point;
    /// a command for an unknown address, and any other type, changes
    /// nothing. A command whose body is too short is an error.
    pub fn call(&mut self, asdu: &Asdu) -> (r: Result<(), Error>)
        ensures
            match r {
                Ok(_) => {
                    let tid = asdu.identifier.type_id;
                    &&& ((tid == TypeID::C_SC_NA_1 || tid == TypeID::C_SC_TA_1)
                        ==> final(self).diq@ == old(self).diq@ && final(self).siq@ == (if old(
                        self,
                    ).siq@.contains_key(spec_cmd_addr(*asdu)) {
                        old(self).siq@.insert(spec_cmd_addr(*asdu), spec_cmd_scs(*asdu))
                    } else {
                        old(self).siq@
                    }))
                    &&& ((tid == TypeID::C_DC_NA_1 || tid == TypeID::C_DC_TA_1)
                        ==> final(self).siq@ == old(self).siq@ && final(self).diq@ == (if old(
                        self,
                    ).diq@.contains_key(spec_cmd_addr(*asdu)) {
                        old(self).diq@.insert(spec_cmd_addr(*asdu), spec_cmd_dcs(*asdu))
                    } else {
                        old(self).diq@
                    }))
                    &&& (!(tid == TypeID::C_SC_NA_1 || tid == TypeID::C_SC_TA_1 || tid
                        == TypeID::C_DC_NA_1 || tid == TypeID::C_DC_TA_1) ==> final(self).siq@
                        == old(self).siq@ && final(self).diq@ == old(self).diq@)
                },
                Err(e) => e == Error::ErrAsduTooShort && asdu.raw@.len() < 4,
            },
    {
        let tid = asdu.identifier.type_id;
        if matches!(tid, TypeID::C_SC_NA_1) || matches!(tid, TypeID::C_SC_TA_1) {
            let cmd = match asdu.get_single_cmd() {
                Ok(c) => c,
                Err(e) => { return Err(e); },
            };
            if self.siq.contains_key(&cmd.ioa.addr) {
                self.siq.insert(cmd.ioa.addr, cmd.sco.scs);
            }
            Ok(())
        } else if matches!(tid, TypeID::C_DC_NA_1) || matches!(tid, TypeID::C_DC_TA_1) {
            let cmd = match asdu.get_double_cmd() {
                Ok(c) => c,
                Err(e) => { return Err(e); },
            };
            if self.diq.contains_key(&cmd.ioa.addr) {
                self.diq.insert(cmd.ioa.addr, cmd.dco.dcs);
            }
            Ok(())
        } else {
            Ok(())
        }
    }
}

/// The object address a single-object command body addresses.
pub open spec fn spec_cmd_addr(asdu: Asdu) -> u16 {
    (asdu.raw@[0] + asdu.raw@[1] * 256) as u16
}

/// The commanded single-point state a single command carries.
pub open spec fn spec_cmd_scs(asdu: Asdu) -> bool {
    crate::cproc::spec_sco_from(asdu.raw@[3]).scs
}

/// The commanded double-point state a double command carries.
pub open spec fn spec_cmd_dcs(asdu: Asdu) -> u8 {
    crate::cproc::spec_dco_from(asdu.raw@[3]).dcs
}

} // verus!
