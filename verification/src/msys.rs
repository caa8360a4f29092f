//! System information in the monitor direction: the end-of-initialization
//! ASDU, a single information object (SQ = 0).

use vstd::prelude::*;
use crate::asdu::{
    spec_ioa_bytes, spec_ioa_from, Asdu, CauseOfTransmission, CommonAddr, Identifier, InfoObjAddr,
    TypeID, VariableStruct,
};
use crate::csys::spec_sys_identifier;
use crate::error::Error;

verus! {

/// Cause of initialization: the seven-bit cause (0 power-up, 1 manual
/// reset, 2 remote reset) and a flag for changed local parameters.
#[derive(Debug, Clone, Copy, PartialEq, Eq, Structural)]
pub struct ObjectCOI {
    /// 0 power-up, 1 manual reset, 2 remote reset.
    pub cause: u8,
    /// Local parameters changed.
    pub flag: bool,
}

/// The octet a cause of initialization writes.
pub open spec fn spec_coi_raw(s: ObjectCOI) -> u8 {
    (s.cause * 2 + (if s.flag { 1int } else { 0int })) as u8
}

/// The cause of initialization an octet stands for.
pub open spec fn spec_coi_from(v: u8) -> ObjectCOI {
    ObjectCOI { cause: (v / 2) as u8, flag: v % 2 == 1 }
}

impl ObjectCOI {
    pub open spec fn wf(self) -> bool {
        self.cause <= 127
    }

    pub fn new(cause: u8, flag: bool) -> (r: ObjectCOI)
        ensures
            r == (ObjectCOI { cause, flag }),
    {
        ObjectCOI { cause, flag }
    }

    pub fn raw(&self) -> (r: u8)
        requires
            self.wf(),
        ensures
            r == spec_coi_raw(*self),
    {
        let f: u8 = if self.flag { 1 } else { 0 };
        self.cause * 2 + f
    }

    pub fn from_raw(v: u8) -> (r: ObjectCOI)
        ensures
            r == spec_coi_from(v),
            r.wf(),
    {
        ObjectCOI { cause: v / 2, flag: v % 2 == 1 }
    }
}

/// Every well-formed cause of initialization decodes back from its octet.
pub proof fn lemma_coi_round_trip(s: ObjectCOI)
    requires
        s.wf(),
    ensures
        spec_coi_from(spec_coi_raw(s)) == s,
{
}

/// Build an end-of-initialization ASDU (M_EI_NA_1): a single object with
/// the given address and cause of initialization.
pub fn end_of_initialization(
    cot: CauseOfTransmission,
    ca: CommonAddr,
    ioa: InfoObjAddr,
    coi: ObjectCOI,
) -> (r: Result<Asdu, Error>)
    requires
        coi.wf(),
    ensures
        match r {
            Ok(a) => {
                &&& a.identifier == spec_sys_identifier(TypeID::M_EI_NA_1, cot, ca)
                &&& a.raw@ == spec_ioa_bytes(ioa).push(spec_coi_raw(coi))
                &&& a.wf()
            },
            Err(_) => false,
        },
{
    let mut buf: Vec<u8> = Vec::new();
    buf.push((ioa.addr % 256) as u8);
    buf.push((ioa.addr / 256) as u8);
    buf.push(ioa.res);
    buf.push(coi.raw());
    proof {
        assert(buf@ =~= spec_ioa_bytes(ioa).push(spec_coi_raw(coi)));
    }
    Ok(
        Asdu {
            identifier: Identifier {
                type_id: TypeID::M_EI_NA_1,
                variable_struct: VariableStruct::new(false, 1),
                cot,
                orig_addr: 0,
                common_addr: ca,
            },
            raw: buf,
        },
    )
}

impl Asdu {
    /// Read the single object of an end-of-initialization ASDU: its address
    /// and the cause of initialization.
    pub fn get_end_of_initialization(&self) -> (r: Result<(InfoObjAddr, ObjectCOI), Error>)
        ensures
            self.raw@.len() >= 4 ==> r == Ok::<(InfoObjAddr, ObjectCOI), Error>(
                (
                    spec_ioa_from(self.raw@[0], self.raw@[1], self.raw@[2]),
                    spec_coi_from(self.raw@[3]),
                ),
            ),
            self.raw@.len() < 4 ==> r == Err::<(InfoObjAddr, ObjectCOI), Error>(
                Error::ErrAsduTooShort,
            ),
    {
        if self.raw.len() < 4 {
            return Err(Error::ErrAsduTooShort);
        }
        let ioa = InfoObjAddr {
            res: self.raw[2],
            addr: self.raw[0] as u16 + self.raw[1] as u16 * 256,
        };
        Ok((ioa, ObjectCOI::from_raw(self.raw[3])))
    }
}

} // verus!
