//! System commands in the control direction: interrogation, counter
//! interrogation, read, clock synchronization, test, reset-process and
//! delay-acquire, each a single information object (SQ = 0).

use vstd::prelude::*;
use crate::asdu::{
    spec_ioa_bytes, spec_ioa_from, Asdu, Cause, CauseOfTransmission, CommonAddr, Identifier,
    InfoObjAddr, TypeID, VariableStruct, INFO_OBJ_ADDR_IRRELEVANT,
};
use crate::error::Error;
use crate::time::{cp16time2a_from_msec, cp56time2a, spec_cp16_bytes, spec_cp56_bytes, Time2a};

verus! {

/// The fixed test pattern a test command carries.
pub const FBPTEST_WORD: u16 = 0x55aa;

pub type QualifierOfResetProcessCmd = u8;

/// Qualifier of interrogation: 20 asks for the whole station, 21 to 36 for
/// groups 1 to 16.
#[derive(Debug, Clone, Copy, PartialEq, Eq, Structural)]
pub struct ObjectQOI {
    pub range: u8,
}

impl ObjectQOI {
    pub fn new(range: u8) -> (r: ObjectQOI)
        ensures
            r == (ObjectQOI { range }),
    {
        ObjectQOI { range }
    }

    pub fn raw(&self) -> (r: u8)
        ensures
            r == self.range,
    {
        self.range
    }
}

/// Qualifier of counter interrogation.
#[derive(Debug, Clone, Copy, PartialEq, Eq, Structural)]
pub struct ObjectQCC {
    pub qcc: u8,
}

impl ObjectQCC {
    pub fn new(qcc: u8) -> (r: ObjectQCC)
        ensures
            r == (ObjectQCC { qcc }),
    {
        ObjectQCC { qcc }
    }

    pub fn raw(&self) -> (r: u8)
        ensures
            r == self.qcc,
    {
        self.qcc
    }
}

/// Qualifier of the reset-process command.
#[derive(Debug, Clone, Copy, PartialEq, Eq, Structural)]
pub struct ObjectQRP {
    pub qrp: u8,
}

impl ObjectQRP {
    pub fn new(qrp: u8) -> (r: ObjectQRP)
        ensures
            r == (ObjectQRP { qrp }),
    {
        ObjectQRP { qrp }
    }

    pub fn raw(&self) -> (r: u8)
        ensures
            r == self.qrp,
    {
        self.qrp
    }
}

/// The identifier every system command carries: a single object, SQ = 0.
pub open spec fn spec_sys_identifier(
    type_id: TypeID,
    cot: CauseOfTransmission,
    ca: CommonAddr,
) -> Identifier {
    Identifier {
        type_id,
        variable_struct: VariableStruct { is_sequence: false, number: 1 },
        cot,
        orig_addr: 0,
        common_addr: ca,
    }
}

/// The three zero octets of the irrelevant information object address.
pub open spec fn spec_irrelevant_ioa_bytes() -> Seq<u8> {
    spec_ioa_bytes(InfoObjAddr { res: 0, addr: INFO_OBJ_ADDR_IRRELEVANT })
}

/// Write the three octets of the irrelevant information object address.
fn push_irrelevant_ioa(buf: &mut Vec<u8>)
    ensures
        final(buf)@ == old(buf)@ + spec_irrelevant_ioa_bytes(),
{
    buf.push(0);
    buf.push(0);
    buf.push(0);
    proof {
        assert(buf@ =~= old(buf)@ + spec_irrelevant_ioa_bytes());
    }
}

/// Build an interrogation command (C_IC_NA_1). The cause must be Activation
/// or Deactivation; any other cause is rejected.
pub fn interrogation_cmd(cot: CauseOfTransmission, ca: CommonAddr, qoi: ObjectQOI) -> (r: Result<
    Asdu,
    Error,
>)
    ensures
        cot.cause == Cause::Activation || cot.cause == Cause::Deactivation ==> match r {
            Ok(a) => {
                &&& a.identifier == spec_sys_identifier(TypeID::C_IC_NA_1, cot, ca)
                &&& a.raw@ == spec_irrelevant_ioa_bytes().push(qoi.range)
                &&& a.wf()
            },
            Err(_) => false,
        },
        cot.cause != Cause::Activation && cot.cause != Cause::Deactivation ==> r == Err::<
            Asdu,
            Error,
        >(Error::ErrCmdCause(cot)),
{
    if !(matches!(cot.cause, Cause::Activation) || matches!(cot.cause, Cause::Deactivation)) {
        return Err(Error::ErrCmdCause(cot));
    }
    let mut buf: Vec<u8> = Vec::new();
    push_irrelevant_ioa(&mut buf);
    buf.push(qoi.range);
    Ok(Asdu { identifier: sys_identifier(TypeID::C_IC_NA_1, cot, ca), raw: buf })
}

/// Build the single-object identifier every system command carries.
fn sys_identifier(type_id: TypeID, cot: CauseOfTransmission, ca: CommonAddr) -> (r: Identifier)
    ensures
        r == spec_sys_identifier(type_id, cot, ca),
        r.wf(),
{
    Identifier {
        type_id,
        variable_struct: VariableStruct::new(false, 1),
        cot,
        orig_addr: 0,
        common_addr: ca,
    }
}

/// Build a counter-interrogation command (C_CI_NA_1). The cause must be
/// Activation; any other cause is rejected.
pub fn counter_interrogation_cmd(cot: CauseOfTransmission, ca: CommonAddr, qcc: ObjectQCC) -> (r:
    Result<Asdu, Error>)
    ensures
        cot.cause == Cause::Activation ==> match r {
            Ok(a) => {
                &&& a.identifier == spec_sys_identifier(TypeID::C_CI_NA_1, cot, ca)
                &&& a.raw@ == spec_irrelevant_ioa_bytes().push(qcc.qcc)
                &&& a.wf()
            },
            Err(_) => false,
        },
        cot.cause != Cause::Activation ==> r == Err::<Asdu, Error>(Error::ErrCmdCause(cot)),
{
    if !matches!(cot.cause, Cause::Activation) {
        return Err(Error::ErrCmdCause(cot));
    }
    let mut buf: Vec<u8> = Vec::new();
    push_irrelevant_ioa(&mut buf);
    buf.push(qcc.qcc);
    Ok(Asdu { identifier: sys_identifier(TypeID::C_CI_NA_1, cot, ca), raw: buf })
}

/// Build a read command (C_RD_NA_1) for one object. The cause must be
/// Request; any other cause is rejected.
pub fn read_cmd(cot: CauseOfTransmission, ca: CommonAddr, ioa: InfoObjAddr) -> (r: Result<
    Asdu,
    Error,
>)
    ensures
        cot.cause == Cause::Request ==> match r {
            Ok(a) => {
                &&& a.identifier == spec_sys_identifier(TypeID::C_RD_NA_1, cot, ca)
                &&& a.raw@ == spec_ioa_bytes(ioa)
                &&& a.wf()
            },
            Err(_) => false,
        },
        cot.cause != Cause::Request ==> r == Err::<Asdu, Error>(Error::ErrCmdCause(cot)),
{
    if !matches!(cot.cause, Cause::Request) {
        return Err(Error::ErrCmdCause(cot));
    }
    let mut buf: Vec<u8> = Vec::new();
    buf.push((ioa.addr % 256) as u8);
    buf.push((ioa.addr / 256) as u8);
    buf.push(ioa.res);
    proof {
        assert(buf@ =~= spec_ioa_bytes(ioa));
    }
    Ok(Asdu { identifier: sys_identifier(TypeID::C_RD_NA_1, cot, ca), raw: buf })
}

/// Build a clock-synchronization command (C_CS_NA_1) carrying the given
/// time. The cause must be Activation; any other cause is rejected.
pub fn clock_synchronization_cmd(cot: CauseOfTransmission, ca: CommonAddr, time: Time2a) -> (r:
    Result<Asdu, Error>)
    requires
        time.wf(),
    ensures
        cot.cause == Cause::Activation ==> match r {
            Ok(a) => {
                &&& a.identifier == spec_sys_identifier(TypeID::C_CS_NA_1, cot, ca)
                &&& a.raw@ == spec_irrelevant_ioa_bytes() + spec_cp56_bytes(time)
                &&& a.wf()
            },
            Err(_) => false,
        },
        cot.cause != Cause::Activation ==> r == Err::<Asdu, Error>(Error::ErrCmdCause(cot)),
{
    if !matches!(cot.cause, Cause::Activation) {
        return Err(Error::ErrCmdCause(cot));
    }
    let mut buf: Vec<u8> = Vec::new();
    push_irrelevant_ioa(&mut buf);
    let tb = cp56time2a(time);
    append_bytes(&mut buf, &tb);
    Ok(Asdu { identifier: sys_identifier(TypeID::C_CS_NA_1, cot, ca), raw: buf })
}

/// Append all bytes of `src` to `buf`.
pub fn append_bytes(buf: &mut Vec<u8>, src: &Vec<u8>)
    ensures
        final(buf)@ == old(buf)@ + src@,
{
    let mut i: usize = 0;
    while i < src.len()
        invariant
            i <= src@.len(),
            buf@ == old(buf)@ + src@.take(i as int),
        decreases src@.len() - i,
    {
        buf.push(src[i]);
        i = i + 1;
        proof {
            assert(src@.take(i as int) == src@.take(i - 1).push(src@[i - 1]));
        }
    }
    proof {
        assert(src@.take(src@.len() as int) == src@);
        assert(buf@ =~= old(buf)@ + src@);
    }
}

/// Build a test command (C_TS_NA_1) carrying the fixed test pattern.
/// The cause must be Activation; any other cause is rejected.
pub fn test_command(cot: CauseOfTransmission, ca: CommonAddr) -> (r: Result<Asdu, Error>)
    ensures
        cot.cause == Cause::Activation ==> match r {
            Ok(a) => {
                &&& a.identifier == spec_sys_identifier(TypeID::C_TS_NA_1, cot, ca)
                &&& a.raw@ == spec_irrelevant_ioa_bytes() + spec_cp16_bytes(FBPTEST_WORD)
                &&& a.wf()
            },
            Err(_) => false,
        },
        cot.cause != Cause::Activation ==> r == Err::<Asdu, Error>(Error::ErrCmdCause(cot)),
{
    if !matches!(cot.cause, Cause::Activation) {
        return Err(Error::ErrCmdCause(cot));
    }
    let mut buf: Vec<u8> = Vec::new();
    push_irrelevant_ioa(&mut buf);
    let wb = cp16time2a_from_msec(FBPTEST_WORD);
    append_bytes(&mut buf, &wb);
    Ok(Asdu { identifier: sys_identifier(TypeID::C_TS_NA_1, cot, ca), raw: buf })
}

/// Build a reset-process command (C_RP_NA_1). The cause must be
/// Activation; any other cause is rejected.
pub fn reset_process_cmd(
    cot: CauseOfTransmission,
    ca: CommonAddr,
    qrp: QualifierOfResetProcessCmd,
) -> (r: Result<Asdu, Error>)
    ensures
        cot.cause == Cause::Activation ==> match r {
            Ok(a) => {
                &&& a.identifier == spec_sys_identifier(TypeID::C_RP_NA_1, cot, ca)
                &&& a.raw@ == spec_irrelevant_ioa_bytes().push(qrp)
                &&& a.wf()
            },
            Err(_) => false,
        },
        cot.cause != Cause::Activation ==> r == Err::<Asdu, Error>(Error::ErrCmdCause(cot)),
{
    if !matches!(cot.cause, Cause::Activation) {
        return Err(Error::ErrCmdCause(cot));
    }
    let mut buf: Vec<u8> = Vec::new();
    push_irrelevant_ioa(&mut buf);
    buf.push(qrp);
    Ok(Asdu { identifier: sys_identifier(TypeID::C_RP_NA_1, cot, ca), raw: buf })
}

/// Build a delay-acquire command (C_CD_NA_1) carrying a millisecond delay.
/// The cause must be Spontaneous or Activation; any other cause is rejected.
pub fn delay_acquire_command(cot: CauseOfTransmission, ca: CommonAddr, msec: u16) -> (r: Result<
    Asdu,
    Error,
>)
    ensures
        cot.cause == Cause::Spontaneous || cot.cause == Cause::Activation ==> match r {
            Ok(a) => {
                &&& a.identifier == spec_sys_identifier(TypeID::C_CD_NA_1, cot, ca)
                &&& a.raw@ == spec_irrelevant_ioa_bytes() + spec_cp16_bytes(msec)
                &&& a.wf()
            },
            Err(_) => false,
        },
        cot.cause != Cause::Spontaneous && cot.cause != Cause::Activation ==> r == Err::<
            Asdu,
            Error,
        >(Error::ErrCmdCause(cot)),
{
    if !(matches!(cot.cause, Cause::Spontaneous) || matches!(cot.cause, Cause::Activation)) {
        return Err(Error::ErrCmdCause(cot));
    }
    let mut buf: Vec<u8> = Vec::new();
    push_irrelevant_ioa(&mut buf);
    let wb = cp16time2a_from_msec(msec);
    append_bytes(&mut buf, &wb);
    Ok(Asdu { identifier: sys_identifier(TypeID::C_CD_NA_1, cot, ca), raw: buf })
}

/// Build a timed test command (C_TS_TA_1) carrying the fixed test pattern
/// and a CP56Time2a tag. The cause must be Activation; any other cause is
/// rejected.
pub fn test_command_cp56time2a(cot: CauseOfTransmission, ca: CommonAddr, time: Time2a) -> (r:
    Result<Asdu, Error>)
    requires
        time.wf(),
    ensures
        cot.cause == Cause::Activation ==> match r {
            Ok(a) => {
                &&& a.identifier == spec_sys_identifier(TypeID::C_TS_TA_1, cot, ca)
                &&& a.raw@ == spec_irrelevant_ioa_bytes() + spec_cp16_bytes(FBPTEST_WORD)
                    + spec_cp56_bytes(time)
                &&& a.wf()
            },
            Err(_) => false,
        },
        cot.cause != Cause::Activation ==> r == Err::<Asdu, Error>(Error::ErrCmdCause(cot)),
{
    if !matches!(cot.cause, Cause::Activation) {
        return Err(Error::ErrCmdCause(cot));
    }
    let mut buf: Vec<u8> = Vec::new();
    push_irrelevant_ioa(&mut buf);
    let wb = cp16time2a_from_msec(FBPTEST_WORD);
    append_bytes(&mut buf, &wb);
    let tb = cp56time2a(time);
    append_bytes(&mut buf, &tb);
    Ok(Asdu { identifier: sys_identifier(TypeID::C_TS_TA_1, cot, ca), raw: buf })
}

impl Asdu {
    /// Read the single object of an interrogation command: its address and
    /// the qualifier of interrogation.
    pub fn get_interrogation_cmd(&self) -> (r: Result<(InfoObjAddr, ObjectQOI), Error>)
        ensures
            self.raw@.len() >= 4 ==> r == Ok::<(InfoObjAddr, ObjectQOI), Error>(
                (
                    spec_ioa_from(self.raw@[0], self.raw@[1], self.raw@[2]),
                    (ObjectQOI { range: self.raw@[3] }),
                ),
            ),
            self.raw@.len() < 4 ==> r == Err::<(InfoObjAddr, ObjectQOI), Error>(
                Error::ErrAsduTooShort,
            ),
    {
        if self.raw.len() < 4 {
            return Err(Error::ErrAsduTooShort);
        }
        let ioa = InfoObjAddr {
            res: self.raw[2],
            addr: self.raw[0] as u16 + self.raw[1] as u16 * 256,
        };
        Ok((ioa, ObjectQOI { range: self.raw[3] }))
    }

    /// Read the single object of a counter-interrogation command: its
    /// address and the qualifier of counter interrogation.
    pub fn get_counter_interrogation_cmd(&self) -> (r: Result<(InfoObjAddr, ObjectQCC), Error>)
        ensures
            self.raw@.len() >= 4 ==> r == Ok::<(InfoObjAddr, ObjectQCC), Error>(
                (
                    spec_ioa_from(self.raw@[0], self.raw@[1], self.raw@[2]),
                    (ObjectQCC { qcc: self.raw@[3] }),
                ),
            ),
            self.raw@.len() < 4 ==> r == Err::<(InfoObjAddr, ObjectQCC), Error>(
                Error::ErrAsduTooShort,
            ),
    {
        if self.raw.len() < 4 {
            return Err(Error::ErrAsduTooShort);
        }
        let ioa = InfoObjAddr {
            res: self.raw[2],
            addr: self.raw[0] as u16 + self.raw[1] as u16 * 256,
        };
        Ok((ioa, ObjectQCC { qcc: self.raw[3] }))
    }

    /// Read the single object of a reset-process command: its address and
    /// the reset qualifier.
    pub fn get_reset_process_cmd(&self) -> (r: Result<(InfoObjAddr, ObjectQRP), Error>)
        ensures
            self.raw@.len() >= 4 ==> r == Ok::<(InfoObjAddr, ObjectQRP), Error>(
                (
                    spec_ioa_from(self.raw@[0], self.raw@[1], self.raw@[2]),
                    (ObjectQRP { qrp: self.raw@[3] }),
                ),
            ),
            self.raw@.len() < 4 ==> r == Err::<(InfoObjAddr, ObjectQRP), Error>(
                Error::ErrAsduTooShort,
            ),
    {
        if self.raw.len() < 4 {
            return Err(Error::ErrAsduTooShort);
        }
        let ioa = InfoObjAddr {
            res: self.raw[2],
            addr: self.raw[0] as u16 + self.raw[1] as u16 * 256,
        };
        Ok((ioa, ObjectQRP { qrp: self.raw[3] }))
    }
}

} // verus!
