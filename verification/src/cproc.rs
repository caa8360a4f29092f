//! Process information in the control direction: single and double
//! commands, set-point commands (normalized, scaled, short-float bit
//! patterns) and the 32-bit string command, each a single information
//! object (SQ = 0), plainly or with a CP56Time2a tag.

use vstd::prelude::*;
use crate::asdu::{
    spec_ioa_bytes, spec_ioa_from, Asdu, Cause, CauseOfTransmission, CommonAddr, Identifier,
    InfoObjAddr, TypeID, VariableStruct,
};
use crate::csys::{append_bytes, spec_sys_identifier};
use crate::error::Error;
use crate::le::{
    push_i16_le, push_i32_le, push_u32_le, read_i16_le, read_i32_le, read_u32_le, spec_i16_from,
    spec_i16_le, spec_i32_from, spec_i32_le, spec_u32_from, spec_u32_le,
};
use crate::time::{
    cp56time2a, current_time2a, decode_cp56time2a, lemma_cp56_round_trip, spec_cp56_bytes,
    spec_cp56_from, Time2a,
};

verus! {

/// A single command output: the commanded state, the output qualifier,
/// and the select/execute flag.
#[derive(Debug, Clone, Copy, PartialEq, Eq, Structural)]
pub struct ObjectSCO {
    /// The commanded single state.
    pub scs: bool,
    /// Reserved bit, normally zero.
    pub res: u8,
    /// Output qualifier: 0 as determined, 1 short pulse, 2 long pulse,
    /// 3 persistent.
    pub qu: u8,
    /// Select (true) or execute (false).
    pub se: bool,
}

/// The octet a single command writes.
pub open spec fn spec_sco_raw(s: ObjectSCO) -> u8 {
    ((if s.scs { 128int } else { 0int }) + s.res * 64 + s.qu * 2 + (if s.se {
        1int
    } else {
        0int
    })) as u8
}

/// The single command an octet stands for.
pub open spec fn spec_sco_from(v: u8) -> ObjectSCO {
    ObjectSCO { scs: v / 128 == 1, res: (v / 64 % 2) as u8, qu: (v / 2 % 32) as u8, se: v % 2 == 1 }
}

impl ObjectSCO {
    pub open spec fn wf(self) -> bool {
        self.res <= 1 && self.qu <= 31
    }

    pub fn new(scs: bool, res: u8, qu: u8, se: bool) -> (r: ObjectSCO)
        ensures
            r == (ObjectSCO { scs, res, qu, se }),
    {
        ObjectSCO { scs, res, qu, se }
    }

    pub fn raw(&self) -> (r: u8)
        requires
            self.wf(),
        ensures
            r == spec_sco_raw(*self),
    {
        let s: u8 = if self.scs { 128 } else { 0 };
        let e: u8 = if self.se { 1 } else { 0 };
        s + self.res * 64 + self.qu * 2 + e
    }

    pub fn from_raw(v: u8) -> (r: ObjectSCO)
        ensures
            r == spec_sco_from(v),
            r.wf(),
    {
        ObjectSCO { scs: v / 128 == 1, res: v / 64 % 2, qu: v / 2 % 32, se: v % 2 == 1 }
    }
}

/// Every well-formed single command decodes back from its octet.
pub proof fn lemma_sco_round_trip(s: ObjectSCO)
    requires
        s.wf(),
    ensures
        spec_sco_from(spec_sco_raw(s)) == s,
{
    let a: u8 = if s.scs { 1 } else { 0 };
    let f: u8 = if s.se { 1 } else { 0 };
    lemma_cmd_bits(a, s.res, s.qu, f);
}

/// Unpacking the command octet (a flag, a reserved bit, the five-bit
/// qualifier, the select flag) recovers every part.
proof fn lemma_cmd_bits(a: u8, b: u8, q: u8, f: u8)
    by (bit_vector)
    requires
        a <= 1,
        b <= 1,
        q <= 31,
        f <= 1,
    ensures
        (a * 128 + b * 64 + q * 2 + f) / 128 == a,
        (a * 128 + b * 64 + q * 2 + f) / 64 % 2 == b,
        (a * 128 + b * 64 + q * 2 + f) / 2 % 32 == q,
        (a * 128 + b * 64 + q * 2 + f) % 2 == f,
{
}

/// A double command output: the two-bit commanded state, the output
/// qualifier, and the select/execute flag.
#[derive(Debug, Clone, Copy, PartialEq, Eq, Structural)]
pub struct ObjectDCO {
    /// The commanded double state: 0 and 3 not permitted, 1 off, 2 on.
    pub dcs: u8,
    /// Output qualifier, as for the single command.
    pub qu: u8,
    /// Select (true) or execute (false).
    pub se: bool,
}

/// The octet a double command writes.
pub open spec fn spec_dco_raw(s: ObjectDCO) -> u8 {
    (s.dcs * 64 + s.qu * 2 + (if s.se { 1int } else { 0int })) as u8
}

/// The double command an octet stands for.
pub open spec fn spec_dco_from(v: u8) -> ObjectDCO {
    ObjectDCO { dcs: (v / 64) as u8, qu: (v / 2 % 32) as u8, se: v % 2 == 1 }
}

impl ObjectDCO {
    pub open spec fn wf(self) -> bool {
        self.dcs <= 3 && self.qu <= 31
    }

    pub fn new(dcs: u8, qu: u8, se: bool) -> (r: ObjectDCO)
        ensures
            r == (ObjectDCO { dcs, qu, se }),
    {
        ObjectDCO { dcs, qu, se }
    }

    pub fn raw(&self) -> (r: u8)
        requires
            self.wf(),
        ensures
            r == spec_dco_raw(*self),
    {
        let e: u8 = if self.se { 1 } else { 0 };
        self.dcs * 64 + self.qu * 2 + e
    }

    pub fn from_raw(v: u8) -> (r: ObjectDCO)
        ensures
            r == spec_dco_from(v),
            r.wf(),
    {
        ObjectDCO { dcs: v / 64, qu: v / 2 % 32, se: v % 2 == 1 }
    }
}

/// Every well-formed double command decodes back from its octet.
pub proof fn lemma_dco_round_trip(s: ObjectDCO)
    requires
        s.wf(),
    ensures
        spec_dco_from(spec_dco_raw(s)) == s,
{
    let f: u8 = if s.se { 1 } else { 0 };
    lemma_dco_bits(s.dcs, s.qu, f);
}

/// Unpacking the double-command octet recovers every part.
proof fn lemma_dco_bits(d: u8, q: u8, f: u8)
    by (bit_vector)
    requires
        d <= 3,
        q <= 31,
        f <= 1,
    ensures
        (d * 64 + q * 2 + f) / 64 == d,
        (d * 64 + q * 2 + f) / 2 % 32 == q,
        (d * 64 + q * 2 + f) % 2 == f,
{
}

/// The qualifier of a set-point command.
#[derive(Debug, Clone, Copy, PartialEq, Eq, Structural)]
pub struct ObjectQOS {
    /// 0 default; 1 to 63 standard reserve; 64 to 127 special use.
    pub ql: u8,
    /// Select (true) or execute (false).
    pub se: bool,
}

/// The octet a set-point qualifier writes.
pub open spec fn spec_qos_raw(s: ObjectQOS) -> u8 {
    (s.ql * 2 + (if s.se { 1int } else { 0int })) as u8
}

/// The set-point qualifier an octet stands for.
pub open spec fn spec_qos_from(v: u8) -> ObjectQOS {
    ObjectQOS { ql: (v / 2) as u8, se: v % 2 == 1 }
}

impl ObjectQOS {
    pub open spec fn wf(self) -> bool {
        self.ql <= 127
    }

    pub fn new(ql: u8, se: bool) -> (r: ObjectQOS)
        ensures
            r == (ObjectQOS { ql, se }),
    {
        ObjectQOS { ql, se }
    }

    pub fn raw(&self) -> (r: u8)
        requires
            self.wf(),
        ensures
            r == spec_qos_raw(*self),
    {
        let e: u8 = if self.se { 1 } else { 0 };
        self.ql * 2 + e
    }

    pub fn from_raw(v: u8) -> (r: ObjectQOS)
        ensures
            r == spec_qos_from(v),
            r.wf(),
    {
        ObjectQOS { ql: v / 2, se: v % 2 == 1 }
    }
}

/// Every well-formed set-point qualifier decodes back from its octet.
pub proof fn lemma_qos_round_trip(s: ObjectQOS)
    requires
        s.wf(),
    ensures
        spec_qos_from(spec_qos_raw(s)) == s,
{
}

/// A single command with its object address, optionally time-tagged.
#[derive(Debug, Clone, Copy, PartialEq)]
pub struct SingleCommandInfo {
    pub ioa: InfoObjAddr,
    pub sco: ObjectSCO,
    pub time: Option<Time2a>,
}

impl SingleCommandInfo {
    /// A command to drive the point at `addr` to state `v`, selecting or
    /// executing by `se`, with the default qualifier.
    pub fn new(addr: u16, v: bool, se: bool) -> (r: SingleCommandInfo)
        ensures
            r == (SingleCommandInfo {
                ioa: (InfoObjAddr { res: 0, addr }),
                sco: (ObjectSCO { scs: v, res: 0, qu: 0, se }),
                time: Option::<Time2a>::None,
            }),
    {
        SingleCommandInfo {
            ioa: InfoObjAddr { res: 0, addr },
            sco: ObjectSCO { scs: v, res: 0, qu: 0, se },
            time: None,
        }
    }
}

/// A double command with its object address, optionally time-tagged.
#[derive(Debug, Clone, Copy, PartialEq)]
pub struct DoubleCommandInfo {
    pub ioa: InfoObjAddr,
    pub dco: ObjectDCO,
    pub time: Option<Time2a>,
}

impl DoubleCommandInfo {
    /// A command to drive the point at `addr` to state `v` (taken modulo
    /// four), selecting or executing by `se`, with the default qualifier.
    pub fn new(addr: u16, v: u8, se: bool) -> (r: DoubleCommandInfo)
        ensures
            r == (DoubleCommandInfo {
                ioa: (InfoObjAddr { res: 0, addr }),
                dco: (ObjectDCO { dcs: (v % 4) as u8, qu: 0, se }),
                time: Option::<Time2a>::None,
            }),
    {
        DoubleCommandInfo {
            ioa: InfoObjAddr { res: 0, addr },
            dco: ObjectDCO { dcs: v % 4, qu: 0, se },
            time: None,
        }
    }
}

/// A normalized-value set-point command.
#[derive(Debug, Clone, Copy, PartialEq)]
pub struct SetpointCommandNormalInfo {
    pub ioa: InfoObjAddr,
    pub nva: i16,
    pub qos: ObjectQOS,
    pub time: Option<Time2a>,
}

impl SetpointCommandNormalInfo {
    pub fn new(addr: u16, v: i16) -> (r: SetpointCommandNormalInfo)
        ensures
            r == (SetpointCommandNormalInfo {
                ioa: (InfoObjAddr { res: 0, addr }),
                nva: v,
                qos: (ObjectQOS { ql: 0, se: false }),
                time: Option::<Time2a>::None,
            }),
    {
        SetpointCommandNormalInfo {
            ioa: InfoObjAddr { res: 0, addr },
            nva: v,
            qos: ObjectQOS { ql: 0, se: false },
            time: None,
        }
    }
}

/// A scaled-value set-point command.
#[derive(Debug, Clone, Copy, PartialEq)]
pub struct SetpointCommandScaledInfo {
    pub ioa: InfoObjAddr,
    pub sva: i16,
    pub qos: ObjectQOS,
    pub time: Option<Time2a>,
}

impl SetpointCommandScaledInfo {
    pub fn new(addr: u16, v: i16) -> (r: SetpointCommandScaledInfo)
        ensures
            r == (SetpointCommandScaledInfo {
                ioa: (InfoObjAddr { res: 0, addr }),
                sva: v,
                qos: (ObjectQOS { ql: 0, se: false }),
                time: Option::<Time2a>::None,
            }),
    {
        SetpointCommandScaledInfo {
            ioa: InfoObjAddr { res: 0, addr },
            sva: v,
            qos: ObjectQOS { ql: 0, se: false },
            time: None,
        }
    }
}

/// A short-float set-point command; the value is carried as the IEEE-754
/// bit pattern of the float, little-endian on the wire.
#[derive(Debug, Clone, Copy, PartialEq)]
pub struct SetpointCommandFloatInfo {
    pub ioa: InfoObjAddr,
    /// The IEEE-754 single-precision bit pattern of the set-point value.
    pub r: u32,
    pub qos: ObjectQOS,
    pub time: Option<Time2a>,
}

impl SetpointCommandFloatInfo {
    pub fn new(addr: u16, v: u32) -> (r: SetpointCommandFloatInfo)
        ensures
            r == (SetpointCommandFloatInfo {
                ioa: (InfoObjAddr { res: 0, addr }),
                r: v,
                qos: (ObjectQOS { ql: 0, se: false }),
                time: Option::<Time2a>::None,
            }),
    {
        SetpointCommandFloatInfo {
            ioa: InfoObjAddr { res: 0, addr },
            r: v,
            qos: ObjectQOS { ql: 0, se: false },
            time: None,
        }
    }
}

/// A 32-bit string command.
#[derive(Debug, Clone, Copy, PartialEq)]
pub struct BitsString32CommandInfo {
    pub ioa: InfoObjAddr,
    pub bcr: i32,
    pub time: Option<Time2a>,
}

impl BitsString32CommandInfo {
    pub fn new(addr: u16, v: i32) -> (r: BitsString32CommandInfo)
        ensures
            r == (BitsString32CommandInfo {
                ioa: (InfoObjAddr { res: 0, addr }),
                bcr: v,
                time: Option::<Time2a>::None,
            }),
    {
        BitsString32CommandInfo { ioa: InfoObjAddr { res: 0, addr }, bcr: v, time: None }
    }
}

/// The causes a command in the control direction allows: activation or
/// deactivation.
pub open spec fn spec_cause_cmd(c: Cause) -> bool {
    c == Cause::Activation || c == Cause::Deactivation
}

/// A time tag as a command writes it: the given time, or, where none was
/// given, some well-formed current time.
pub open spec fn spec_cmd_time_bytes(given: Option<Time2a>, written: Seq<u8>) -> bool {
    match given {
        Some(t) => written == spec_cp56_bytes(t),
        None => exists|t: Time2a| #[trigger] t.wf() && written == spec_cp56_bytes(t),
    }
}

/// Resolve a command's time tag: the given time, else the current time.
fn cmd_time(given: Option<Time2a>) -> (r: Time2a)
    requires
        given matches Some(t) ==> t.wf(),
    ensures
        r.wf(),
        given matches Some(t) ==> r == t,
{
    match given {
        Some(t) => t,
        None => current_time2a(),
    }
}

/// Build a single command (C_SC_NA_1, or C_SC_TA_1 with a time tag).
/// The cause must be Activation or Deactivation; a type identification
/// outside the family is rejected.
pub fn single_cmd(
    type_id: TypeID,
    cot: CauseOfTransmission,
    ca: CommonAddr,
    cmd: SingleCommandInfo,
) -> (r: Result<Asdu, Error>)
    requires
        cmd.sco.wf(),
        cmd.time matches Some(t) ==> t.wf(),
    ensures
        !spec_cause_cmd(cot.cause) ==> r == Err::<Asdu, Error>(Error::ErrCmdCause(cot)),
        spec_cause_cmd(cot.cause) && type_id != TypeID::C_SC_NA_1 && type_id != TypeID::C_SC_TA_1
            ==> r == Err::<Asdu, Error>(Error::ErrTypeIDNotMatch(type_id)),
        spec_cause_cmd(cot.cause) && type_id == TypeID::C_SC_NA_1 ==> match r {
            Ok(a) => a.identifier == spec_sys_identifier(type_id, cot, ca) && a.wf() && a.raw@
                == spec_ioa_bytes(cmd.ioa).push(spec_sco_raw(cmd.sco)),
            Err(_) => false,
        },
        spec_cause_cmd(cot.cause) && type_id == TypeID::C_SC_TA_1 ==> match r {
            Ok(a) => {
                &&& a.identifier == spec_sys_identifier(type_id, cot, ca)
                &&& a.wf()
                &&& a.raw@.len() == 11
                &&& a.raw@.take(4) == spec_ioa_bytes(cmd.ioa).push(spec_sco_raw(cmd.sco))
                &&& spec_cmd_time_bytes(cmd.time, a.raw@.skip(4))
            },
            Err(_) => false,
        },
{
    if !(matches!(cot.cause, Cause::Activation) || matches!(cot.cause, Cause::Deactivation)) {
        return Err(Error::ErrCmdCause(cot));
    }
    if !(matches!(type_id, TypeID::C_SC_NA_1) || matches!(type_id, TypeID::C_SC_TA_1)) {
        return Err(Error::ErrTypeIDNotMatch(type_id));
    }
    let mut buf: Vec<u8> = Vec::new();
    push_ioa(&mut buf, cmd.ioa);
    buf.push(cmd.sco.raw());
    if matches!(type_id, TypeID::C_SC_TA_1) {
        let t = cmd_time(cmd.time);
        let tb = cp56time2a(t);
        append_bytes(&mut buf, &tb);
        proof {
            assert(buf@.take(4) =~= spec_ioa_bytes(cmd.ioa).push(spec_sco_raw(cmd.sco)));
            assert(buf@.skip(4) =~= spec_cp56_bytes(t));
        }
    } else {
        proof {
            assert(buf@ =~= spec_ioa_bytes(cmd.ioa).push(spec_sco_raw(cmd.sco)));
        }
    }
    Ok(Asdu { identifier: cmd_identifier(type_id, cot, ca), raw: buf })
}

/// Write the three little-endian octets of an object address.
fn push_ioa(buf: &mut Vec<u8>, ioa: InfoObjAddr)
    ensures
        final(buf)@ == old(buf)@ + spec_ioa_bytes(ioa),
{
    buf.push((ioa.addr % 256) as u8);
    buf.push((ioa.addr / 256) as u8);
    buf.push(ioa.res);
    proof {
        assert(buf@ =~= old(buf)@ + spec_ioa_bytes(ioa));
    }
}

/// Build the single-object identifier every command carries.
fn cmd_identifier(type_id: TypeID, cot: CauseOfTransmission, ca: CommonAddr) -> (r: Identifier)
    ensures
        r == spec_sys_identifier(type_id, cot, ca),
        r.wf(),
{
    Identifier {
        type_id,
        variable_struct: VariableStruct::new(false, 1),
        cot,
        orig_addr: 0,
        common_addr: ca,
    }
}

/// Build a double command (C_DC_NA_1, or C_DC_TA_1 with a time tag).
pub fn double_cmd(
    type_id: TypeID,
    cot: CauseOfTransmission,
    ca: CommonAddr,
    cmd: DoubleCommandInfo,
) -> (r: Result<Asdu, Error>)
    requires
        cmd.dco.wf(),
        cmd.time matches Some(t) ==> t.wf(),
    ensures
        !spec_cause_cmd(cot.cause) ==> r == Err::<Asdu, Error>(Error::ErrCmdCause(cot)),
        spec_cause_cmd(cot.cause) && type_id != TypeID::C_DC_NA_1 && type_id != TypeID::C_DC_TA_1
            ==> r == Err::<Asdu, Error>(Error::ErrTypeIDNotMatch(type_id)),
        spec_cause_cmd(cot.cause) && type_id == TypeID::C_DC_NA_1 ==> match r {
            Ok(a) => a.identifier == spec_sys_identifier(type_id, cot, ca) && a.wf() && a.raw@
                == spec_ioa_bytes(cmd.ioa).push(spec_dco_raw(cmd.dco)),
            Err(_) => false,
        },
        spec_cause_cmd(cot.cause) && type_id == TypeID::C_DC_TA_1 ==> match r {
            Ok(a) => {
                &&& a.identifier == spec_sys_identifier(type_id, cot, ca)
                &&& a.wf()
                &&& a.raw@.len() == 11
                &&& a.raw@.take(4) == spec_ioa_bytes(cmd.ioa).push(spec_dco_raw(cmd.dco))
                &&& spec_cmd_time_bytes(cmd.time, a.raw@.skip(4))
            },
            Err(_) => false,
        },
{
    if !(matches!(cot.cause, Cause::Activation) || matches!(cot.cause, Cause::Deactivation)) {
        return Err(Error::ErrCmdCause(cot));
    }
    if !(matches!(type_id, TypeID::C_DC_NA_1) || matches!(type_id, TypeID::C_DC_TA_1)) {
        return Err(Error::ErrTypeIDNotMatch(type_id));
    }
    let mut buf: Vec<u8> = Vec::new();
    push_ioa(&mut buf, cmd.ioa);
    buf.push(cmd.dco.raw());
    if matches!(type_id, TypeID::C_DC_TA_1) {
        let t = cmd_time(cmd.time);
        let tb = cp56time2a(t);
        append_bytes(&mut buf, &tb);
        proof {
            assert(buf@.take(4) =~= spec_ioa_bytes(cmd.ioa).push(spec_dco_raw(cmd.dco)));
            assert(buf@.skip(4) =~= spec_cp56_bytes(t));
        }
    } else {
        proof {
            assert(buf@ =~= spec_ioa_bytes(cmd.ioa).push(spec_dco_raw(cmd.dco)));
        }
    }
    Ok(Asdu { identifier: cmd_identifier(type_id, cot, ca), raw: buf })
}

/// Build a normalized-value set-point command (C_SE_NA_1, or C_SE_TA_1
/// with a time tag).
pub fn set_point_cmd_normal(
    type_id: TypeID,
    cot: CauseOfTransmission,
    ca: CommonAddr,
    cmd: SetpointCommandNormalInfo,
) -> (r: Result<Asdu, Error>)
    requires
        cmd.qos.wf(),
        cmd.time matches Some(t) ==> t.wf(),
    ensures
        !spec_cause_cmd(cot.cause) ==> r == Err::<Asdu, Error>(Error::ErrCmdCause(cot)),
        spec_cause_cmd(cot.cause) && type_id != TypeID::C_SE_NA_1 && type_id != TypeID::C_SE_TA_1
            ==> r == Err::<Asdu, Error>(Error::ErrTypeIDNotMatch(type_id)),
        spec_cause_cmd(cot.cause) && type_id == TypeID::C_SE_NA_1 ==> match r {
            Ok(a) => a.identifier == spec_sys_identifier(type_id, cot, ca) && a.wf() && a.raw@
                == spec_ioa_bytes(cmd.ioa) + spec_i16_le(cmd.nva) + seq![spec_qos_raw(cmd.qos)],
            Err(_) => false,
        },
        spec_cause_cmd(cot.cause) && type_id == TypeID::C_SE_TA_1 ==> match r {
            Ok(a) => {
                &&& a.identifier == spec_sys_identifier(type_id, cot, ca)
                &&& a.wf()
                &&& a.raw@.len() == 13
                &&& a.raw@.take(6) == spec_ioa_bytes(cmd.ioa) + spec_i16_le(cmd.nva) + seq![
                    spec_qos_raw(cmd.qos),
                ]
                &&& spec_cmd_time_bytes(cmd.time, a.raw@.skip(6))
            },
            Err(_) => false,
        },
{
    if !(matches!(cot.cause, Cause::Activation) || matches!(cot.cause, Cause::Deactivation)) {
        return Err(Error::ErrCmdCause(cot));
    }
    if !(matches!(type_id, TypeID::C_SE_NA_1) || matches!(type_id, TypeID::C_SE_TA_1)) {
        return Err(Error::ErrTypeIDNotMatch(type_id));
    }
    let mut buf: Vec<u8> = Vec::new();
    push_ioa(&mut buf, cmd.ioa);
    push_i16_le(&mut buf, cmd.nva);
    buf.push(cmd.qos.raw());
    if matches!(type_id, TypeID::C_SE_TA_1) {
        let t = cmd_time(cmd.time);
        let tb = cp56time2a(t);
        append_bytes(&mut buf, &tb);
        proof {
            assert(buf@.take(6) =~= spec_ioa_bytes(cmd.ioa) + spec_i16_le(cmd.nva) + seq![
                spec_qos_raw(cmd.qos),
            ]);
            assert(buf@.skip(6) =~= spec_cp56_bytes(t));
        }
    } else {
        proof {
            assert(buf@ =~= spec_ioa_bytes(cmd.ioa) + spec_i16_le(cmd.nva) + seq![
                spec_qos_raw(cmd.qos),
            ]);
        }
    }
    Ok(Asdu { identifier: cmd_identifier(type_id, cot, ca), raw: buf })
}

/// Build a scaled-value set-point command (C_SE_NB_1, or C_SE_TB_1 with a
/// time tag).
pub fn set_point_cmd_scaled(
    type_id: TypeID,
    cot: CauseOfTransmission,
    ca: CommonAddr,
    cmd: SetpointCommandScaledInfo,
) -> (r: Result<Asdu, Error>)
    requires
        cmd.qos.wf(),
        cmd.time matches Some(t) ==> t.wf(),
    ensures
        !spec_cause_cmd(cot.cause) ==> r == Err::<Asdu, Error>(Error::ErrCmdCause(cot)),
        spec_cause_cmd(cot.cause) && type_id != TypeID::C_SE_NB_1 && type_id != TypeID::C_SE_TB_1
            ==> r == Err::<Asdu, Error>(Error::ErrTypeIDNotMatch(type_id)),
        spec_cause_cmd(cot.cause) && type_id == TypeID::C_SE_NB_1 ==> match r {
            Ok(a) => a.identifier == spec_sys_identifier(type_id, cot, ca) && a.wf() && a.raw@
                == spec_ioa_bytes(cmd.ioa) + spec_i16_le(cmd.sva) + seq![spec_qos_raw(cmd.qos)],
            Err(_) => false,
        },
        spec_cause_cmd(cot.cause) && type_id == TypeID::C_SE_TB_1 ==> match r {
            Ok(a) => {
                &&& a.identifier == spec_sys_identifier(type_id, cot, ca)
                &&& a.wf()
                &&& a.raw@.len() == 13
                &&& a.raw@.take(6) == spec_ioa_bytes(cmd.ioa) + spec_i16_le(cmd.sva) + seq![
                    spec_qos_raw(cmd.qos),
                ]
                &&& spec_cmd_time_bytes(cmd.time, a.raw@.skip(6))
            },
            Err(_) => false,
        },
{
    if !(matches!(cot.cause, Cause::Activation) || matches!(cot.cause, Cause::Deactivation)) {
        return Err(Error::ErrCmdCause(cot));
    }
    if !(matches!(type_id, TypeID::C_SE_NB_1) || matches!(type_id, TypeID::C_SE_TB_1)) {
        return Err(Error::ErrTypeIDNotMatch(type_id));
    }
    let mut buf: Vec<u8> = Vec::new();
    push_ioa(&mut buf, cmd.ioa);
    push_i16_le(&mut buf, cmd.sva);
    buf.push(cmd.qos.raw());
    if matches!(type_id, TypeID::C_SE_TB_1) {
        let t = cmd_time(cmd.time);
        let tb = cp56time2a(t);
        append_bytes(&mut buf, &tb);
        proof {
            assert(buf@.take(6) =~= spec_ioa_bytes(cmd.ioa) + spec_i16_le(cmd.sva) + seq![
                spec_qos_raw(cmd.qos),
            ]);
            assert(buf@.skip(6) =~= spec_cp56_bytes(t));
        }
    } else {
        proof {
            assert(buf@ =~= spec_ioa_bytes(cmd.ioa) + spec_i16_le(cmd.sva) + seq![
                spec_qos_raw(cmd.qos),
            ]);
        }
    }
    Ok(Asdu { identifier: cmd_identifier(type_id, cot, ca), raw: buf })
}

/// Build a short-float set-point command (C_SE_NC_1, or C_SE_TC_1 with a
/// time tag). The value is the float's bit pattern.
pub fn set_point_cmd_float(
    type_id: TypeID,
    cot: CauseOfTransmission,
    ca: CommonAddr,
    cmd: SetpointCommandFloatInfo,
) -> (r: Result<Asdu, Error>)
    requires
        cmd.qos.wf(),
        cmd.time matches Some(t) ==> t.wf(),
    ensures
        !spec_cause_cmd(cot.cause) ==> r == Err::<Asdu, Error>(Error::ErrCmdCause(cot)),
        spec_cause_cmd(cot.cause) && type_id != TypeID::C_SE_NC_1 && type_id != TypeID::C_SE_TC_1
            ==> r == Err::<Asdu, Error>(Error::ErrTypeIDNotMatch(type_id)),
        spec_cause_cmd(cot.cause) && type_id == TypeID::C_SE_NC_1 ==> match r {
            Ok(a) => a.identifier == spec_sys_identifier(type_id, cot, ca) && a.wf() && a.raw@
                == spec_ioa_bytes(cmd.ioa) + spec_u32_le(cmd.r as int) + seq![
                spec_qos_raw(cmd.qos),
            ],
            Err(_) => false,
        },
        spec_cause_cmd(cot.cause) && type_id == TypeID::C_SE_TC_1 ==> match r {
            Ok(a) => {
                &&& a.identifier == spec_sys_identifier(type_id, cot, ca)
                &&& a.wf()
                &&& a.raw@.len() == 15
                &&& a.raw@.take(8) == spec_ioa_bytes(cmd.ioa) + spec_u32_le(cmd.r as int) + seq![
                    spec_qos_raw(cmd.qos),
                ]
                &&& spec_cmd_time_bytes(cmd.time, a.raw@.skip(8))
            },
            Err(_) => false,
        },
{
    if !(matches!(cot.cause, Cause::Activation) || matches!(cot.cause, Cause::Deactivation)) {
        return Err(Error::ErrCmdCause(cot));
    }
    if !(matches!(type_id, TypeID::C_SE_NC_1) || matches!(type_id, TypeID::C_SE_TC_1)) {
        return Err(Error::ErrTypeIDNotMatch(type_id));
    }
    let mut buf: Vec<u8> = Vec::new();
    push_ioa(&mut buf, cmd.ioa);
    push_u32_le(&mut buf, cmd.r);
    buf.push(cmd.qos.raw());
    if matches!(type_id, TypeID::C_SE_TC_1) {
        let t = cmd_time(cmd.time);
        let tb = cp56time2a(t);
        append_bytes(&mut buf, &tb);
        proof {
            assert(buf@.take(8) =~= spec_ioa_bytes(cmd.ioa) + spec_u32_le(cmd.r as int) + seq![
                spec_qos_raw(cmd.qos),
            ]);
            assert(buf@.skip(8) =~= spec_cp56_bytes(t));
        }
    } else {
        proof {
            assert(buf@ =~= spec_ioa_bytes(cmd.ioa) + spec_u32_le(cmd.r as int) + seq![
                spec_qos_raw(cmd.qos),
            ]);
        }
    }
    Ok(Asdu { identifier: cmd_identifier(type_id, cot, ca), raw: buf })
}

/// Build a 32-bit string command (C_BO_NA_1, or C_BO_TA_1 with a time tag).
pub fn bits_string32_cmd(
    type_id: TypeID,
    cot: CauseOfTransmission,
    ca: CommonAddr,
    cmd: BitsString32CommandInfo,
) -> (r: Result<Asdu, Error>)
    requires
        cmd.time matches Some(t) ==> t.wf(),
    ensures
        !spec_cause_cmd(cot.cause) ==> r == Err::<Asdu, Error>(Error::ErrCmdCause(cot)),
        spec_cause_cmd(cot.cause) && type_id != TypeID::C_BO_NA_1 && type_id != TypeID::C_BO_TA_1
            ==> r == Err::<Asdu, Error>(Error::ErrTypeIDNotMatch(type_id)),
        spec_cause_cmd(cot.cause) && type_id == TypeID::C_BO_NA_1 ==> match r {
            Ok(a) => a.identifier == spec_sys_identifier(type_id, cot, ca) && a.wf() && a.raw@
                == spec_ioa_bytes(cmd.ioa) + spec_i32_le(cmd.bcr),
            Err(_) => false,
        },
        spec_cause_cmd(cot.cause) && type_id == TypeID::C_BO_TA_1 ==> match r {
            Ok(a) => {
                &&& a.identifier == spec_sys_identifier(type_id, cot, ca)
                &&& a.wf()
                &&& a.raw@.len() == 14
                &&& a.raw@.take(7) == spec_ioa_bytes(cmd.ioa) + spec_i32_le(cmd.bcr)
                &&& spec_cmd_time_bytes(cmd.time, a.raw@.skip(7))
            },
            Err(_) => false,
        },
{
    if !(matches!(cot.cause, Cause::Activation) || matches!(cot.cause, Cause::Deactivation)) {
        return Err(Error::ErrCmdCause(cot));
    }
    if !(matches!(type_id, TypeID::C_BO_NA_1) || matches!(type_id, TypeID::C_BO_TA_1)) {
        return Err(Error::ErrTypeIDNotMatch(type_id));
    }
    let mut buf: Vec<u8> = Vec::new();
    push_ioa(&mut buf, cmd.ioa);
    push_i32_le(&mut buf, cmd.bcr);
    if matches!(type_id, TypeID::C_BO_TA_1) {
        let t = cmd_time(cmd.time);
        let tb = cp56time2a(t);
        append_bytes(&mut buf, &tb);
        proof {
            assert(buf@.take(7) =~= spec_ioa_bytes(cmd.ioa) + spec_i32_le(cmd.bcr));
            assert(buf@.skip(7) =~= spec_cp56_bytes(t));
        }
    } else {
        proof {
            assert(buf@ =~= spec_ioa_bytes(cmd.ioa) + spec_i32_le(cmd.bcr));
        }
    }
    Ok(Asdu { identifier: cmd_identifier(type_id, cot, ca), raw: buf })
}

/// The optional trailing CP56 tag of a command body: present when seven
/// more bytes follow `pos`.
pub open spec fn spec_cmd_tail_time(tid: TypeID, timed: TypeID, body: Seq<u8>, pos: int) -> Option<
    Time2a,
> {
    if tid == timed && body.len() - pos >= 7 {
        spec_cp56_from(body.subrange(pos, pos + 7))
    } else {
        None
    }
}

impl Asdu {
    /// Read the single command of a C_SC_NA_1 or C_SC_TA_1 ASDU.
    pub fn get_single_cmd(&self) -> (r: Result<SingleCommandInfo, Error>)
        ensures
            self.identifier.type_id != TypeID::C_SC_NA_1 && self.identifier.type_id
                != TypeID::C_SC_TA_1 ==> r == Err::<SingleCommandInfo, Error>(
                Error::ErrTypeIDNotMatch(self.identifier.type_id),
            ),
            (self.identifier.type_id == TypeID::C_SC_NA_1 || self.identifier.type_id
                == TypeID::C_SC_TA_1) && self.raw@.len() < 4 ==> r == Err::<
                SingleCommandInfo,
                Error,
            >(Error::ErrAsduTooShort),
            (self.identifier.type_id == TypeID::C_SC_NA_1 || self.identifier.type_id
                == TypeID::C_SC_TA_1) && self.raw@.len() >= 4 ==> r == Ok::<
                SingleCommandInfo,
                Error,
            >(
                (SingleCommandInfo {
                    ioa: spec_ioa_from(self.raw@[0], self.raw@[1], self.raw@[2]),
                    sco: spec_sco_from(self.raw@[3]),
                    time: spec_cmd_tail_time(
                        self.identifier.type_id,
                        TypeID::C_SC_TA_1,
                        self.raw@,
                        4,
                    ),
                }),
            ),
    {
        let tid = self.identifier.type_id;
        if !(matches!(tid, TypeID::C_SC_NA_1) || matches!(tid, TypeID::C_SC_TA_1)) {
            return Err(Error::ErrTypeIDNotMatch(tid));
        }
        let len = self.raw.len();
        if len < 4 {
            return Err(Error::ErrAsduTooShort);
        }
        let ioa = read_ioa(&self.raw, 0);
        let sco = ObjectSCO::from_raw(self.raw[3]);
        let time: Option<Time2a> = if matches!(tid, TypeID::C_SC_TA_1) && len - 4 >= 7 {
            decode_cp56time2a(&self.raw, 4)
        } else {
            None
        };
        Ok(SingleCommandInfo { ioa, sco, time })
    }

    /// Read the double command of a C_DC_NA_1 or C_DC_TA_1 ASDU.
    pub fn get_double_cmd(&self) -> (r: Result<DoubleCommandInfo, Error>)
        ensures
            self.identifier.type_id != TypeID::C_DC_NA_1 && self.identifier.type_id
                != TypeID::C_DC_TA_1 ==> r == Err::<DoubleCommandInfo, Error>(
                Error::ErrTypeIDNotMatch(self.identifier.type_id),
            ),
            (self.identifier.type_id == TypeID::C_DC_NA_1 || self.identifier.type_id
                == TypeID::C_DC_TA_1) && self.raw@.len() < 4 ==> r == Err::<
                DoubleCommandInfo,
                Error,
            >(Error::ErrAsduTooShort),
            (self.identifier.type_id == TypeID::C_DC_NA_1 || self.identifier.type_id
                == TypeID::C_DC_TA_1) && self.raw@.len() >= 4 ==> r == Ok::<
                DoubleCommandInfo,
                Error,
            >(
                (DoubleCommandInfo {
                    ioa: spec_ioa_from(self.raw@[0], self.raw@[1], self.raw@[2]),
                    dco: spec_dco_from(self.raw@[3]),
                    time: spec_cmd_tail_time(
                        self.identifier.type_id,
                        TypeID::C_DC_TA_1,
                        self.raw@,
                        4,
                    ),
                }),
            ),
    {
        let tid = self.identifier.type_id;
        if !(matches!(tid, TypeID::C_DC_NA_1) || matches!(tid, TypeID::C_DC_TA_1)) {
            return Err(Error::ErrTypeIDNotMatch(tid));
        }
        let len = self.raw.len();
        if len < 4 {
            return Err(Error::ErrAsduTooShort);
        }
        let ioa = read_ioa(&self.raw, 0);
        let dco = ObjectDCO::from_raw(self.raw[3]);
        let time: Option<Time2a> = if matches!(tid, TypeID::C_DC_TA_1) && len - 4 >= 7 {
            decode_cp56time2a(&self.raw, 4)
        } else {
            None
        };
        Ok(DoubleCommandInfo { ioa, dco, time })
    }

    /// Read the normalized set-point command of a C_SE_NA_1 or C_SE_TA_1
    /// ASDU.
    pub fn get_setpoint_normal_cmd(&self) -> (r: Result<SetpointCommandNormalInfo, Error>)
        ensures
            self.identifier.type_id != TypeID::C_SE_NA_1 && self.identifier.type_id
                != TypeID::C_SE_TA_1 ==> r == Err::<SetpointCommandNormalInfo, Error>(
                Error::ErrTypeIDNotMatch(self.identifier.type_id),
            ),
            (self.identifier.type_id == TypeID::C_SE_NA_1 || self.identifier.type_id
                == TypeID::C_SE_TA_1) && self.raw@.len() < 6 ==> r == Err::<
                SetpointCommandNormalInfo,
                Error,
            >(Error::ErrAsduTooShort),
            (self.identifier.type_id == TypeID::C_SE_NA_1 || self.identifier.type_id
                == TypeID::C_SE_TA_1) && self.raw@.len() >= 6 ==> r == Ok::<
                SetpointCommandNormalInfo,
                Error,
            >(
                (SetpointCommandNormalInfo {
                    ioa: spec_ioa_from(self.raw@[0], self.raw@[1], self.raw@[2]),
                    nva: spec_i16_from(self.raw@[3], self.raw@[4]),
                    qos: spec_qos_from(self.raw@[5]),
                    time: spec_cmd_tail_time(
                        self.identifier.type_id,
                        TypeID::C_SE_TA_1,
                        self.raw@,
                        6,
                    ),
                }),
            ),
    {
        let tid = self.identifier.type_id;
        if !(matches!(tid, TypeID::C_SE_NA_1) || matches!(tid, TypeID::C_SE_TA_1)) {
            return Err(Error::ErrTypeIDNotMatch(tid));
        }
        let len = self.raw.len();
        if len < 6 {
            return Err(Error::ErrAsduTooShort);
        }
        let ioa = read_ioa(&self.raw, 0);
        let nva = read_i16_le(&self.raw, 3);
        let qos = ObjectQOS::from_raw(self.raw[5]);
        let time: Option<Time2a> = if matches!(tid, TypeID::C_SE_TA_1) && len - 6 >= 7 {
            decode_cp56time2a(&self.raw, 6)
        } else {
            None
        };
        Ok(SetpointCommandNormalInfo { ioa, nva, qos, time })
    }

    /// Read the scaled set-point command of a C_SE_NB_1 or C_SE_TB_1 ASDU.
    pub fn get_setpoint_scaled_cmd(&self) -> (r: Result<SetpointCommandScaledInfo, Error>)
        ensures
            self.identifier.type_id != TypeID::C_SE_NB_1 && self.identifier.type_id
                != TypeID::C_SE_TB_1 ==> r == Err::<SetpointCommandScaledInfo, Error>(
                Error::ErrTypeIDNotMatch(self.identifier.type_id),
            ),
            (self.identifier.type_id == TypeID::C_SE_NB_1 || self.identifier.type_id
                == TypeID::C_SE_TB_1) && self.raw@.len() < 6 ==> r == Err::<
                SetpointCommandScaledInfo,
                Error,
            >(Error::ErrAsduTooShort),
            (self.identifier.type_id == TypeID::C_SE_NB_1 || self.identifier.type_id
                == TypeID::C_SE_TB_1) && self.raw@.len() >= 6 ==> r == Ok::<
                SetpointCommandScaledInfo,
                Error,
            >(
                (SetpointCommandScaledInfo {
                    ioa: spec_ioa_from(self.raw@[0], self.raw@[1], self.raw@[2]),
                    sva: spec_i16_from(self.raw@[3], self.raw@[4]),
                    qos: spec_qos_from(self.raw@[5]),
                    time: spec_cmd_tail_time(
                        self.identifier.type_id,
                        TypeID::C_SE_TB_1,
                        self.raw@,
                        6,
                    ),
                }),
            ),
    {
        let tid = self.identifier.type_id;
        if !(matches!(tid, TypeID::C_SE_NB_1) || matches!(tid, TypeID::C_SE_TB_1)) {
            return Err(Error::ErrTypeIDNotMatch(tid));
        }
        let len = self.raw.len();
        if len < 6 {
            return Err(Error::ErrAsduTooShort);
        }
        let ioa = read_ioa(&self.raw, 0);
        let sva = read_i16_le(&self.raw, 3);
        let qos = ObjectQOS::from_raw(self.raw[5]);
        let time: Option<Time2a> = if matches!(tid, TypeID::C_SE_TB_1) && len - 6 >= 7 {
            decode_cp56time2a(&self.raw, 6)
        } else {
            None
        };
        Ok(SetpointCommandScaledInfo { ioa, sva, qos, time })
    }

    /// Read the short-float set-point command of a C_SE_NC_1 or C_SE_TC_1
    /// ASDU. The value comes back as the float's bit pattern.
    pub fn get_setpoint_float_cmd(&self) -> (r: Result<SetpointCommandFloatInfo, Error>)
        ensures
            self.identifier.type_id != TypeID::C_SE_NC_1 && self.identifier.type_id
                != TypeID::C_SE_TC_1 ==> r == Err::<SetpointCommandFloatInfo, Error>(
                Error::ErrTypeIDNotMatch(self.identifier.type_id),
            ),
            (self.identifier.type_id == TypeID::C_SE_NC_1 || self.identifier.type_id
                == TypeID::C_SE_TC_1) && self.raw@.len() < 8 ==> r == Err::<
                SetpointCommandFloatInfo,
                Error,
            >(Error::ErrAsduTooShort),
            (self.identifier.type_id == TypeID::C_SE_NC_1 || self.identifier.type_id
                == TypeID::C_SE_TC_1) && self.raw@.len() >= 8 ==> r == Ok::<
                SetpointCommandFloatInfo,
                Error,
            >(
                (SetpointCommandFloatInfo {
                    ioa: spec_ioa_from(self.raw@[0], self.raw@[1], self.raw@[2]),
                    r: spec_u32_from(self.raw@[3], self.raw@[4], self.raw@[5], self.raw@[6]),
                    qos: spec_qos_from(self.raw@[7]),
                    time: spec_cmd_tail_time(
                        self.identifier.type_id,
                        TypeID::C_SE_TC_1,
                        self.raw@,
                        8,
                    ),
                }),
            ),
    {
        let tid = self.identifier.type_id;
        if !(matches!(tid, TypeID::C_SE_NC_1) || matches!(tid, TypeID::C_SE_TC_1)) {
            return Err(Error::ErrTypeIDNotMatch(tid));
        }
        let len = self.raw.len();
        if len < 8 {
            return Err(Error::ErrAsduTooShort);
        }
        let ioa = read_ioa(&self.raw, 0);
        let rv = read_u32_le(&self.raw, 3);
        let qos = ObjectQOS::from_raw(self.raw[7]);
        let time: Option<Time2a> = if matches!(tid, TypeID::C_SE_TC_1) && len - 8 >= 7 {
            decode_cp56time2a(&self.raw, 8)
        } else {
            None
        };
        Ok(SetpointCommandFloatInfo { ioa, r: rv, qos, time })
    }

    /// Read the 32-bit string command of a C_BO_NA_1 or C_BO_TA_1 ASDU.
    pub fn get_bits_string32_cmd(&self) -> (r: Result<BitsString32CommandInfo, Error>)
        ensures
            self.identifier.type_id != TypeID::C_BO_NA_1 && self.identifier.type_id
                != TypeID::C_BO_TA_1 ==> r == Err::<BitsString32CommandInfo, Error>(
                Error::ErrTypeIDNotMatch(self.identifier.type_id),
            ),
            (self.identifier.type_id == TypeID::C_BO_NA_1 || self.identifier.type_id
                == TypeID::C_BO_TA_1) && self.raw@.len() < 7 ==> r == Err::<
                BitsString32CommandInfo,
                Error,
            >(Error::ErrAsduTooShort),
            (self.identifier.type_id == TypeID::C_BO_NA_1 || self.identifier.type_id
                == TypeID::C_BO_TA_1) && self.raw@.len() >= 7 ==> r == Ok::<
                BitsString32CommandInfo,
                Error,
            >(
                (BitsString32CommandInfo {
                    ioa: spec_ioa_from(self.raw@[0], self.raw@[1], self.raw@[2]),
                    bcr: spec_i32_from(self.raw@[3], self.raw@[4], self.raw@[5], self.raw@[6]),
                    time: spec_cmd_tail_time(
                        self.identifier.type_id,
                        TypeID::C_BO_TA_1,
                        self.raw@,
                        7,
                    ),
                }),
            ),
    {
        let tid = self.identifier.type_id;
        if !(matches!(tid, TypeID::C_BO_NA_1) || matches!(tid, TypeID::C_BO_TA_1)) {
            return Err(Error::ErrTypeIDNotMatch(tid));
        }
        let len = self.raw.len();
        if len < 7 {
            return Err(Error::ErrAsduTooShort);
        }
        let ioa = read_ioa(&self.raw, 0);
        let bcr = read_i32_le(&self.raw, 3);
        let time: Option<Time2a> = if matches!(tid, TypeID::C_BO_TA_1) && len - 7 >= 7 {
            decode_cp56time2a(&self.raw, 7)
        } else {
            None
        };
        Ok(BitsString32CommandInfo { ioa, bcr, time })
    }
}

/// Read the three little-endian octets of an object address at `pos`.
fn read_ioa(buf: &Vec<u8>, pos: usize) -> (r: InfoObjAddr)
    requires
        pos + 3 <= buf@.len(),
    ensures
        r == spec_ioa_from(buf@[pos as int], buf@[pos + 1], buf@[pos + 2]),
{
    let n: usize = buf.len();
    InfoObjAddr { res: buf[pos + 2], addr: buf[pos] as u16 + buf[pos + 1] as u16 * 256 }
}

/// Round trip: a single command with a well-formed time parses back exactly
/// from the body its constructor writes.
pub proof fn lemma_single_cmd_round_trip(cmd: SingleCommandInfo, body: Seq<u8>, tid: TypeID)
    requires
        cmd.sco.wf(),
        tid == TypeID::C_SC_NA_1 || tid == TypeID::C_SC_TA_1,
        tid == TypeID::C_SC_NA_1 ==> body == spec_ioa_bytes(cmd.ioa).push(spec_sco_raw(cmd.sco))
            && cmd.time is None,
        tid == TypeID::C_SC_TA_1 ==> (cmd.time matches Some(t) && t.wf() && body == spec_ioa_bytes(
            cmd.ioa,
        ).push(spec_sco_raw(cmd.sco)) + spec_cp56_bytes(t)),
    ensures
        body.len() >= 4,
        (SingleCommandInfo {
            ioa: spec_ioa_from(body[0], body[1], body[2]),
            sco: spec_sco_from(body[3]),
            time: spec_cmd_tail_time(tid, TypeID::C_SC_TA_1, body, 4),
        }) == cmd,
{
    lemma_ioa_round_trip_at(cmd.ioa, body);
    lemma_sco_round_trip(cmd.sco);
    if tid == TypeID::C_SC_TA_1 {
        let t = cmd.time->Some_0;
        lemma_cp56_round_trip(t);
        assert(body.subrange(4, 11) =~= spec_cp56_bytes(t));
    }
}

/// The first three octets of a command body spell its object address.
proof fn lemma_ioa_round_trip_at(ioa: InfoObjAddr, body: Seq<u8>)
    requires
        body.len() >= 3,
        body[0] == spec_ioa_bytes(ioa)[0],
        body[1] == spec_ioa_bytes(ioa)[1],
        body[2] == spec_ioa_bytes(ioa)[2],
    ensures
        spec_ioa_from(body[0], body[1], body[2]) == ioa,
{
    crate::asdu::lemma_ioa_round_trip(ioa);
}

} // verus!
