//! Process information in the monitor direction: single and double points,
//! measured values (normalized, scaled, short-float bit patterns) and
//! integrated totals, with their quality descriptors and time-tag variants.

use vstd::prelude::*;
use crate::asdu::{
    lemma_ioa_round_trip, spec_ioa_bytes, spec_ioa_from, Asdu, Cause, CauseOfTransmission, CommonAddr, Identifier,
    InfoObjAddr, TypeID, VariableStruct, ASDU_BODY_SIZE_MAX,
};
use crate::error::Error;
use crate::le::{
    lemma_i16_le_round_trip, lemma_i32_le_round_trip, lemma_u32_le_round_trip, push_i16_le,
    push_i32_le, push_u32_le, read_i16_le, read_i32_le, read_u32_le, spec_i16_from, spec_i16_le,
    spec_i32_from, spec_i32_le, spec_u32_from, spec_u32_le,
};
use crate::time::{
    cp24time2a, cp56time2a, current_time2a, decode_cp24time2a, decode_cp56time2a,
    lemma_cp56_round_trip, spec_cp24_bytes, spec_cp56_bytes, spec_cp56_from, Time2a,
};

verus! {

/// Quality bits of a single-point object, around its one state bit.
#[derive(Debug, Clone, Copy, PartialEq, Eq, Structural)]
pub struct ObjectSIQ {
    /// The value is invalid.
    pub invalid: bool,
    /// Not topical: not the latest state.
    pub nt: bool,
    /// Substituted by hand.
    pub sb: bool,
    /// Blocked.
    pub bl: bool,
    /// Reserved, three bits, normally zero.
    pub res: u8,
    /// The single-point state.
    pub spi: bool,
}

/// The octet a single-point object writes: invalid in bit 7 down to the
/// state in bit 0.
pub open spec fn spec_siq_raw(s: ObjectSIQ) -> u8 {
    ((if s.invalid { 128int } else { 0int }) + (if s.nt { 64int } else { 0int }) + (if s.sb {
        32int
    } else {
        0int
    }) + (if s.bl { 16int } else { 0int }) + s.res * 2 + (if s.spi { 1int } else { 0int })) as u8
}

/// The single-point object an octet stands for.
pub open spec fn spec_siq_from(v: u8) -> ObjectSIQ {
    ObjectSIQ {
        invalid: v / 128 == 1,
        nt: v / 64 % 2 == 1,
        sb: v / 32 % 2 == 1,
        bl: v / 16 % 2 == 1,
        res: (v / 2 % 8) as u8,
        spi: v % 2 == 1,
    }
}

impl ObjectSIQ {
    /// The reserved bits fit their three-bit field.
    pub open spec fn wf(self) -> bool {
        self.res <= 7
    }

    pub fn new(invalid: bool, nt: bool, sb: bool, bl: bool, res: u8, spi: bool) -> (r: ObjectSIQ)
        ensures
            r == (ObjectSIQ { invalid, nt, sb, bl, res, spi }),
    {
        ObjectSIQ { invalid, nt, sb, bl, res, spi }
    }

    /// A good-quality object carrying just the state bit.
    pub fn new_with_value(value: bool) -> (r: ObjectSIQ)
        ensures
            r == (ObjectSIQ {
                invalid: false,
                nt: false,
                sb: false,
                bl: false,
                res: 0,
                spi: value,
            }),
    {
        ObjectSIQ { invalid: false, nt: false, sb: false, bl: false, res: 0, spi: value }
    }

    pub fn raw(&self) -> (r: u8)
        requires
            self.wf(),
        ensures
            r == spec_siq_raw(*self),
    {
        let i: u8 = if self.invalid { 128 } else { 0 };
        let n: u8 = if self.nt { 64 } else { 0 };
        let s: u8 = if self.sb { 32 } else { 0 };
        let b: u8 = if self.bl { 16 } else { 0 };
        let p: u8 = if self.spi { 1 } else { 0 };
        i + n + s + b + self.res * 2 + p
    }

    pub fn from_raw(v: u8) -> (r: ObjectSIQ)
        ensures
            r == spec_siq_from(v),
            r.wf(),
    {
        ObjectSIQ {
            invalid: v / 128 == 1,
            nt: v / 64 % 2 == 1,
            sb: v / 32 % 2 == 1,
            bl: v / 16 % 2 == 1,
            res: v / 2 % 8,
            spi: v % 2 == 1,
        }
    }
}

/// Every well-formed single-point object decodes back from its octet.
pub proof fn lemma_siq_round_trip(s: ObjectSIQ)
    requires
        s.wf(),
    ensures
        spec_siq_from(spec_siq_raw(s)) == s,
{
    let a: u8 = if s.invalid { 1 } else { 0 };
    let b: u8 = if s.nt { 1 } else { 0 };
    let c: u8 = if s.sb { 1 } else { 0 };
    let d: u8 = if s.bl { 1 } else { 0 };
    let e: u8 = s.res;
    let f: u8 = if s.spi { 1 } else { 0 };
    lemma_flag_bits(a, b, c, d, e, f);
}

/// Unpacking the packed flag octet (four flag bits, a three-bit field and a
/// final bit) recovers every part.
proof fn lemma_flag_bits(a: u8, b: u8, c: u8, d: u8, e: u8, f: u8)
    by (bit_vector)
    requires
        a <= 1,
        b <= 1,
        c <= 1,
        d <= 1,
        e <= 7,
        f <= 1,
    ensures
        (a * 128 + b * 64 + c * 32 + d * 16 + e * 2 + f) / 128 == a,
        (a * 128 + b * 64 + c * 32 + d * 16 + e * 2 + f) / 64 % 2 == b,
        (a * 128 + b * 64 + c * 32 + d * 16 + e * 2 + f) / 32 % 2 == c,
        (a * 128 + b * 64 + c * 32 + d * 16 + e * 2 + f) / 16 % 2 == d,
        (a * 128 + b * 64 + c * 32 + d * 16 + e * 2 + f) / 2 % 8 == e,
        (a * 128 + b * 64 + c * 32 + d * 16 + e * 2 + f) % 2 == f,
{
}

/// Quality bits of a double-point object, around its two state bits.
#[derive(Debug, Clone, Copy, PartialEq, Eq, Structural)]
pub struct ObjectDIQ {
    pub invalid: bool,
    pub nt: bool,
    pub sb: bool,
    pub bl: bool,
    /// Reserved, two bits, normally zero.
    pub res: u8,
    /// The double-point state: 0 and 3 undetermined, 1 off, 2 on.
    pub spi: u8,
}

/// The octet a double-point object writes.
pub open spec fn spec_diq_raw(s: ObjectDIQ) -> u8 {
    ((if s.invalid { 128int } else { 0int }) + (if s.nt { 64int } else { 0int }) + (if s.sb {
        32int
    } else {
        0int
    }) + (if s.bl { 16int } else { 0int }) + s.res * 4 + s.spi) as u8
}

/// The double-point object an octet stands for.
pub open spec fn spec_diq_from(v: u8) -> ObjectDIQ {
    ObjectDIQ {
        invalid: v / 128 == 1,
        nt: v / 64 % 2 == 1,
        sb: v / 32 % 2 == 1,
        bl: v / 16 % 2 == 1,
        res: (v / 4 % 4) as u8,
        spi: (v % 4) as u8,
    }
}

impl ObjectDIQ {
    pub open spec fn wf(self) -> bool {
        self.res <= 3 && self.spi <= 3
    }

    pub fn new(invalid: bool, nt: bool, sb: bool, bl: bool, res: u8, spi: u8) -> (r: ObjectDIQ)
        ensures
            r == (ObjectDIQ { invalid, nt, sb, bl, res, spi }),
    {
        ObjectDIQ { invalid, nt, sb, bl, res, spi }
    }

    pub fn raw(&self) -> (r: u8)
        requires
            self.wf(),
        ensures
            r == spec_diq_raw(*self),
    {
        let i: u8 = if self.invalid { 128 } else { 0 };
        let n: u8 = if self.nt { 64 } else { 0 };
        let s: u8 = if self.sb { 32 } else { 0 };
        let b: u8 = if self.bl { 16 } else { 0 };
        i + n + s + b + self.res * 4 + self.spi
    }

    pub fn from_raw(v: u8) -> (r: ObjectDIQ)
        ensures
            r == spec_diq_from(v),
            r.wf(),
    {
        ObjectDIQ {
            invalid: v / 128 == 1,
            nt: v / 64 % 2 == 1,
            sb: v / 32 % 2 == 1,
            bl: v / 16 % 2 == 1,
            res: v / 4 % 4,
            spi: v % 4,
        }
    }
}

/// Every well-formed double-point object decodes back from its octet.
pub proof fn lemma_diq_round_trip(s: ObjectDIQ)
    requires
        s.wf(),
    ensures
        spec_diq_from(spec_diq_raw(s)) == s,
{
    let a: u8 = if s.invalid { 1 } else { 0 };
    let b: u8 = if s.nt { 1 } else { 0 };
    let c: u8 = if s.sb { 1 } else { 0 };
    let d: u8 = if s.bl { 1 } else { 0 };
    lemma_flag_pair_bits(a, b, c, d, s.res, s.spi);
}

/// Unpacking the packed flag octet whose low nibble holds two two-bit fields.
proof fn lemma_flag_pair_bits(a: u8, b: u8, c: u8, d: u8, e: u8, f: u8)
    by (bit_vector)
    requires
        a <= 1,
        b <= 1,
        c <= 1,
        d <= 1,
        e <= 3,
        f <= 3,
    ensures
        (a * 128 + b * 64 + c * 32 + d * 16 + e * 4 + f) / 128 == a,
        (a * 128 + b * 64 + c * 32 + d * 16 + e * 4 + f) / 64 % 2 == b,
        (a * 128 + b * 64 + c * 32 + d * 16 + e * 4 + f) / 32 % 2 == c,
        (a * 128 + b * 64 + c * 32 + d * 16 + e * 4 + f) / 16 % 2 == d,
        (a * 128 + b * 64 + c * 32 + d * 16 + e * 4 + f) / 4 % 4 == e,
        (a * 128 + b * 64 + c * 32 + d * 16 + e * 4 + f) % 4 == f,
{
}

/// Quality descriptor of a measured value.
#[derive(Debug, Clone, Copy, PartialEq, Eq, Structural)]
pub struct ObjectQDS {
    pub invalid: bool,
    pub nt: bool,
    pub sb: bool,
    pub bl: bool,
    /// Reserved, three bits, normally zero.
    pub res: u8,
    /// Overflow.
    pub ov: bool,
}

/// The octet a quality descriptor writes.
pub open spec fn spec_qds_raw(s: ObjectQDS) -> u8 {
    ((if s.invalid { 128int } else { 0int }) + (if s.nt { 64int } else { 0int }) + (if s.sb {
        32int
    } else {
        0int
    }) + (if s.bl { 16int } else { 0int }) + s.res * 2 + (if s.ov { 1int } else { 0int })) as u8
}

/// The quality descriptor an octet stands for.
pub open spec fn spec_qds_from(v: u8) -> ObjectQDS {
    ObjectQDS {
        invalid: v / 128 == 1,
        nt: v / 64 % 2 == 1,
        sb: v / 32 % 2 == 1,
        bl: v / 16 % 2 == 1,
        res: (v / 2 % 8) as u8,
        ov: v % 2 == 1,
    }
}

impl ObjectQDS {
    pub open spec fn wf(self) -> bool {
        self.res <= 7
    }

    pub fn new(invalid: bool, nt: bool, sb: bool, bl: bool, res: u8, ov: bool) -> (r: ObjectQDS)
        ensures
            r == (ObjectQDS { invalid, nt, sb, bl, res, ov }),
    {
        ObjectQDS { invalid, nt, sb, bl, res, ov }
    }

    /// The all-good quality descriptor.
    pub fn good() -> (r: ObjectQDS)
        ensures
            r == (ObjectQDS {
                invalid: false,
                nt: false,
                sb: false,
                bl: false,
                res: 0,
                ov: false,
            }),
    {
        ObjectQDS { invalid: false, nt: false, sb: false, bl: false, res: 0, ov: false }
    }

    pub fn raw(&self) -> (r: u8)
        requires
            self.wf(),
        ensures
            r == spec_qds_raw(*self),
    {
        let i: u8 = if self.invalid { 128 } else { 0 };
        let n: u8 = if self.nt { 64 } else { 0 };
        let s: u8 = if self.sb { 32 } else { 0 };
        let b: u8 = if self.bl { 16 } else { 0 };
        let o: u8 = if self.ov { 1 } else { 0 };
        i + n + s + b + self.res * 2 + o
    }

    pub fn from_raw(v: u8) -> (r: ObjectQDS)
        ensures
            r == spec_qds_from(v),
            r.wf(),
    {
        ObjectQDS {
            invalid: v / 128 == 1,
            nt: v / 64 % 2 == 1,
            sb: v / 32 % 2 == 1,
            bl: v / 16 % 2 == 1,
            res: v / 2 % 8,
            ov: v % 2 == 1,
        }
    }
}

/// Every well-formed quality descriptor decodes back from its octet.
pub proof fn lemma_qds_round_trip(s: ObjectQDS)
    requires
        s.wf(),
    ensures
        spec_qds_from(spec_qds_raw(s)) == s,
{
    let a: u8 = if s.invalid { 1 } else { 0 };
    let b: u8 = if s.nt { 1 } else { 0 };
    let c: u8 = if s.sb { 1 } else { 0 };
    let d: u8 = if s.bl { 1 } else { 0 };
    let f: u8 = if s.ov { 1 } else { 0 };
    lemma_flag_bits(a, b, c, d, s.res, f);
}

/// A binary counter reading: flags and a signed count.
#[derive(Debug, Clone, Copy, PartialEq, Eq, Structural)]
pub struct ObjectBCR {
    /// The reading is invalid.
    pub invalid: bool,
    /// The count was adjusted since the last reading.
    pub ca: bool,
    /// Carry: the count overflowed in this period.
    pub cy: bool,
    /// Five-bit sequence notation.
    pub seq: u8,
    pub value: i32,
}

/// The flags octet a counter reading writes after its count.
pub open spec fn spec_bcr_flags(s: ObjectBCR) -> u8 {
    ((if s.invalid { 128int } else { 0int }) + (if s.ca { 64int } else { 0int }) + (if s.cy {
        32int
    } else {
        0int
    }) + s.seq) as u8
}

impl ObjectBCR {
    pub open spec fn wf(self) -> bool {
        self.seq <= 31
    }
}

/// The counter flags an octet stands for.
pub open spec fn spec_bcr_from_flags(v: u8, value: i32) -> ObjectBCR {
    ObjectBCR {
        invalid: v / 128 == 1,
        ca: v / 64 % 2 == 1,
        cy: v / 32 % 2 == 1,
        seq: (v % 32) as u8,
        value,
    }
}

/// Every well-formed counter reading's flags decode back from their octet.
pub proof fn lemma_bcr_round_trip(s: ObjectBCR)
    requires
        s.wf(),
    ensures
        spec_bcr_from_flags(spec_bcr_flags(s), s.value) == s,
{
    let a: u8 = if s.invalid { 1 } else { 0 };
    let b: u8 = if s.ca { 1 } else { 0 };
    let c: u8 = if s.cy { 1 } else { 0 };
    lemma_bcr_bits(a, b, c, s.seq);
}

/// Unpacking the counter flags octet recovers every part.
proof fn lemma_bcr_bits(a: u8, b: u8, c: u8, e: u8)
    by (bit_vector)
    requires
        a <= 1,
        b <= 1,
        c <= 1,
        e <= 31,
    ensures
        (a * 128 + b * 64 + c * 32 + e) / 128 == a,
        (a * 128 + b * 64 + c * 32 + e) / 64 % 2 == b,
        (a * 128 + b * 64 + c * 32 + e) / 32 % 2 == c,
        (a * 128 + b * 64 + c * 32 + e) % 32 == e,
{
}

/// The next address in a sequence layout: one higher, wrapping at the top.
pub open spec fn spec_next_ioa(ioa: InfoObjAddr) -> InfoObjAddr {
    InfoObjAddr {
        res: ioa.res,
        addr: if ioa.addr == 0xffff {
            0
        } else {
            (ioa.addr + 1) as u16
        },
    }
}

/// The next address in a sequence layout.
fn next_ioa(ioa: InfoObjAddr) -> (r: InfoObjAddr)
    ensures
        r == spec_next_ioa(ioa),
{
    InfoObjAddr { res: ioa.res, addr: if ioa.addr == 0xffff { 0 } else { ioa.addr + 1 } }
}

/// Prefix a parsed tail with already-parsed elements, passing a failure on.
pub open spec fn spec_prepend<T>(p: Seq<T>, rest: Option<Seq<T>>) -> Option<Seq<T>> {
    match rest {
        Some(r) => Some(p + r),
        None => None,
    }
}

/// What a CP24 tag pins down of a decoded time: the carried milliseconds
/// and minute; the calendar fields come from the receiver's clock, so the
/// parse specification uses fixed placeholders for them.
pub open spec fn spec_cp24_placeholder(b0: u8, b1: u8, b2: u8) -> Option<Time2a> {
    if b2 / 128 == 1 {
        None
    } else {
        Some(
            Time2a {
                millisecond: (b0 + b1 * 256) as u16,
                minute: (b2 % 64) as u8,
                hour: 0,
                day_of_week: 0,
                day: 1,
                month: 1,
                year: 0,
            },
        )
    }
}

/// A decoded time agrees with its CP24 placeholder: same carried fields,
/// clock-filled calendar fields within their ranges.
pub open spec fn spec_time24_agrees(s: Option<Time2a>, t: Option<Time2a>) -> bool {
    match s {
        None => t is None,
        Some(x) => match t {
            Some(y) => {
                &&& y.millisecond == x.millisecond
                &&& y.minute == x.minute
                &&& y.hour <= 23
                &&& y.day_of_week <= 7
                &&& 1 <= y.day <= 31
                &&& 1 <= y.month <= 12
                &&& y.year <= 99
            },
            None => false,
        },
    }
}

/// A single-point information object, optionally time-tagged.
#[derive(Debug, Clone, Copy, PartialEq)]
pub struct SinglePointInfo {
    pub ioa: InfoObjAddr,
    pub siq: ObjectSIQ,
    pub time: Option<Time2a>,
}

impl SinglePointInfo {
    pub fn new(ioa: InfoObjAddr, siq: ObjectSIQ, time: Option<Time2a>) -> (r: SinglePointInfo)
        ensures
            r == (SinglePointInfo { ioa, siq, time }),
    {
        SinglePointInfo { ioa, siq, time }
    }
}

/// The three type identifications that carry single points.
pub open spec fn spec_sp_family(tid: TypeID) -> bool {
    tid == TypeID::M_SP_NA_1 || tid == TypeID::M_SP_TA_1 || tid == TypeID::M_SP_TB_1
}

/// The payload one single-point element writes after its address: the
/// quality octet, then the time tag its type identification asks for.
pub open spec fn spec_sp_payload(tid: TypeID, info: SinglePointInfo) -> Seq<u8> {
    seq![spec_siq_raw(info.siq)] + if tid == TypeID::M_SP_TA_1 {
        match info.time {
            Some(t) => spec_cp24_bytes(t),
            None => Seq::empty(),
        }
    } else if tid == TypeID::M_SP_TB_1 {
        match info.time {
            Some(t) => spec_cp56_bytes(t),
            None => Seq::empty(),
        }
    } else {
        Seq::empty()
    }
}

/// The body bytes of a run of single-point elements. In the sequence layout
/// only the first element carries its address.
pub open spec fn spec_sp_elems(
    tid: TypeID,
    sq: bool,
    infos: Seq<SinglePointInfo>,
    first: bool,
) -> Seq<u8>
    decreases infos.len(),
{
    if infos.len() == 0 {
        Seq::empty()
    } else {
        (if !sq || first {
            spec_ioa_bytes(infos[0].ioa)
        } else {
            Seq::empty()
        }) + spec_sp_payload(tid, infos[0]) + spec_sp_elems(tid, sq, infos.skip(1), false)
    }
}

/// The whole single-point body.
pub open spec fn spec_sp_body(tid: TypeID, sq: bool, infos: Seq<SinglePointInfo>) -> Seq<u8> {
    spec_sp_elems(tid, sq, infos, true)
}

/// Parse `n` single-point elements from `pos`, mirroring the layout rules:
/// an explicit address for the first element (and, without the sequence
/// flag, for every element), implicit increments otherwise; a quality
/// octet; then the type's time tag, left out when the bytes run out.
pub open spec fn spec_sp_parse_rec(
    tid: TypeID,
    sq: bool,
    body: Seq<u8>,
    n: nat,
    pos: int,
    prev: InfoObjAddr,
    first: bool,
) -> Option<Seq<SinglePointInfo>>
    decreases n, 1int,
{
    if n == 0 {
        Some(Seq::empty())
    } else if !sq || first {
        if pos + 3 <= body.len() {
            spec_sp_parse_payload(
                tid,
                sq,
                body,
                n,
                pos + 3,
                spec_ioa_from(body[pos], body[pos + 1], body[pos + 2]),
            )
        } else {
            None
        }
    } else {
        spec_sp_parse_payload(tid, sq, body, n, pos, spec_next_ioa(prev))
    }
}

/// Parse one single-point payload at `pos` and the elements after it.
pub open spec fn spec_sp_parse_payload(
    tid: TypeID,
    sq: bool,
    body: Seq<u8>,
    n: nat,
    pos: int,
    ioa: InfoObjAddr,
) -> Option<Seq<SinglePointInfo>>
    decreases n, 0int,
{
    if n == 0 {
        Some(Seq::empty())
    } else if pos + 1 <= body.len() {
        let siq = spec_siq_from(body[pos]);
        let time = if tid == TypeID::M_SP_TA_1 && body.len() - (pos + 1) >= 3 {
            spec_cp24_placeholder(body[pos + 1], body[pos + 2], body[pos + 3])
        } else if tid == TypeID::M_SP_TB_1 && body.len() - (pos + 1) >= 7 {
            spec_cp56_from(body.subrange(pos + 1, pos + 8))
        } else {
            None
        };
        let consumed: int = if tid == TypeID::M_SP_TA_1 && body.len() - (pos + 1) >= 3 {
            4
        } else if tid == TypeID::M_SP_TB_1 && body.len() - (pos + 1) >= 7 {
            8
        } else {
            1
        };
        spec_prepend(
            seq![SinglePointInfo { ioa, siq, time }],
            spec_sp_parse_rec(tid, sq, body, (n - 1) as nat, pos + consumed, ioa, false),
        )
    } else {
        None
    }
}

/// Parse a whole single-point body.
pub open spec fn spec_sp_parse(tid: TypeID, sq: bool, n: nat, body: Seq<u8>) -> Option<
    Seq<SinglePointInfo>,
> {
    spec_sp_parse_rec(tid, sq, body, n, 0, (InfoObjAddr { res: 0, addr: 0 }), true)
}

/// A decoded run agrees with the parse specification: equal outright, save
/// that CP24-tagged times carry clock-filled calendar fields.
pub open spec fn spec_sp_agrees(
    tid: TypeID,
    s: Seq<SinglePointInfo>,
    r: Seq<SinglePointInfo>,
) -> bool {
    if tid == TypeID::M_SP_TA_1 {
        &&& r.len() == s.len()
        &&& forall|i: int|
            0 <= i < s.len() ==> (#[trigger] r[i]).ioa == s[i].ioa && r[i].siq == s[i].siq
                && spec_time24_agrees(s[i].time, r[i].time)
    } else {
        r == s
    }
}

/// How many bytes one element's payload takes, its time tag included.
pub open spec fn spec_sp_payload_len(tid: TypeID) -> int {
    if tid == TypeID::M_SP_TA_1 {
        4
    } else if tid == TypeID::M_SP_TB_1 {
        8
    } else {
        1
    }
}

/// Every element's time is present where the type identification carries one.
pub open spec fn spec_sp_times_given(tid: TypeID, infos: Seq<SinglePointInfo>) -> bool {
    tid != TypeID::M_SP_NA_1 ==> forall|j: int|
        0 <= j < infos.len() ==> (#[trigger] infos[j]).time is Some
}

/// The body length of a run of elements whose times are present.
pub proof fn lemma_sp_elems_len(tid: TypeID, sq: bool, infos: Seq<SinglePointInfo>, first: bool)
    requires
        spec_sp_times_given(tid, infos),
    ensures
        spec_sp_elems(tid, sq, infos, first).len() == if !sq {
            infos.len() * (3 + spec_sp_payload_len(tid))
        } else {
            (if first && infos.len() > 0 {
                3int
            } else {
                0int
            }) + infos.len() * spec_sp_payload_len(tid)
        },
    decreases infos.len(),
{
    if infos.len() > 0 {
        lemma_sp_elems_len(tid, sq, infos.skip(1), false);
        let n = infos.len() as int;
        let l = spec_sp_payload_len(tid);
        assert((n - 1) * (3 + l) + (3 + l) == n * (3 + l)) by (nonlinear_arith);
        assert((n - 1) * l + l == n * l) by (nonlinear_arith);
    } else {
        assert(infos.len() * (3 + spec_sp_payload_len(tid)) == 0) by (nonlinear_arith)
            requires infos.len() == 0,
        ;
        assert(infos.len() * spec_sp_payload_len(tid) == 0) by (nonlinear_arith)
            requires infos.len() == 0,
        ;
    }
}

/// `filled` is `orig` with every missing time written in: addresses and
/// values are kept, given times are kept, and a type that carries a time
/// tag gets a well-formed current time where none was given.
pub open spec fn spec_sp_filled(
    tid: TypeID,
    orig: Seq<SinglePointInfo>,
    filled: Seq<SinglePointInfo>,
) -> bool {
    &&& filled.len() == orig.len()
    &&& forall|j: int|
        0 <= j < orig.len() ==> {
            &&& (#[trigger] filled[j]).ioa == orig[j].ioa
            &&& filled[j].siq == orig[j].siq
            &&& (tid == TypeID::M_SP_NA_1 ==> filled[j].time == orig[j].time)
            &&& (tid != TypeID::M_SP_NA_1 ==> match orig[j].time {
                Some(t) => filled[j].time == Some(t),
                None => filled[j].time matches Some(t2) && t2.wf(),
            })
        }
}

/// Write the current time into every element that lacks one, for the types
/// that carry a time tag.
fn fill_times_sp(tid: TypeID, infos: Vec<SinglePointInfo>) -> (r: Vec<SinglePointInfo>)
    ensures
        spec_sp_filled(tid, infos@, r@),
        spec_sp_times_given(tid, r@),
{
    if matches!(tid, TypeID::M_SP_NA_1) {
        return infos;
    }
    let mut r: Vec<SinglePointInfo> = Vec::new();
    let mut i: usize = 0;
    while i < infos.len()
        invariant
            i <= infos@.len(),
            r@.len() == i,
            tid != TypeID::M_SP_NA_1,
            forall|j: int|
                0 <= j < i ==> {
                    &&& (#[trigger] r@[j]).ioa == infos@[j].ioa
                    &&& r@[j].siq == infos@[j].siq
                    &&& (match infos@[j].time {
                        Some(t) => r@[j].time == Some(t),
                        None => r@[j].time matches Some(t2) && t2.wf(),
                    })
                },
        decreases infos@.len() - i,
    {
        let info = infos[i];
        match info.time {
            Some(_) => r.push(info),
            None => {
                let now = current_time2a();
                r.push(SinglePointInfo { ioa: info.ioa, siq: info.siq, time: Some(now) });
            },
        }
        i = i + 1;
    }
    r
}

/// Serialize a run of single-point elements.
fn encode_sp_body(tid: TypeID, sq: bool, infos: &Vec<SinglePointInfo>) -> (r: Vec<u8>)
    requires
        spec_sp_family(tid),
        spec_sp_times_given(tid, infos@),
        forall|j: int| 0 <= j < infos@.len() ==> (#[trigger] infos@[j]).siq.wf(),
        tid != TypeID::M_SP_NA_1 ==> forall|j: int|
            0 <= j < infos@.len() ==> ((#[trigger] infos@[j]).time matches Some(t) ==> t.wf()),
    ensures
        r@ == spec_sp_body(tid, sq, infos@),
{
    let mut buf: Vec<u8> = Vec::new();
    proof {
        assert(infos@.skip(0) =~= infos@);
        assert(buf@ + spec_sp_elems(tid, sq, infos@, true) =~= spec_sp_elems(tid, sq, infos@, true));
    }
    let mut i: usize = 0;
    while i < infos.len()
        invariant
            i <= infos@.len(),
            spec_sp_family(tid),
            spec_sp_times_given(tid, infos@),
            forall|j: int| 0 <= j < infos@.len() ==> (#[trigger] infos@[j]).siq.wf(),
            tid != TypeID::M_SP_NA_1 ==> forall|j: int|
                0 <= j < infos@.len() ==> ((#[trigger] infos@[j]).time matches Some(t) ==> t.wf()),
            spec_sp_body(tid, sq, infos@) == buf@ + spec_sp_elems(
                tid,
                sq,
                infos@.skip(i as int),
                i == 0,
            ),
        decreases infos@.len() - i,
    {
        let info = infos[i];
        let ghost before = buf@;
        if !sq || i == 0 {
            buf.push((info.ioa.addr % 256) as u8);
            buf.push((info.ioa.addr / 256) as u8);
            buf.push(info.ioa.res);
        }
        buf.push(info.siq.raw());
        if matches!(tid, TypeID::M_SP_TA_1) {
            match info.time {
                Some(t) => {
                    let tb = cp24time2a(t);
                    crate::csys::append_bytes(&mut buf, &tb);
                },
                None => {},
            }
        } else if matches!(tid, TypeID::M_SP_TB_1) {
            match info.time {
                Some(t) => {
                    let tb = cp56time2a(t);
                    crate::csys::append_bytes(&mut buf, &tb);
                },
                None => {},
            }
        }
        proof {
            assert(infos@.skip(i as int)[0] == info);
            assert(buf@ =~= before + ((if !sq || i == 0 {
                spec_ioa_bytes(info.ioa)
            } else {
                Seq::<u8>::empty()
            }) + spec_sp_payload(tid, info)));
            assert(infos@.skip(i as int).skip(1) =~= infos@.skip(i + 1));
            assert(spec_sp_body(tid, sq, infos@) == buf@ + spec_sp_elems(
                tid,
                sq,
                infos@.skip(i + 1),
                false,
            ));
        }
        i = i + 1;
    }
    proof {
        assert(infos@.skip(infos@.len() as int) =~= Seq::<SinglePointInfo>::empty());
        assert(buf@ =~= spec_sp_body(tid, sq, infos@));
    }
    buf
}

/// The identifier of a monitor-direction ASDU.
pub open spec fn spec_mon_identifier(
    tid: TypeID,
    sq: bool,
    n: int,
    cot: CauseOfTransmission,
    ca: CommonAddr,
) -> Identifier {
    Identifier {
        type_id: tid,
        variable_struct: VariableStruct { is_sequence: sq, number: n as u8 },
        cot,
        orig_addr: 0,
        common_addr: ca,
    }
}

/// Build a single-point ASDU of the given type: fill in missing times,
/// serialize the elements, and wrap them under the identifier.
fn sp_asdu(
    tid: TypeID,
    sq: bool,
    cot: CauseOfTransmission,
    ca: CommonAddr,
    infos: Vec<SinglePointInfo>,
) -> (r: Asdu)
    requires
        spec_sp_family(tid),
        infos@.len() <= 127,
        !sq ==> infos@.len() * (3 + spec_sp_payload_len(tid)) <= ASDU_BODY_SIZE_MAX,
        sq ==> 3 + infos@.len() * spec_sp_payload_len(tid) <= ASDU_BODY_SIZE_MAX,
        forall|j: int| 0 <= j < infos@.len() ==> (#[trigger] infos@[j]).siq.wf(),
        tid != TypeID::M_SP_NA_1 ==> forall|j: int|
            0 <= j < infos@.len() ==> ((#[trigger] infos@[j]).time matches Some(t) ==> t.wf()),
    ensures
        r.identifier == spec_mon_identifier(tid, sq, infos@.len() as int, cot, ca),
        r.wf(),
        exists|filled: Seq<SinglePointInfo>|
            #[trigger] spec_sp_filled(tid, infos@, filled) && r.raw@ == spec_sp_body(
                tid,
                sq,
                filled,
            ),
        spec_sp_times_given(tid, infos@) ==> r.raw@ == spec_sp_body(tid, sq, infos@),
{
    let n = infos.len();
    let ghost orig = infos@;
    let filled = fill_times_sp(tid, infos);
    let buf = encode_sp_body(tid, sq, &filled);
    proof {
        lemma_sp_elems_len(tid, sq, filled@, true);
        assert(spec_sp_filled(tid, orig, filled@) && buf@ == spec_sp_body(tid, sq, filled@));
        if spec_sp_times_given(tid, orig) {
            assert forall|j: int| 0 <= j < orig.len() implies filled@[j] == orig[j] by {}
            assert(filled@ =~= orig);
        }
    }
    Asdu {
        identifier: Identifier {
            type_id: tid,
            variable_struct: VariableStruct::new(sq, n as u8),
            cot,
            orig_addr: 0,
            common_addr: ca,
        },
        raw: buf,
    }
}

/// The causes a plain single-point ASDU allows: background scan,
/// spontaneous, requested, returned remote or local information, or any
/// interrogation answer (cause numbers 20 to 36).
pub open spec fn spec_cause_mon_point(c: Cause) -> bool {
    ||| c.spec_u8() == 2
    ||| c.spec_u8() == 3
    ||| c.spec_u8() == 5
    ||| c.spec_u8() == 12
    ||| c.spec_u8() == 13
    ||| 20 <= c.spec_u8() <= 36
}

/// The causes a time-tagged point ASDU allows: spontaneous, requested,
/// returned remote or local information.
pub open spec fn spec_cause_mon_point_timed(c: Cause) -> bool {
    ||| c.spec_u8() == 3
    ||| c.spec_u8() == 5
    ||| c.spec_u8() == 12
    ||| c.spec_u8() == 13
}

/// Build an M_SP_NA_1 ASDU: untagged single points.
pub fn single(
    is_sequence: bool,
    cot: CauseOfTransmission,
    ca: CommonAddr,
    infos: Vec<SinglePointInfo>,
) -> (r: Result<Asdu, Error>)
    requires
        infos@.len() <= 127,
        !is_sequence ==> infos@.len() * 4 <= ASDU_BODY_SIZE_MAX,
        forall|j: int| 0 <= j < infos@.len() ==> (#[trigger] infos@[j]).siq.wf(),
    ensures
        !spec_cause_mon_point(cot.cause) ==> r == Err::<Asdu, Error>(Error::ErrCmdCause(cot)),
        spec_cause_mon_point(cot.cause) ==> match r {
            Ok(a) => {
                &&& a.identifier == spec_mon_identifier(
                    TypeID::M_SP_NA_1,
                    is_sequence,
                    infos@.len() as int,
                    cot,
                    ca,
                )
                &&& a.raw@ == spec_sp_body(TypeID::M_SP_NA_1, is_sequence, infos@)
                &&& a.wf()
            },
            Err(_) => false,
        },
{
    let c = cot.cause.to_u8();
    if !(c == 2 || c == 3 || c == 5 || c == 12 || c == 13 || (20 <= c && c <= 36)) {
        return Err(Error::ErrCmdCause(cot));
    }
    proof {
        assert(infos@.len() * spec_sp_payload_len(TypeID::M_SP_NA_1) == infos@.len());
        assert(infos@.len() * (3 + spec_sp_payload_len(TypeID::M_SP_NA_1)) == infos@.len() * 4);
    }
    Ok(sp_asdu(TypeID::M_SP_NA_1, is_sequence, cot, ca, infos))
}

/// Build an M_SP_TA_1 ASDU: single points with CP24Time2a tags, individual
/// addresses only. Elements without a time get the current time.
pub fn single_cp24time2a(
    cot: CauseOfTransmission,
    ca: CommonAddr,
    infos: Vec<SinglePointInfo>,
) -> (r: Result<Asdu, Error>)
    requires
        infos@.len() <= 34,
        forall|j: int| 0 <= j < infos@.len() ==> (#[trigger] infos@[j]).siq.wf(),
        forall|j: int|
            0 <= j < infos@.len() ==> ((#[trigger] infos@[j]).time matches Some(t) ==> t.wf()),
    ensures
        !spec_cause_mon_point_timed(cot.cause) ==> r == Err::<Asdu, Error>(Error::ErrCmdCause(cot)),
        spec_cause_mon_point_timed(cot.cause) ==> match r {
            Ok(a) => {
                &&& a.identifier == spec_mon_identifier(
                    TypeID::M_SP_TA_1,
                    false,
                    infos@.len() as int,
                    cot,
                    ca,
                )
                &&& a.wf()
                &&& exists|filled: Seq<SinglePointInfo>|
                    #[trigger] spec_sp_filled(TypeID::M_SP_TA_1, infos@, filled) && a.raw@
                        == spec_sp_body(TypeID::M_SP_TA_1, false, filled)
                &&& spec_sp_times_given(TypeID::M_SP_TA_1, infos@) ==> a.raw@ == spec_sp_body(
                    TypeID::M_SP_TA_1,
                    false,
                    infos@,
                )
            },
            Err(_) => false,
        },
{
    let c = cot.cause.to_u8();
    if !(c == 3 || c == 5 || c == 12 || c == 13) {
        return Err(Error::ErrCmdCause(cot));
    }
    proof {
        assert(infos@.len() * (3 + spec_sp_payload_len(TypeID::M_SP_TA_1)) <= 34 * 7)
            by (nonlinear_arith)
            requires infos@.len() <= 34,
        ;
    }
    Ok(sp_asdu(TypeID::M_SP_TA_1, false, cot, ca, infos))
}

/// Build an M_SP_TB_1 ASDU: single points with CP56Time2a tags, individual
/// addresses only. Elements without a time get the current time.
pub fn single_cp56time2a(
    cot: CauseOfTransmission,
    ca: CommonAddr,
    infos: Vec<SinglePointInfo>,
) -> (r: Result<Asdu, Error>)
    requires
        infos@.len() <= 22,
        forall|j: int| 0 <= j < infos@.len() ==> (#[trigger] infos@[j]).siq.wf(),
        forall|j: int|
            0 <= j < infos@.len() ==> ((#[trigger] infos@[j]).time matches Some(t) ==> t.wf()),
    ensures
        !spec_cause_mon_point_timed(cot.cause) ==> r == Err::<Asdu, Error>(Error::ErrCmdCause(cot)),
        spec_cause_mon_point_timed(cot.cause) ==> match r {
            Ok(a) => {
                &&& a.identifier == spec_mon_identifier(
                    TypeID::M_SP_TB_1,
                    false,
                    infos@.len() as int,
                    cot,
                    ca,
                )
                &&& a.wf()
                &&& exists|filled: Seq<SinglePointInfo>|
                    #[trigger] spec_sp_filled(TypeID::M_SP_TB_1, infos@, filled) && a.raw@
                        == spec_sp_body(TypeID::M_SP_TB_1, false, filled)
                &&& spec_sp_times_given(TypeID::M_SP_TB_1, infos@) ==> a.raw@ == spec_sp_body(
                    TypeID::M_SP_TB_1,
                    false,
                    infos@,
                )
            },
            Err(_) => false,
        },
{
    let c = cot.cause.to_u8();
    if !(c == 3 || c == 5 || c == 12 || c == 13) {
        return Err(Error::ErrCmdCause(cot));
    }
    proof {
        assert(infos@.len() * (3 + spec_sp_payload_len(TypeID::M_SP_TB_1)) <= 22 * 11)
            by (nonlinear_arith)
            requires infos@.len() <= 22,
        ;
    }
    Ok(sp_asdu(TypeID::M_SP_TB_1, false, cot, ca, infos))
}

/// In a sequence layout the addresses run up by one from the first element.
pub open spec fn spec_sp_consecutive(sq: bool, infos: Seq<SinglePointInfo>) -> bool {
    sq ==> forall|i: int|
        1 <= i < infos.len() ==> (#[trigger] infos[i]).ioa == spec_next_ioa(infos[i - 1].ioa)
}

/// Round trip: a run of well-formed single-point elements parses back from
/// its own body bytes, exactly, for the untagged type (whose elements carry
/// no time) and the CP56-tagged type (whose tags are lossless).
pub proof fn lemma_single_point_round_trip(tid: TypeID, sq: bool, infos: Seq<SinglePointInfo>)
    requires
        tid == TypeID::M_SP_NA_1 || tid == TypeID::M_SP_TB_1,
        forall|j: int| 0 <= j < infos.len() ==> (#[trigger] infos[j]).siq.wf(),
        tid == TypeID::M_SP_NA_1 ==> forall|j: int|
            0 <= j < infos.len() ==> (#[trigger] infos[j]).time is None,
        tid == TypeID::M_SP_TB_1 ==> forall|j: int|
            0 <= j < infos.len() ==> ((#[trigger] infos[j]).time matches Some(t) && t.wf()),
        spec_sp_consecutive(sq, infos),
    ensures
        spec_sp_parse(tid, sq, infos.len(), spec_sp_body(tid, sq, infos)) == Some(infos),
{
    let body = spec_sp_body(tid, sq, infos);
    assert(body.subrange(0, body.len() as int) =~= body);
    lemma_sp_parse_elems(tid, sq, infos, body, 0, (InfoObjAddr { res: 0, addr: 0 }), true);
}

/// The inductive core of the single-point round trip: elements laid down at
/// `pos` parse back from there.
#[verifier::rlimit(100)]
#[verifier::spinoff_prover]
proof fn lemma_sp_parse_elems(
    tid: TypeID,
    sq: bool,
    infos: Seq<SinglePointInfo>,
    body: Seq<u8>,
    pos: int,
    prev: InfoObjAddr,
    first: bool,
)
    requires
        tid == TypeID::M_SP_NA_1 || tid == TypeID::M_SP_TB_1,
        forall|j: int| 0 <= j < infos.len() ==> (#[trigger] infos[j]).siq.wf(),
        tid == TypeID::M_SP_NA_1 ==> forall|j: int|
            0 <= j < infos.len() ==> (#[trigger] infos[j]).time is None,
        tid == TypeID::M_SP_TB_1 ==> forall|j: int|
            0 <= j < infos.len() ==> ((#[trigger] infos[j]).time matches Some(t) && t.wf()),
        spec_sp_consecutive(sq, infos),
        sq && !first && infos.len() > 0 ==> infos[0].ioa == spec_next_ioa(prev),
        0 <= pos <= body.len(),
        body.len() - pos == spec_sp_elems(tid, sq, infos, first).len(),
        body.subrange(pos, body.len() as int) == spec_sp_elems(tid, sq, infos, first),
    ensures
        spec_sp_parse_rec(tid, sq, body, infos.len(), pos, prev, first) == Some(infos),
    decreases infos.len(),
{
    if infos.len() == 0 {
        assert(Some(Seq::<SinglePointInfo>::empty()) == Some(infos)) by {
            assert(infos =~= Seq::<SinglePointInfo>::empty());
        }
        return;
    }
    let info = infos[0];
    let elems = spec_sp_elems(tid, sq, infos, first);
    let addr_bytes: Seq<u8> = if !sq || first {
        spec_ioa_bytes(info.ioa)
    } else {
        Seq::empty()
    };
    let payload = spec_sp_payload(tid, info);
    let rest = spec_sp_elems(tid, sq, infos.skip(1), false);
    assert(elems == addr_bytes + payload + rest);
    let p1 = pos + addr_bytes.len();
    let p2 = p1 + payload.len();
    assert forall|k: int| 0 <= k < elems.len() implies body[pos + k] == elems[k] by {
        assert(body.subrange(pos, body.len() as int)[k] == body[pos + k]);
    }
    assert forall|k: int| 0 <= k < addr_bytes.len() implies elems[k] == addr_bytes[k] by {
        assert((addr_bytes + payload)[k] == addr_bytes[k]);
    }
    assert forall|k: int| 0 <= k < payload.len() implies elems[addr_bytes.len() + k]
        == payload[k] by {
        assert((addr_bytes + payload)[addr_bytes.len() + k] == payload[k]);
        assert(elems[addr_bytes.len() + k] == (addr_bytes + payload)[addr_bytes.len() + k]);
    }
    assert forall|k: int| 0 <= k < rest.len() implies elems[addr_bytes.len() + payload.len() + k]
        == rest[k] by {}
    lemma_siq_round_trip(info.siq);
    assert(body[p1] == payload[0] && payload[0] == spec_siq_raw(info.siq));
    if !sq || first {
        lemma_ioa_round_trip(info.ioa);
        assert(body[pos] == addr_bytes[0] && body[pos + 1] == addr_bytes[1] && body[pos + 2]
            == addr_bytes[2]);
        assert(spec_ioa_from(body[pos], body[pos + 1], body[pos + 2]) == info.ioa);
    }
    if tid == TypeID::M_SP_TB_1 {
        let t = info.time->Some_0;
        lemma_cp56_round_trip(t);
        assert(payload.len() == 8);
        assert(body.subrange(p1 + 1, p1 + 8) =~= spec_cp56_bytes(t)) by {
            assert forall|k: int| 0 <= k < 7 implies body.subrange(p1 + 1, p1 + 8)[k]
                == spec_cp56_bytes(t)[k] by {
                assert(body[p1 + 1 + k] == elems[p1 + 1 + k - pos]);
                assert(elems[addr_bytes.len() + 1 + k] == payload[1 + k]);
                assert(payload[1 + k] == (seq![spec_siq_raw(info.siq)] + spec_cp56_bytes(t))[1
                    + k]);
                assert(payload[1 + k] == spec_cp56_bytes(t)[k]);
            }
        }
    }
    assert(body.subrange(p2, body.len() as int) =~= rest) by {
        assert forall|k: int| 0 <= k < rest.len() implies body.subrange(p2, body.len() as int)[k]
            == rest[k] by {
            assert(body[p2 + k] == elems[p2 - pos + k]);
        }
    }
    lemma_sp_parse_elems(tid, sq, infos.skip(1), body, p2, info.ioa, false);
    assert(spec_sp_parse_rec(tid, sq, body, infos.len(), pos, prev, first) == spec_prepend(
        seq![info],
        Some(infos.skip(1)),
    ));
    assert(seq![info] + infos.skip(1) =~= infos);
}

/// A one-element run is laid out the same with and without the sequence
/// flag, and parses back the same.
pub proof fn lemma_sp_single_object_sq(tid: TypeID, info: SinglePointInfo, body: Seq<u8>)
    ensures
        spec_sp_body(tid, true, seq![info]) == spec_sp_body(tid, false, seq![info]),
        spec_sp_parse(tid, true, 1, body) == spec_sp_parse(tid, false, 1, body),
{
    reveal_with_fuel(spec_sp_elems, 3);
    reveal_with_fuel(spec_sp_parse_rec, 3);
    reveal_with_fuel(spec_sp_parse_payload, 3);
    assert(seq![info].skip(1) =~= Seq::<SinglePointInfo>::empty());
    assert(spec_sp_body(tid, true, seq![info]) =~= spec_sp_body(tid, false, seq![info]));
    let ioa0 = InfoObjAddr { res: 0, addr: 0 };
    if 3 <= body.len() {
        let ioa = spec_ioa_from(body[0], body[1], body[2]);
        assert(spec_sp_parse(tid, true, 1, body) == spec_sp_parse_payload(
            tid,
            true,
            body,
            1,
            3,
            ioa,
        ));
        assert(spec_sp_parse(tid, false, 1, body) == spec_sp_parse_payload(
            tid,
            false,
            body,
            1,
            3,
            ioa,
        ));
        if 4 <= body.len() {
            assert(spec_sp_parse_payload(tid, true, body, 1, 3, ioa)
                == spec_sp_parse_payload(tid, false, body, 1, 3, ioa));
        }
    }
}

impl Asdu {
    /// Read the single-point objects of an ASDU whose type identification
    /// is one of the single-point types, or report the mismatch.
    #[verifier::rlimit(60)]
    pub fn get_single_point(&self) -> (r: Result<Vec<SinglePointInfo>, Error>)
        ensures
            !spec_sp_family(self.identifier.type_id) ==> r == Err::<Vec<SinglePointInfo>, Error>(
                Error::ErrTypeIDNotMatch(self.identifier.type_id),
            ),
            spec_sp_family(self.identifier.type_id) ==> match r {
                Ok(infos) => match spec_sp_parse(
                    self.identifier.type_id,
                    self.identifier.variable_struct.is_sequence,
                    self.identifier.variable_struct.number as nat,
                    self.raw@,
                ) {
                    Some(s) => spec_sp_agrees(self.identifier.type_id, s, infos@),
                    None => false,
                },
                Err(e) => spec_sp_parse(
                    self.identifier.type_id,
                    self.identifier.variable_struct.is_sequence,
                    self.identifier.variable_struct.number as nat,
                    self.raw@,
                ) is None && e == Error::ErrAsduTooShort,
            },
    {
        let tid = self.identifier.type_id;
        if !(matches!(tid, TypeID::M_SP_NA_1) || matches!(tid, TypeID::M_SP_TA_1) || matches!(
            tid,
            TypeID::M_SP_TB_1,
        )) {
            return Err(Error::ErrTypeIDNotMatch(tid));
        }
        let n: usize = self.identifier.variable_struct.number as usize;
        let sq = self.identifier.variable_struct.is_sequence;
        let len: usize = self.raw.len();
        let mut infos: Vec<SinglePointInfo> = Vec::new();
        let ghost mut sinfos: Seq<SinglePointInfo> = Seq::empty();
        let mut pos: usize = 0;
        let mut ioa = InfoObjAddr { res: 0, addr: 0 };
        let mut i: usize = 0;
        while i < n
            invariant
                spec_sp_family(tid),
                tid == self.identifier.type_id,
                sq == self.identifier.variable_struct.is_sequence,
                n == self.identifier.variable_struct.number,
                len == self.raw@.len(),
                i <= n,
                pos <= len,
                infos@.len() == i,
                sinfos.len() == i,
                spec_sp_agrees(tid, sinfos, infos@),
                spec_sp_parse(tid, sq, n as nat, self.raw@) == spec_prepend(
                    sinfos,
                    spec_sp_parse_rec(
                        tid,
                        sq,
                        self.raw@,
                        (n - i) as nat,
                        pos as int,
                        ioa,
                        i == 0,
                    ),
                ),
            decreases n - i,
        {
            if !sq || i == 0 {
                if len - pos < 3 {
                    return Err(Error::ErrAsduTooShort);
                }
                ioa = InfoObjAddr {
                    res: self.raw[pos + 2],
                    addr: self.raw[pos] as u16 + self.raw[pos + 1] as u16 * 256,
                };
                pos = pos + 3;
            } else {
                ioa = next_ioa(ioa);
            }
            if len - pos < 1 {
                return Err(Error::ErrAsduTooShort);
            }
            let siq = ObjectSIQ::from_raw(self.raw[pos]);
            let mut time: Option<Time2a> = None;
            let ghost mut stime: Option<Time2a> = None;
            let ghost pos_before = pos as int;
            if matches!(tid, TypeID::M_SP_TA_1) && len - (pos + 1) >= 3 {
                time = decode_cp24time2a(&self.raw, pos + 1);
                proof {
                    stime = spec_cp24_placeholder(
                        self.raw@[pos + 1],
                        self.raw@[pos + 2],
                        self.raw@[pos + 3],
                    );
                }
                pos = pos + 4;
            } else if matches!(tid, TypeID::M_SP_TB_1) && len - (pos + 1) >= 7 {
                time = decode_cp56time2a(&self.raw, pos + 1);
                proof {
                    stime = spec_cp56_from(self.raw@.subrange(pos_before + 1, pos_before + 8));
                }
                pos = pos + 8;
            } else {
                pos = pos + 1;
            }
            infos.push(SinglePointInfo { ioa, siq, time });
            proof {
                let selem = SinglePointInfo { ioa, siq, time: stime };
                let rest = spec_sp_parse_rec(
                    tid,
                    sq,
                    self.raw@,
                    (n - i - 1) as nat,
                    pos as int,
                    ioa,
                    false,
                );
                assert(spec_prepend(sinfos, spec_prepend(seq![selem], rest)) == spec_prepend(
                    sinfos.push(selem),
                    rest,
                )) by {
                    if rest is Some {
                        assert(sinfos + (seq![selem] + rest->Some_0) =~= sinfos.push(selem)
                            + rest->Some_0);
                    }
                }
                sinfos = sinfos.push(selem);
            }
            i = i + 1;
        }
        Ok(infos)
    }
}

} // verus!

// Verus sources keep each family of monitor-direction objects together:
// the double-point family below mirrors the single-point family above.
verus! {

/// A double-point information object, optionally time-tagged.
#[derive(Debug, Clone, Copy, PartialEq)]
pub struct DoublePointInfo {
    pub ioa: InfoObjAddr,
    pub diq: ObjectDIQ,
    pub time: Option<Time2a>,
}

impl DoublePointInfo {
    pub fn new(ioa: InfoObjAddr, diq: ObjectDIQ, time: Option<Time2a>) -> (r: DoublePointInfo)
        ensures
            r == (DoublePointInfo { ioa, diq, time }),
    {
        DoublePointInfo { ioa, diq, time }
    }
}

/// The three type identifications that carry double points.
pub open spec fn spec_dp_family(tid: TypeID) -> bool {
    tid == TypeID::M_DP_NA_1 || tid == TypeID::M_DP_TA_1 || tid == TypeID::M_DP_TB_1
}

/// The payload one double-point element writes after its address.
pub open spec fn spec_dp_payload(tid: TypeID, info: DoublePointInfo) -> Seq<u8> {
    seq![spec_diq_raw(info.diq)] + if tid == TypeID::M_DP_TA_1 {
        match info.time {
            Some(t) => spec_cp24_bytes(t),
            None => Seq::empty(),
        }
    } else if tid == TypeID::M_DP_TB_1 {
        match info.time {
            Some(t) => spec_cp56_bytes(t),
            None => Seq::empty(),
        }
    } else {
        Seq::empty()
    }
}

/// The body bytes of a run of double-point elements.
pub open spec fn spec_dp_elems(
    tid: TypeID,
    sq: bool,
    infos: Seq<DoublePointInfo>,
    first: bool,
) -> Seq<u8>
    decreases infos.len(),
{
    if infos.len() == 0 {
        Seq::empty()
    } else {
        (if !sq || first {
            spec_ioa_bytes(infos[0].ioa)
        } else {
            Seq::empty()
        }) + spec_dp_payload(tid, infos[0]) + spec_dp_elems(tid, sq, infos.skip(1), false)
    }
}

/// The whole double-point body.
pub open spec fn spec_dp_body(tid: TypeID, sq: bool, infos: Seq<DoublePointInfo>) -> Seq<u8> {
    spec_dp_elems(tid, sq, infos, true)
}

/// Parse `n` double-point elements from `pos`.
pub open spec fn spec_dp_parse_rec(
    tid: TypeID,
    sq: bool,
    body: Seq<u8>,
    n: nat,
    pos: int,
    prev: InfoObjAddr,
    first: bool,
) -> Option<Seq<DoublePointInfo>>
    decreases n, 1int,
{
    if n == 0 {
        Some(Seq::empty())
    } else if !sq || first {
        if pos + 3 <= body.len() {
            spec_dp_parse_payload(
                tid,
                sq,
                body,
                n,
                pos + 3,
                spec_ioa_from(body[pos], body[pos + 1], body[pos + 2]),
            )
        } else {
            None
        }
    } else {
        spec_dp_parse_payload(tid, sq, body, n, pos, spec_next_ioa(prev))
    }
}

/// Parse one double-point payload at `pos` and the elements after it.
pub open spec fn spec_dp_parse_payload(
    tid: TypeID,
    sq: bool,
    body: Seq<u8>,
    n: nat,
    pos: int,
    ioa: InfoObjAddr,
) -> Option<Seq<DoublePointInfo>>
    decreases n, 0int,
{
    if n == 0 {
        Some(Seq::empty())
    } else if pos + 1 <= body.len() {
        let diq = spec_diq_from(body[pos]);
        let time = if tid == TypeID::M_DP_TA_1 && body.len() - (pos + 1) >= 3 {
            spec_cp24_placeholder(body[pos + 1], body[pos + 2], body[pos + 3])
        } else if tid == TypeID::M_DP_TB_1 && body.len() - (pos + 1) >= 7 {
            spec_cp56_from(body.subrange(pos + 1, pos + 8))
        } else {
            None
        };
        let consumed: int = if tid == TypeID::M_DP_TA_1 && body.len() - (pos + 1) >= 3 {
            4
        } else if tid == TypeID::M_DP_TB_1 && body.len() - (pos + 1) >= 7 {
            8
        } else {
            1
        };
        spec_prepend(
            seq![DoublePointInfo { ioa, diq, time }],
            spec_dp_parse_rec(tid, sq, body, (n - 1) as nat, pos + consumed, ioa, false),
        )
    } else {
        None
    }
}

/// Parse a whole double-point body.
pub open spec fn spec_dp_parse(tid: TypeID, sq: bool, n: nat, body: Seq<u8>) -> Option<
    Seq<DoublePointInfo>,
> {
    spec_dp_parse_rec(tid, sq, body, n, 0, (InfoObjAddr { res: 0, addr: 0 }), true)
}

/// A decoded run agrees with the parse specification, up to the CP24
/// clock-filled calendar fields.
pub open spec fn spec_dp_agrees(
    tid: TypeID,
    s: Seq<DoublePointInfo>,
    r: Seq<DoublePointInfo>,
) -> bool {
    if tid == TypeID::M_DP_TA_1 {
        &&& r.len() == s.len()
        &&& forall|i: int|
            0 <= i < s.len() ==> (#[trigger] r[i]).ioa == s[i].ioa && r[i].diq == s[i].diq
                && spec_time24_agrees(s[i].time, r[i].time)
    } else {
        r == s
    }
}

impl Asdu {
    /// Read the double-point objects of an ASDU whose type identification
    /// is one of the double-point types, or report the mismatch.
    #[verifier::rlimit(60)]
    pub fn get_double_point(&self) -> (r: Result<Vec<DoublePointInfo>, Error>)
        ensures
            !spec_dp_family(self.identifier.type_id) ==> r == Err::<Vec<DoublePointInfo>, Error>(
                Error::ErrTypeIDNotMatch(self.identifier.type_id),
            ),
            spec_dp_family(self.identifier.type_id) ==> match r {
                Ok(infos) => match spec_dp_parse(
                    self.identifier.type_id,
                    self.identifier.variable_struct.is_sequence,
                    self.identifier.variable_struct.number as nat,
                    self.raw@,
                ) {
                    Some(s) => spec_dp_agrees(self.identifier.type_id, s, infos@),
                    None => false,
                },
                Err(e) => spec_dp_parse(
                    self.identifier.type_id,
                    self.identifier.variable_struct.is_sequence,
                    self.identifier.variable_struct.number as nat,
                    self.raw@,
                ) is None && e == Error::ErrAsduTooShort,
            },
    {
        let tid = self.identifier.type_id;
        if !(matches!(tid, TypeID::M_DP_NA_1) || matches!(tid, TypeID::M_DP_TA_1) || matches!(
            tid,
            TypeID::M_DP_TB_1,
        )) {
            return Err(Error::ErrTypeIDNotMatch(tid));
        }
        let n: usize = self.identifier.variable_struct.number as usize;
        let sq = self.identifier.variable_struct.is_sequence;
        let len: usize = self.raw.len();
        let mut infos: Vec<DoublePointInfo> = Vec::new();
        let ghost mut sinfos: Seq<DoublePointInfo> = Seq::empty();
        let mut pos: usize = 0;
        let mut ioa = InfoObjAddr { res: 0, addr: 0 };
        let mut i: usize = 0;
        while i < n
            invariant
                spec_dp_family(tid),
                tid == self.identifier.type_id,
                sq == self.identifier.variable_struct.is_sequence,
                n == self.identifier.variable_struct.number,
                len == self.raw@.len(),
                i <= n,
                pos <= len,
                infos@.len() == i,
                sinfos.len() == i,
                spec_dp_agrees(tid, sinfos, infos@),
                spec_dp_parse(tid, sq, n as nat, self.raw@) == spec_prepend(
                    sinfos,
                    spec_dp_parse_rec(
                        tid,
                        sq,
                        self.raw@,
                        (n - i) as nat,
                        pos as int,
                        ioa,
                        i == 0,
                    ),
                ),
            decreases n - i,
        {
            if !sq || i == 0 {
                if len - pos < 3 {
                    return Err(Error::ErrAsduTooShort);
                }
                ioa = InfoObjAddr {
                    res: self.raw[pos + 2],
                    addr: self.raw[pos] as u16 + self.raw[pos + 1] as u16 * 256,
                };
                pos = pos + 3;
            } else {
                ioa = next_ioa(ioa);
            }
            if len - pos < 1 {
                return Err(Error::ErrAsduTooShort);
            }
            let diq = ObjectDIQ::from_raw(self.raw[pos]);
            let mut time: Option<Time2a> = None;
            let ghost mut stime: Option<Time2a> = None;
            let ghost pos_before = pos as int;
            if matches!(tid, TypeID::M_DP_TA_1) && len - (pos + 1) >= 3 {
                time = decode_cp24time2a(&self.raw, pos + 1);
                proof {
                    stime = spec_cp24_placeholder(
                        self.raw@[pos + 1],
                        self.raw@[pos + 2],
                        self.raw@[pos + 3],
                    );
                }
                pos = pos + 4;
            } else if matches!(tid, TypeID::M_DP_TB_1) && len - (pos + 1) >= 7 {
                time = decode_cp56time2a(&self.raw, pos + 1);
                proof {
                    stime = spec_cp56_from(self.raw@.subrange(pos_before + 1, pos_before + 8));
                }
                pos = pos + 8;
            } else {
                pos = pos + 1;
            }
            infos.push(DoublePointInfo { ioa, diq, time });
            proof {
                let selem = DoublePointInfo { ioa, diq, time: stime };
                let rest = spec_dp_parse_rec(
                    tid,
                    sq,
                    self.raw@,
                    (n - i - 1) as nat,
                    pos as int,
                    ioa,
                    false,
                );
                assert(spec_prepend(sinfos, spec_prepend(seq![selem], rest)) == spec_prepend(
                    sinfos.push(selem),
                    rest,
                )) by {
                    if rest is Some {
                        assert(sinfos + (seq![selem] + rest->Some_0) =~= sinfos.push(selem)
                            + rest->Some_0);
                    }
                }
                sinfos = sinfos.push(selem);
            }
            i = i + 1;
        }
        Ok(infos)
    }
}

/// How many bytes one double-point payload takes.
pub open spec fn spec_dp_payload_len(tid: TypeID) -> int {
    if tid == TypeID::M_DP_TA_1 {
        4
    } else if tid == TypeID::M_DP_TB_1 {
        8
    } else {
        1
    }
}

/// Every element's time is present where the type identification carries one.
pub open spec fn spec_dp_times_given(tid: TypeID, infos: Seq<DoublePointInfo>) -> bool {
    tid != TypeID::M_DP_NA_1 ==> forall|j: int|
        0 <= j < infos.len() ==> (#[trigger] infos[j]).time is Some
}

/// The body length of a run of double-point elements whose times are present.
pub proof fn lemma_dp_elems_len(tid: TypeID, sq: bool, infos: Seq<DoublePointInfo>, first: bool)
    requires
        spec_dp_times_given(tid, infos),
    ensures
        spec_dp_elems(tid, sq, infos, first).len() == if !sq {
            infos.len() * (3 + spec_dp_payload_len(tid))
        } else {
            (if first && infos.len() > 0 {
                3int
            } else {
                0int
            }) + infos.len() * spec_dp_payload_len(tid)
        },
    decreases infos.len(),
{
    if infos.len() > 0 {
        lemma_dp_elems_len(tid, sq, infos.skip(1), false);
        let n = infos.len() as int;
        let l = spec_dp_payload_len(tid);
        assert((n - 1) * (3 + l) + (3 + l) == n * (3 + l)) by (nonlinear_arith);
        assert((n - 1) * l + l == n * l) by (nonlinear_arith);
    } else {
        assert(infos.len() * (3 + spec_dp_payload_len(tid)) == 0) by (nonlinear_arith)
            requires infos.len() == 0,
        ;
        assert(infos.len() * spec_dp_payload_len(tid) == 0) by (nonlinear_arith)
            requires infos.len() == 0,
        ;
    }
}

/// `filled` is `orig` with every missing time written in.
pub open spec fn spec_dp_filled(
    tid: TypeID,
    orig: Seq<DoublePointInfo>,
    filled: Seq<DoublePointInfo>,
) -> bool {
    &&& filled.len() == orig.len()
    &&& forall|j: int|
        0 <= j < orig.len() ==> {
            &&& (#[trigger] filled[j]).ioa == orig[j].ioa
            &&& filled[j].diq == orig[j].diq
            &&& (tid == TypeID::M_DP_NA_1 ==> filled[j].time == orig[j].time)
            &&& (tid != TypeID::M_DP_NA_1 ==> match orig[j].time {
                Some(t) => filled[j].time == Some(t),
                None => filled[j].time matches Some(t2) && t2.wf(),
            })
        }
}

/// Write the current time into every element that lacks one.
fn fill_times_dp(tid: TypeID, infos: Vec<DoublePointInfo>) -> (r: Vec<DoublePointInfo>)
    ensures
        spec_dp_filled(tid, infos@, r@),
        spec_dp_times_given(tid, r@),
{
    if matches!(tid, TypeID::M_DP_NA_1) {
        return infos;
    }
    let mut r: Vec<DoublePointInfo> = Vec::new();
    let mut i: usize = 0;
    while i < infos.len()
        invariant
            i <= infos@.len(),
            r@.len() == i,
            tid != TypeID::M_DP_NA_1,
            forall|j: int|
                0 <= j < i ==> {
                    &&& (#[trigger] r@[j]).ioa == infos@[j].ioa
                    &&& r@[j].diq == infos@[j].diq
                    &&& (match infos@[j].time {
                        Some(t) => r@[j].time == Some(t),
                        None => r@[j].time matches Some(t2) && t2.wf(),
                    })
                },
        decreases infos@.len() - i,
    {
        let info = infos[i];
        match info.time {
            Some(_) => r.push(info),
            None => {
                let now = current_time2a();
                r.push(DoublePointInfo { ioa: info.ioa, diq: info.diq, time: Some(now) });
            },
        }
        i = i + 1;
    }
    r
}

/// Serialize a run of double-point elements.
fn encode_dp_body(tid: TypeID, sq: bool, infos: &Vec<DoublePointInfo>) -> (r: Vec<u8>)
    requires
        spec_dp_family(tid),
        spec_dp_times_given(tid, infos@),
        forall|j: int| 0 <= j < infos@.len() ==> (#[trigger] infos@[j]).diq.wf(),
        tid != TypeID::M_DP_NA_1 ==> forall|j: int|
            0 <= j < infos@.len() ==> ((#[trigger] infos@[j]).time matches Some(t) ==> t.wf()),
    ensures
        r@ == spec_dp_body(tid, sq, infos@),
{
    let mut buf: Vec<u8> = Vec::new();
    proof {
        assert(infos@.skip(0) =~= infos@);
        assert(buf@ + spec_dp_elems(tid, sq, infos@, true) =~= spec_dp_elems(tid, sq, infos@, true));
    }
    let mut i: usize = 0;
    while i < infos.len()
        invariant
            i <= infos@.len(),
            spec_dp_family(tid),
            spec_dp_times_given(tid, infos@),
            forall|j: int| 0 <= j < infos@.len() ==> (#[trigger] infos@[j]).diq.wf(),
            tid != TypeID::M_DP_NA_1 ==> forall|j: int|
                0 <= j < infos@.len() ==> ((#[trigger] infos@[j]).time matches Some(t) ==> t.wf()),
            spec_dp_body(tid, sq, infos@) == buf@ + spec_dp_elems(
                tid,
                sq,
                infos@.skip(i as int),
                i == 0,
            ),
        decreases infos@.len() - i,
    {
        let info = infos[i];
        let ghost before = buf@;
        if !sq || i == 0 {
            buf.push((info.ioa.addr % 256) as u8);
            buf.push((info.ioa.addr / 256) as u8);
            buf.push(info.ioa.res);
        }
        buf.push(info.diq.raw());
        if matches!(tid, TypeID::M_DP_TA_1) {
            match info.time {
                Some(t) => {
                    let tb = cp24time2a(t);
                    crate::csys::append_bytes(&mut buf, &tb);
                },
                None => {},
            }
        } else if matches!(tid, TypeID::M_DP_TB_1) {
            match info.time {
                Some(t) => {
                    let tb = cp56time2a(t);
                    crate::csys::append_bytes(&mut buf, &tb);
                },
                None => {},
            }
        }
        proof {
            assert(infos@.skip(i as int)[0] == info);
            assert(buf@ =~= before + ((if !sq || i == 0 {
                spec_ioa_bytes(info.ioa)
            } else {
                Seq::<u8>::empty()
            }) + spec_dp_payload(tid, info)));
            assert(infos@.skip(i as int).skip(1) =~= infos@.skip(i + 1));
            assert(spec_dp_body(tid, sq, infos@) == buf@ + spec_dp_elems(
                tid,
                sq,
                infos@.skip(i + 1),
                false,
            ));
        }
        i = i + 1;
    }
    proof {
        assert(infos@.skip(infos@.len() as int) =~= Seq::<DoublePointInfo>::empty());
        assert(buf@ =~= spec_dp_body(tid, sq, infos@));
    }
    buf
}

/// Build a double-point ASDU of the given type.
fn dp_asdu(
    tid: TypeID,
    sq: bool,
    cot: CauseOfTransmission,
    ca: CommonAddr,
    infos: Vec<DoublePointInfo>,
) -> (r: Asdu)
    requires
        spec_dp_family(tid),
        infos@.len() <= 127,
        !sq ==> infos@.len() * (3 + spec_dp_payload_len(tid)) <= ASDU_BODY_SIZE_MAX,
        sq ==> 3 + infos@.len() * spec_dp_payload_len(tid) <= ASDU_BODY_SIZE_MAX,
        forall|j: int| 0 <= j < infos@.len() ==> (#[trigger] infos@[j]).diq.wf(),
        tid != TypeID::M_DP_NA_1 ==> forall|j: int|
            0 <= j < infos@.len() ==> ((#[trigger] infos@[j]).time matches Some(t) ==> t.wf()),
    ensures
        r.identifier == spec_mon_identifier(tid, sq, infos@.len() as int, cot, ca),
        r.wf(),
        exists|filled: Seq<DoublePointInfo>|
            #[trigger] spec_dp_filled(tid, infos@, filled) && r.raw@ == spec_dp_body(
                tid,
                sq,
                filled,
            ),
        spec_dp_times_given(tid, infos@) ==> r.raw@ == spec_dp_body(tid, sq, infos@),
{
    let n = infos.len();
    let ghost orig = infos@;
    let filled = fill_times_dp(tid, infos);
    let buf = encode_dp_body(tid, sq, &filled);
    proof {
        lemma_dp_elems_len(tid, sq, filled@, true);
        assert(spec_dp_filled(tid, orig, filled@) && buf@ == spec_dp_body(tid, sq, filled@));
        if spec_dp_times_given(tid, orig) {
            assert forall|j: int| 0 <= j < orig.len() implies filled@[j] == orig[j] by {}
            assert(filled@ =~= orig);
        }
    }
    Asdu {
        identifier: Identifier {
            type_id: tid,
            variable_struct: VariableStruct::new(sq, n as u8),
            cot,
            orig_addr: 0,
            common_addr: ca,
        },
        raw: buf,
    }
}

/// Build an M_DP_NA_1 ASDU: untagged double points.
pub fn double(
    is_sequence: bool,
    cot: CauseOfTransmission,
    ca: CommonAddr,
    infos: Vec<DoublePointInfo>,
) -> (r: Result<Asdu, Error>)
    requires
        infos@.len() <= 127,
        !is_sequence ==> infos@.len() * 4 <= ASDU_BODY_SIZE_MAX,
        forall|j: int| 0 <= j < infos@.len() ==> (#[trigger] infos@[j]).diq.wf(),
    ensures
        !spec_cause_mon_point(cot.cause) ==> r == Err::<Asdu, Error>(Error::ErrCmdCause(cot)),
        spec_cause_mon_point(cot.cause) ==> match r {
            Ok(a) => {
                &&& a.identifier == spec_mon_identifier(
                    TypeID::M_DP_NA_1,
                    is_sequence,
                    infos@.len() as int,
                    cot,
                    ca,
                )
                &&& a.raw@ == spec_dp_body(TypeID::M_DP_NA_1, is_sequence, infos@)
                &&& a.wf()
            },
            Err(_) => false,
        },
{
    let c = cot.cause.to_u8();
    if !(c == 2 || c == 3 || c == 5 || c == 12 || c == 13 || (20 <= c && c <= 36)) {
        return Err(Error::ErrCmdCause(cot));
    }
    proof {
        assert(infos@.len() * spec_dp_payload_len(TypeID::M_DP_NA_1) == infos@.len());
        assert(infos@.len() * (3 + spec_dp_payload_len(TypeID::M_DP_NA_1)) == infos@.len() * 4);
    }
    Ok(dp_asdu(TypeID::M_DP_NA_1, is_sequence, cot, ca, infos))
}

/// Build an M_DP_TA_1 ASDU: double points with CP24Time2a tags. Elements
/// without a time get the current time.
pub fn double_cp24time2a(
    is_sequence: bool,
    cot: CauseOfTransmission,
    ca: CommonAddr,
    infos: Vec<DoublePointInfo>,
) -> (r: Result<Asdu, Error>)
    requires
        infos@.len() <= 34,
        forall|j: int| 0 <= j < infos@.len() ==> (#[trigger] infos@[j]).diq.wf(),
        forall|j: int|
            0 <= j < infos@.len() ==> ((#[trigger] infos@[j]).time matches Some(t) ==> t.wf()),
    ensures
        !spec_cause_mon_point_timed(cot.cause) ==> r == Err::<Asdu, Error>(Error::ErrCmdCause(cot)),
        spec_cause_mon_point_timed(cot.cause) ==> match r {
            Ok(a) => {
                &&& a.identifier == spec_mon_identifier(
                    TypeID::M_DP_TA_1,
                    is_sequence,
                    infos@.len() as int,
                    cot,
                    ca,
                )
                &&& a.wf()
                &&& exists|filled: Seq<DoublePointInfo>|
                    #[trigger] spec_dp_filled(TypeID::M_DP_TA_1, infos@, filled) && a.raw@
                        == spec_dp_body(TypeID::M_DP_TA_1, is_sequence, filled)
                &&& spec_dp_times_given(TypeID::M_DP_TA_1, infos@) ==> a.raw@ == spec_dp_body(
                    TypeID::M_DP_TA_1,
                    is_sequence,
                    infos@,
                )
            },
            Err(_) => false,
        },
{
    let c = cot.cause.to_u8();
    if !(c == 3 || c == 5 || c == 12 || c == 13) {
        return Err(Error::ErrCmdCause(cot));
    }
    proof {
        assert(infos@.len() * (3 + spec_dp_payload_len(TypeID::M_DP_TA_1)) <= 34 * 7)
            by (nonlinear_arith)
            requires infos@.len() <= 34,
        ;
        assert(infos@.len() * spec_dp_payload_len(TypeID::M_DP_TA_1) <= 34 * 4)
            by (nonlinear_arith)
            requires infos@.len() <= 34,
        ;
    }
    Ok(dp_asdu(TypeID::M_DP_TA_1, is_sequence, cot, ca, infos))
}

/// Build an M_DP_TB_1 ASDU: double points with CP56Time2a tags. Elements
/// without a time get the current time.
pub fn double_cp56time2a(
    is_sequence: bool,
    cot: CauseOfTransmission,
    ca: CommonAddr,
    infos: Vec<DoublePointInfo>,
) -> (r: Result<Asdu, Error>)
    requires
        infos@.len() <= 21,
        forall|j: int| 0 <= j < infos@.len() ==> (#[trigger] infos@[j]).diq.wf(),
        forall|j: int|
            0 <= j < infos@.len() ==> ((#[trigger] infos@[j]).time matches Some(t) ==> t.wf()),
    ensures
        !spec_cause_mon_point_timed(cot.cause) ==> r == Err::<Asdu, Error>(Error::ErrCmdCause(cot)),
        spec_cause_mon_point_timed(cot.cause) ==> match r {
            Ok(a) => {
                &&& a.identifier == spec_mon_identifier(
                    TypeID::M_DP_TB_1,
                    is_sequence,
                    infos@.len() as int,
                    cot,
                    ca,
                )
                &&& a.wf()
                &&& exists|filled: Seq<DoublePointInfo>|
                    #[trigger] spec_dp_filled(TypeID::M_DP_TB_1, infos@, filled) && a.raw@
                        == spec_dp_body(TypeID::M_DP_TB_1, is_sequence, filled)
                &&& spec_dp_times_given(TypeID::M_DP_TB_1, infos@) ==> a.raw@ == spec_dp_body(
                    TypeID::M_DP_TB_1,
                    is_sequence,
                    infos@,
                )
            },
            Err(_) => false,
        },
{
    let c = cot.cause.to_u8();
    if !(c == 3 || c == 5 || c == 12 || c == 13) {
        return Err(Error::ErrCmdCause(cot));
    }
    proof {
        assert(infos@.len() * (3 + spec_dp_payload_len(TypeID::M_DP_TB_1)) <= 21 * 11)
            by (nonlinear_arith)
            requires infos@.len() <= 21,
        ;
        assert(infos@.len() * spec_dp_payload_len(TypeID::M_DP_TB_1) <= 21 * 8)
            by (nonlinear_arith)
            requires infos@.len() <= 21,
        ;
    }
    Ok(dp_asdu(TypeID::M_DP_TB_1, is_sequence, cot, ca, infos))
}

/// In a sequence layout the addresses run up by one from the first element.
pub open spec fn spec_dp_consecutive(sq: bool, infos: Seq<DoublePointInfo>) -> bool {
    sq ==> forall|i: int|
        1 <= i < infos.len() ==> (#[trigger] infos[i]).ioa == spec_next_ioa(infos[i - 1].ioa)
}

/// Round trip: a run of well-formed double-point elements parses back from
/// its own body bytes, for the untagged and the CP56-tagged types.
pub proof fn lemma_double_point_round_trip(tid: TypeID, sq: bool, infos: Seq<DoublePointInfo>)
    requires
        tid == TypeID::M_DP_NA_1 || tid == TypeID::M_DP_TB_1,
        forall|j: int| 0 <= j < infos.len() ==> (#[trigger] infos[j]).diq.wf(),
        tid == TypeID::M_DP_NA_1 ==> forall|j: int|
            0 <= j < infos.len() ==> (#[trigger] infos[j]).time is None,
        tid == TypeID::M_DP_TB_1 ==> forall|j: int|
            0 <= j < infos.len() ==> ((#[trigger] infos[j]).time matches Some(t) && t.wf()),
        spec_dp_consecutive(sq, infos),
    ensures
        spec_dp_parse(tid, sq, infos.len(), spec_dp_body(tid, sq, infos)) == Some(infos),
{
    let body = spec_dp_body(tid, sq, infos);
    assert(body.subrange(0, body.len() as int) =~= body);
    lemma_dp_parse_elems(tid, sq, infos, body, 0, (InfoObjAddr { res: 0, addr: 0 }), true);
}

/// The inductive core of the double-point round trip.
#[verifier::rlimit(100)]
#[verifier::spinoff_prover]
proof fn lemma_dp_parse_elems(
    tid: TypeID,
    sq: bool,
    infos: Seq<DoublePointInfo>,
    body: Seq<u8>,
    pos: int,
    prev: InfoObjAddr,
    first: bool,
)
    requires
        tid == TypeID::M_DP_NA_1 || tid == TypeID::M_DP_TB_1,
        forall|j: int| 0 <= j < infos.len() ==> (#[trigger] infos[j]).diq.wf(),
        tid == TypeID::M_DP_NA_1 ==> forall|j: int|
            0 <= j < infos.len() ==> (#[trigger] infos[j]).time is None,
        tid == TypeID::M_DP_TB_1 ==> forall|j: int|
            0 <= j < infos.len() ==> ((#[trigger] infos[j]).time matches Some(t) && t.wf()),
        spec_dp_consecutive(sq, infos),
        sq && !first && infos.len() > 0 ==> infos[0].ioa == spec_next_ioa(prev),
        0 <= pos <= body.len(),
        body.len() - pos == spec_dp_elems(tid, sq, infos, first).len(),
        body.subrange(pos, body.len() as int) == spec_dp_elems(tid, sq, infos, first),
    ensures
        spec_dp_parse_rec(tid, sq, body, infos.len(), pos, prev, first) == Some(infos),
    decreases infos.len(),
{
    if infos.len() == 0 {
        assert(Some(Seq::<DoublePointInfo>::empty()) == Some(infos)) by {
            assert(infos =~= Seq::<DoublePointInfo>::empty());
        }
        return;
    }
    let info = infos[0];
    let elems = spec_dp_elems(tid, sq, infos, first);
    let addr_bytes: Seq<u8> = if !sq || first {
        spec_ioa_bytes(info.ioa)
    } else {
        Seq::empty()
    };
    let payload = spec_dp_payload(tid, info);
    let rest = spec_dp_elems(tid, sq, infos.skip(1), false);
    assert(elems == addr_bytes + payload + rest);
    let p1 = pos + addr_bytes.len();
    let p2 = p1 + payload.len();
    assert forall|k: int| 0 <= k < elems.len() implies body[pos + k] == elems[k] by {
        assert(body.subrange(pos, body.len() as int)[k] == body[pos + k]);
    }
    assert forall|k: int| 0 <= k < addr_bytes.len() implies elems[k] == addr_bytes[k] by {
        assert((addr_bytes + payload)[k] == addr_bytes[k]);
    }
    assert forall|k: int| 0 <= k < payload.len() implies elems[addr_bytes.len() + k]
        == payload[k] by {
        assert((addr_bytes + payload)[addr_bytes.len() + k] == payload[k]);
        assert(elems[addr_bytes.len() + k] == (addr_bytes + payload)[addr_bytes.len() + k]);
    }
    assert forall|k: int| 0 <= k < rest.len() implies elems[addr_bytes.len() + payload.len() + k]
        == rest[k] by {}
    lemma_diq_round_trip(info.diq);
    assert(body[p1] == payload[0] && payload[0] == spec_diq_raw(info.diq));
    if !sq || first {
        lemma_ioa_round_trip(info.ioa);
        assert(body[pos] == addr_bytes[0] && body[pos + 1] == addr_bytes[1] && body[pos + 2]
            == addr_bytes[2]);
        assert(spec_ioa_from(body[pos], body[pos + 1], body[pos + 2]) == info.ioa);
    }
    if tid == TypeID::M_DP_TB_1 {
        let t = info.time->Some_0;
        lemma_cp56_round_trip(t);
        assert(payload.len() == 8);
        assert(body.subrange(p1 + 1, p1 + 8) =~= spec_cp56_bytes(t)) by {
            assert forall|k: int| 0 <= k < 7 implies body.subrange(p1 + 1, p1 + 8)[k]
                == spec_cp56_bytes(t)[k] by {
                assert(body[p1 + 1 + k] == elems[p1 + 1 + k - pos]);
                assert(elems[addr_bytes.len() + 1 + k] == payload[1 + k]);
                assert(payload[1 + k] == (seq![spec_diq_raw(info.diq)] + spec_cp56_bytes(t))[1
                    + k]);
                assert(payload[1 + k] == spec_cp56_bytes(t)[k]);
            }
        }
    }
    assert(body.subrange(p2, body.len() as int) =~= rest) by {
        assert forall|k: int| 0 <= k < rest.len() implies body.subrange(p2, body.len() as int)[k]
            == rest[k] by {
            assert(body[p2 + k] == elems[p2 - pos + k]);
        }
    }
    lemma_dp_parse_elems(tid, sq, infos.skip(1), body, p2, info.ioa, false);
    assert(spec_dp_parse_rec(tid, sq, body, infos.len(), pos, prev, first) == spec_prepend(
        seq![info],
        Some(infos.skip(1)),
    ));
    assert(seq![info] + infos.skip(1) =~= infos);
}

} // verus!

// The measured-value families: normalized values (with an optional quality
// descriptor and a no-quality variant), scaled values, and short-float bit
// patterns, each with its time-tag variants.
verus! {

/// A normalized measured value, its optional quality descriptor and time.
/// The value is a signed 16-bit fraction of full scale.
#[derive(Debug, Clone, Copy, PartialEq)]
pub struct MeasuredValueNormalInfo {
    pub ioa: InfoObjAddr,
    pub nva: i16,
    /// The quality descriptor; absent in the no-quality type, and written
    /// as all-good where absent in the others.
    pub qds: Option<ObjectQDS>,
    pub time: Option<Time2a>,
}

impl MeasuredValueNormalInfo {
    pub fn new(ioa: InfoObjAddr, nva: i16, qds: Option<ObjectQDS>, time: Option<Time2a>) -> (r:
        MeasuredValueNormalInfo)
        ensures
            r == (MeasuredValueNormalInfo { ioa, nva, qds, time }),
    {
        MeasuredValueNormalInfo { ioa, nva, qds, time }
    }
}

/// The four type identifications that carry normalized measured values.
pub open spec fn spec_mvn_family(tid: TypeID) -> bool {
    tid == TypeID::M_ME_NA_1 || tid == TypeID::M_ME_TA_1 || tid == TypeID::M_ME_TD_1 || tid
        == TypeID::M_ME_ND_1
}

/// The quality octet written for an optional descriptor: the descriptor's
/// own octet, or all-good where none was given.
pub open spec fn spec_qds_byte(q: Option<ObjectQDS>) -> u8 {
    match q {
        Some(x) => spec_qds_raw(x),
        None => 0,
    }
}

/// The payload one normalized-value element writes after its address.
pub open spec fn spec_mvn_payload(tid: TypeID, info: MeasuredValueNormalInfo) -> Seq<u8> {
    spec_i16_le(info.nva) + (if tid == TypeID::M_ME_ND_1 {
        Seq::empty()
    } else {
        seq![spec_qds_byte(info.qds)]
    }) + (if tid == TypeID::M_ME_TA_1 {
        match info.time {
            Some(t) => spec_cp24_bytes(t),
            None => Seq::empty(),
        }
    } else if tid == TypeID::M_ME_TD_1 {
        match info.time {
            Some(t) => spec_cp56_bytes(t),
            None => Seq::empty(),
        }
    } else {
        Seq::empty()
    })
}

/// The body bytes of a run of normalized-value elements.
pub open spec fn spec_mvn_elems(
    tid: TypeID,
    sq: bool,
    infos: Seq<MeasuredValueNormalInfo>,
    first: bool,
) -> Seq<u8>
    decreases infos.len(),
{
    if infos.len() == 0 {
        Seq::empty()
    } else {
        (if !sq || first {
            spec_ioa_bytes(infos[0].ioa)
        } else {
            Seq::empty()
        }) + spec_mvn_payload(tid, infos[0]) + spec_mvn_elems(tid, sq, infos.skip(1), false)
    }
}

/// The whole normalized-value body.
pub open spec fn spec_mvn_body(tid: TypeID, sq: bool, infos: Seq<MeasuredValueNormalInfo>) -> Seq<
    u8,
> {
    spec_mvn_elems(tid, sq, infos, true)
}

/// Parse `n` normalized-value elements from `pos`.
pub open spec fn spec_mvn_parse_rec(
    tid: TypeID,
    sq: bool,
    body: Seq<u8>,
    n: nat,
    pos: int,
    prev: InfoObjAddr,
    first: bool,
) -> Option<Seq<MeasuredValueNormalInfo>>
    decreases n, 1int,
{
    if n == 0 {
        Some(Seq::empty())
    } else if !sq || first {
        if pos + 3 <= body.len() {
            spec_mvn_parse_payload(
                tid,
                sq,
                body,
                n,
                pos + 3,
                spec_ioa_from(body[pos], body[pos + 1], body[pos + 2]),
            )
        } else {
            None
        }
    } else {
        spec_mvn_parse_payload(tid, sq, body, n, pos, spec_next_ioa(prev))
    }
}

/// Parse one normalized-value payload at `pos` and the elements after it:
/// the value, the quality octet (save the no-quality type), and the time
/// tag, left out when the bytes run out.
pub open spec fn spec_mvn_parse_payload(
    tid: TypeID,
    sq: bool,
    body: Seq<u8>,
    n: nat,
    pos: int,
    ioa: InfoObjAddr,
) -> Option<Seq<MeasuredValueNormalInfo>>
    decreases n, 0int,
{
    if n == 0 {
        Some(Seq::empty())
    } else if tid == TypeID::M_ME_ND_1 {
        if pos + 2 <= body.len() {
            spec_prepend(
                seq![
                    MeasuredValueNormalInfo {
                        ioa,
                        nva: spec_i16_from(body[pos], body[pos + 1]),
                        qds: None,
                        time: None,
                    },
                ],
                spec_mvn_parse_rec(tid, sq, body, (n - 1) as nat, pos + 2, ioa, false),
            )
        } else {
            None
        }
    } else if pos + 3 <= body.len() {
        let nva = spec_i16_from(body[pos], body[pos + 1]);
        let qds = Some(spec_qds_from(body[pos + 2]));
        let time = if tid == TypeID::M_ME_TA_1 && body.len() - (pos + 3) >= 3 {
            spec_cp24_placeholder(body[pos + 3], body[pos + 4], body[pos + 5])
        } else if tid == TypeID::M_ME_TD_1 && body.len() - (pos + 3) >= 7 {
            spec_cp56_from(body.subrange(pos + 3, pos + 10))
        } else {
            None
        };
        let consumed: int = if tid == TypeID::M_ME_TA_1 && body.len() - (pos + 3) >= 3 {
            6
        } else if tid == TypeID::M_ME_TD_1 && body.len() - (pos + 3) >= 7 {
            10
        } else {
            3
        };
        spec_prepend(
            seq![MeasuredValueNormalInfo { ioa, nva, qds, time }],
            spec_mvn_parse_rec(tid, sq, body, (n - 1) as nat, pos + consumed, ioa, false),
        )
    } else {
        None
    }
}

/// Parse a whole normalized-value body.
pub open spec fn spec_mvn_parse(tid: TypeID, sq: bool, n: nat, body: Seq<u8>) -> Option<
    Seq<MeasuredValueNormalInfo>,
> {
    spec_mvn_parse_rec(tid, sq, body, n, 0, (InfoObjAddr { res: 0, addr: 0 }), true)
}

/// A decoded run agrees with the parse specification, up to the CP24
/// clock-filled calendar fields.
pub open spec fn spec_mvn_agrees(
    tid: TypeID,
    s: Seq<MeasuredValueNormalInfo>,
    r: Seq<MeasuredValueNormalInfo>,
) -> bool {
    if tid == TypeID::M_ME_TA_1 {
        &&& r.len() == s.len()
        &&& forall|i: int|
            0 <= i < s.len() ==> (#[trigger] r[i]).ioa == s[i].ioa && r[i].nva == s[i].nva
                && r[i].qds == s[i].qds && spec_time24_agrees(s[i].time, r[i].time)
    } else {
        r == s
    }
}

impl Asdu {
    /// Read the normalized measured values of an ASDU whose type
    /// identification is one of the normalized-value types, or report the
    /// mismatch.
    #[verifier::rlimit(100)]
    #[verifier::spinoff_prover]
    pub fn get_measured_value_normal(&self) -> (r: Result<Vec<MeasuredValueNormalInfo>, Error>)
        ensures
            !spec_mvn_family(self.identifier.type_id) ==> r == Err::<
                Vec<MeasuredValueNormalInfo>,
                Error,
            >(Error::ErrTypeIDNotMatch(self.identifier.type_id)),
            spec_mvn_family(self.identifier.type_id) ==> match r {
                Ok(infos) => match spec_mvn_parse(
                    self.identifier.type_id,
                    self.identifier.variable_struct.is_sequence,
                    self.identifier.variable_struct.number as nat,
                    self.raw@,
                ) {
                    Some(s) => spec_mvn_agrees(self.identifier.type_id, s, infos@),
                    None => false,
                },
                Err(e) => spec_mvn_parse(
                    self.identifier.type_id,
                    self.identifier.variable_struct.is_sequence,
                    self.identifier.variable_struct.number as nat,
                    self.raw@,
                ) is None && e == Error::ErrAsduTooShort,
            },
    {
        let tid = self.identifier.type_id;
        if !(matches!(tid, TypeID::M_ME_NA_1) || matches!(tid, TypeID::M_ME_TA_1) || matches!(
            tid,
            TypeID::M_ME_TD_1,
        ) || matches!(tid, TypeID::M_ME_ND_1)) {
            return Err(Error::ErrTypeIDNotMatch(tid));
        }
        let n: usize = self.identifier.variable_struct.number as usize;
        let sq = self.identifier.variable_struct.is_sequence;
        let len: usize = self.raw.len();
        let mut infos: Vec<MeasuredValueNormalInfo> = Vec::new();
        let ghost mut sinfos: Seq<MeasuredValueNormalInfo> = Seq::empty();
        let mut pos: usize = 0;
        let mut ioa = InfoObjAddr { res: 0, addr: 0 };
        let mut i: usize = 0;
        while i < n
            invariant
                spec_mvn_family(tid),
                tid == self.identifier.type_id,
                sq == self.identifier.variable_struct.is_sequence,
                n == self.identifier.variable_struct.number,
                len == self.raw@.len(),
                i <= n,
                pos <= len,
                infos@.len() == i,
                sinfos.len() == i,
                spec_mvn_agrees(tid, sinfos, infos@),
                spec_mvn_parse(tid, sq, n as nat, self.raw@) == spec_prepend(
                    sinfos,
                    spec_mvn_parse_rec(
                        tid,
                        sq,
                        self.raw@,
                        (n - i) as nat,
                        pos as int,
                        ioa,
                        i == 0,
                    ),
                ),
            decreases n - i,
        {
            if !sq || i == 0 {
                if len - pos < 3 {
                    return Err(Error::ErrAsduTooShort);
                }
                ioa = InfoObjAddr {
                    res: self.raw[pos + 2],
                    addr: self.raw[pos] as u16 + self.raw[pos + 1] as u16 * 256,
                };
                pos = pos + 3;
            } else {
                ioa = next_ioa(ioa);
            }
            if matches!(tid, TypeID::M_ME_ND_1) {
                if len - pos < 2 {
                    return Err(Error::ErrAsduTooShort);
                }
                let nva = read_i16_le(&self.raw, pos);
                pos = pos + 2;
                infos.push(MeasuredValueNormalInfo { ioa, nva, qds: None, time: None });
                proof {
                    let selem = MeasuredValueNormalInfo {
                        ioa,
                        nva,
                        qds: None,
                        time: None,
                    };
                    let rest = spec_mvn_parse_rec(
                        tid,
                        sq,
                        self.raw@,
                        (n - i - 1) as nat,
                        pos as int,
                        ioa,
                        false,
                    );
                    assert(spec_prepend(sinfos, spec_prepend(seq![selem], rest)) == spec_prepend(
                        sinfos.push(selem),
                        rest,
                    )) by {
                        if rest is Some {
                            assert(sinfos + (seq![selem] + rest->Some_0) =~= sinfos.push(selem)
                                + rest->Some_0);
                        }
                    }
                    sinfos = sinfos.push(selem);
                }
            } else {
                if len - pos < 3 {
                    return Err(Error::ErrAsduTooShort);
                }
                let nva = read_i16_le(&self.raw, pos);
                let qds = Some(ObjectQDS::from_raw(self.raw[pos + 2]));
                let mut time: Option<Time2a> = None;
                let ghost mut stime: Option<Time2a> = None;
                let ghost pos_before = pos as int;
                if matches!(tid, TypeID::M_ME_TA_1) && len - (pos + 3) >= 3 {
                    time = decode_cp24time2a(&self.raw, pos + 3);
                    proof {
                        stime = spec_cp24_placeholder(
                            self.raw@[pos + 3],
                            self.raw@[pos + 4],
                            self.raw@[pos + 5],
                        );
                    }
                    pos = pos + 6;
                } else if matches!(tid, TypeID::M_ME_TD_1) && len - (pos + 3) >= 7 {
                    time = decode_cp56time2a(&self.raw, pos + 3);
                    proof {
                        stime = spec_cp56_from(self.raw@.subrange(pos_before + 3, pos_before + 10));
                    }
                    pos = pos + 10;
                } else {
                    pos = pos + 3;
                }
                infos.push(MeasuredValueNormalInfo { ioa, nva, qds, time });
                proof {
                    let selem = MeasuredValueNormalInfo { ioa, nva, qds, time: stime };
                    let rest = spec_mvn_parse_rec(
                        tid,
                        sq,
                        self.raw@,
                        (n - i - 1) as nat,
                        pos as int,
                        ioa,
                        false,
                    );
                    assert(spec_prepend(sinfos, spec_prepend(seq![selem], rest)) == spec_prepend(
                        sinfos.push(selem),
                        rest,
                    )) by {
                        if rest is Some {
                            assert(sinfos + (seq![selem] + rest->Some_0) =~= sinfos.push(selem)
                                + rest->Some_0);
                        }
                    }
                    sinfos = sinfos.push(selem);
                }
            }
            i = i + 1;
        }
        Ok(infos)
    }
}

/// How many bytes one normalized-value payload takes.
pub open spec fn spec_mvn_payload_len(tid: TypeID) -> int {
    if tid == TypeID::M_ME_TA_1 {
        6
    } else if tid == TypeID::M_ME_TD_1 {
        10
    } else if tid == TypeID::M_ME_ND_1 {
        2
    } else {
        3
    }
}

/// Every element's time is present where the type identification carries one.
pub open spec fn spec_mvn_times_given(tid: TypeID, infos: Seq<MeasuredValueNormalInfo>) -> bool {
    (tid == TypeID::M_ME_TA_1 || tid == TypeID::M_ME_TD_1) ==> forall|j: int|
        0 <= j < infos.len() ==> (#[trigger] infos[j]).time is Some
}

/// The body length of a run of normalized-value elements whose times are
/// present.
pub proof fn lemma_mvn_elems_len(
    tid: TypeID,
    sq: bool,
    infos: Seq<MeasuredValueNormalInfo>,
    first: bool,
)
    requires
        spec_mvn_times_given(tid, infos),
    ensures
        spec_mvn_elems(tid, sq, infos, first).len() == if !sq {
            infos.len() * (3 + spec_mvn_payload_len(tid))
        } else {
            (if first && infos.len() > 0 {
                3int
            } else {
                0int
            }) + infos.len() * spec_mvn_payload_len(tid)
        },
    decreases infos.len(),
{
    if infos.len() > 0 {
        lemma_mvn_elems_len(tid, sq, infos.skip(1), false);
        let n = infos.len() as int;
        let l = spec_mvn_payload_len(tid);
        assert((n - 1) * (3 + l) + (3 + l) == n * (3 + l)) by (nonlinear_arith);
        assert((n - 1) * l + l == n * l) by (nonlinear_arith);
    } else {
        assert(infos.len() * (3 + spec_mvn_payload_len(tid)) == 0) by (nonlinear_arith)
            requires infos.len() == 0,
        ;
        assert(infos.len() * spec_mvn_payload_len(tid) == 0) by (nonlinear_arith)
            requires infos.len() == 0,
        ;
    }
}

/// `filled` is `orig` with every missing time written in, for the types
/// that carry a time tag.
pub open spec fn spec_mvn_filled(
    tid: TypeID,
    orig: Seq<MeasuredValueNormalInfo>,
    filled: Seq<MeasuredValueNormalInfo>,
) -> bool {
    &&& filled.len() == orig.len()
    &&& forall|j: int|
        0 <= j < orig.len() ==> {
            &&& (#[trigger] filled[j]).ioa == orig[j].ioa
            &&& filled[j].nva == orig[j].nva
            &&& filled[j].qds == orig[j].qds
            &&& (!(tid == TypeID::M_ME_TA_1 || tid == TypeID::M_ME_TD_1) ==> filled[j].time
                == orig[j].time)
            &&& ((tid == TypeID::M_ME_TA_1 || tid == TypeID::M_ME_TD_1) ==> match orig[j].time {
                Some(t) => filled[j].time == Some(t),
                None => filled[j].time matches Some(t2) && t2.wf(),
            })
        }
}

/// Write the current time into every element that lacks one.
fn fill_times_mvn(tid: TypeID, infos: Vec<MeasuredValueNormalInfo>) -> (r: Vec<
    MeasuredValueNormalInfo,
>)
    ensures
        spec_mvn_filled(tid, infos@, r@),
        spec_mvn_times_given(tid, r@),
{
    if !(matches!(tid, TypeID::M_ME_TA_1) || matches!(tid, TypeID::M_ME_TD_1)) {
        return infos;
    }
    let mut r: Vec<MeasuredValueNormalInfo> = Vec::new();
    let mut i: usize = 0;
    while i < infos.len()
        invariant
            i <= infos@.len(),
            r@.len() == i,
            tid == TypeID::M_ME_TA_1 || tid == TypeID::M_ME_TD_1,
            forall|j: int|
                0 <= j < i ==> {
                    &&& (#[trigger] r@[j]).ioa == infos@[j].ioa
                    &&& r@[j].nva == infos@[j].nva
                    &&& r@[j].qds == infos@[j].qds
                    &&& (match infos@[j].time {
                        Some(t) => r@[j].time == Some(t),
                        None => r@[j].time matches Some(t2) && t2.wf(),
                    })
                },
        decreases infos@.len() - i,
    {
        let info = infos[i];
        match info.time {
            Some(_) => r.push(info),
            None => {
                let now = current_time2a();
                r.push(
                    MeasuredValueNormalInfo {
                        ioa: info.ioa,
                        nva: info.nva,
                        qds: info.qds,
                        time: Some(now),
                    },
                );
            },
        }
        i = i + 1;
    }
    r
}

/// Serialize a run of normalized-value elements.
#[verifier::rlimit(100)]
fn encode_mvn_body(tid: TypeID, sq: bool, infos: &Vec<MeasuredValueNormalInfo>) -> (r: Vec<u8>)
    requires
        spec_mvn_family(tid),
        spec_mvn_times_given(tid, infos@),
        tid != TypeID::M_ME_ND_1 ==> forall|j: int|
            0 <= j < infos@.len() ==> ((#[trigger] infos@[j]).qds matches Some(q) ==> q.wf()),
        (tid == TypeID::M_ME_TA_1 || tid == TypeID::M_ME_TD_1) ==> forall|j: int|
            0 <= j < infos@.len() ==> ((#[trigger] infos@[j]).time matches Some(t) ==> t.wf()),
    ensures
        r@ == spec_mvn_body(tid, sq, infos@),
{
    let mut buf: Vec<u8> = Vec::new();
    proof {
        assert(infos@.skip(0) =~= infos@);
        assert(buf@ + spec_mvn_elems(tid, sq, infos@, true) =~= spec_mvn_elems(
            tid,
            sq,
            infos@,
            true,
        ));
    }
    let mut i: usize = 0;
    while i < infos.len()
        invariant
            i <= infos@.len(),
            spec_mvn_family(tid),
            spec_mvn_times_given(tid, infos@),
            tid != TypeID::M_ME_ND_1 ==> forall|j: int|
                0 <= j < infos@.len() ==> ((#[trigger] infos@[j]).qds matches Some(q) ==> q.wf()),
            (tid == TypeID::M_ME_TA_1 || tid == TypeID::M_ME_TD_1) ==> forall|j: int|
                0 <= j < infos@.len() ==> ((#[trigger] infos@[j]).time matches Some(t) ==> t.wf()),
            spec_mvn_body(tid, sq, infos@) == buf@ + spec_mvn_elems(
                tid,
                sq,
                infos@.skip(i as int),
                i == 0,
            ),
        decreases infos@.len() - i,
    {
        let info = infos[i];
        let ghost before = buf@;
        if !sq || i == 0 {
            buf.push((info.ioa.addr % 256) as u8);
            buf.push((info.ioa.addr / 256) as u8);
            buf.push(info.ioa.res);
        }
        push_i16_le(&mut buf, info.nva);
        if !matches!(tid, TypeID::M_ME_ND_1) {
            match info.qds {
                Some(q) => buf.push(q.raw()),
                None => buf.push(ObjectQDS::good().raw()),
            }
        }
        if matches!(tid, TypeID::M_ME_TA_1) {
            match info.time {
                Some(t) => {
                    let tb = cp24time2a(t);
                    crate::csys::append_bytes(&mut buf, &tb);
                },
                None => {},
            }
        } else if matches!(tid, TypeID::M_ME_TD_1) {
            match info.time {
                Some(t) => {
                    let tb = cp56time2a(t);
                    crate::csys::append_bytes(&mut buf, &tb);
                },
                None => {},
            }
        }
        proof {
            assert(infos@.skip(i as int)[0] == info);
            assert(buf@ =~= before + ((if !sq || i == 0 {
                spec_ioa_bytes(info.ioa)
            } else {
                Seq::<u8>::empty()
            }) + spec_mvn_payload(tid, info)));
            assert(infos@.skip(i as int).skip(1) =~= infos@.skip(i + 1));
            assert(spec_mvn_body(tid, sq, infos@) == buf@ + spec_mvn_elems(
                tid,
                sq,
                infos@.skip(i + 1),
                false,
            ));
        }
        i = i + 1;
    }
    proof {
        assert(infos@.skip(infos@.len() as int) =~= Seq::<MeasuredValueNormalInfo>::empty());
        assert(buf@ =~= spec_mvn_body(tid, sq, infos@));
    }
    buf
}

/// Build a normalized-value ASDU of the given type.
fn mvn_asdu(
    tid: TypeID,
    sq: bool,
    cot: CauseOfTransmission,
    ca: CommonAddr,
    infos: Vec<MeasuredValueNormalInfo>,
) -> (r: Asdu)
    requires
        spec_mvn_family(tid),
        infos@.len() <= 127,
        !sq ==> infos@.len() * (3 + spec_mvn_payload_len(tid)) <= ASDU_BODY_SIZE_MAX,
        sq ==> 3 + infos@.len() * spec_mvn_payload_len(tid) <= ASDU_BODY_SIZE_MAX,
        tid != TypeID::M_ME_ND_1 ==> forall|j: int|
            0 <= j < infos@.len() ==> ((#[trigger] infos@[j]).qds matches Some(q) ==> q.wf()),
        (tid == TypeID::M_ME_TA_1 || tid == TypeID::M_ME_TD_1) ==> forall|j: int|
            0 <= j < infos@.len() ==> ((#[trigger] infos@[j]).time matches Some(t) ==> t.wf()),
    ensures
        r.identifier == spec_mon_identifier(tid, sq, infos@.len() as int, cot, ca),
        r.wf(),
        exists|filled: Seq<MeasuredValueNormalInfo>|
            #[trigger] spec_mvn_filled(tid, infos@, filled) && r.raw@ == spec_mvn_body(
                tid,
                sq,
                filled,
            ),
        spec_mvn_times_given(tid, infos@) ==> r.raw@ == spec_mvn_body(tid, sq, infos@),
{
    let n = infos.len();
    let ghost orig = infos@;
    let filled = fill_times_mvn(tid, infos);
    let buf = encode_mvn_body(tid, sq, &filled);
    proof {
        lemma_mvn_elems_len(tid, sq, filled@, true);
        assert(spec_mvn_filled(tid, orig, filled@) && buf@ == spec_mvn_body(tid, sq, filled@));
        if spec_mvn_times_given(tid, orig) {
            assert forall|j: int| 0 <= j < orig.len() implies filled@[j] == orig[j] by {}
            assert(filled@ =~= orig);
        }
    }
    Asdu {
        identifier: Identifier {
            type_id: tid,
            variable_struct: VariableStruct::new(sq, n as u8),
            cot,
            orig_addr: 0,
            common_addr: ca,
        },
        raw: buf,
    }
}

/// The causes a measured-value ASDU allows: periodic, background scan,
/// spontaneous, requested, or any interrogation answer.
pub open spec fn spec_cause_mon_measured(c: Cause) -> bool {
    ||| c.spec_u8() == 1
    ||| c.spec_u8() == 2
    ||| c.spec_u8() == 3
    ||| c.spec_u8() == 5
    ||| 20 <= c.spec_u8() <= 36
}

/// The causes a time-tagged measured-value ASDU allows: spontaneous or
/// requested.
pub open spec fn spec_cause_mon_measured_timed(c: Cause) -> bool {
    c.spec_u8() == 3 || c.spec_u8() == 5
}

/// Build an M_ME_NA_1 ASDU: untagged normalized measured values.
pub fn measured_value_normal(
    is_sequence: bool,
    cot: CauseOfTransmission,
    ca: CommonAddr,
    infos: Vec<MeasuredValueNormalInfo>,
) -> (r: Result<Asdu, Error>)
    requires
        infos@.len() <= 40,
        forall|j: int|
            0 <= j < infos@.len() ==> ((#[trigger] infos@[j]).qds matches Some(q) ==> q.wf()),
    ensures
        !spec_cause_mon_measured(cot.cause) ==> r == Err::<Asdu, Error>(Error::ErrCmdCause(cot)),
        spec_cause_mon_measured(cot.cause) ==> match r {
            Ok(a) => {
                &&& a.identifier == spec_mon_identifier(
                    TypeID::M_ME_NA_1,
                    is_sequence,
                    infos@.len() as int,
                    cot,
                    ca,
                )
                &&& a.raw@ == spec_mvn_body(TypeID::M_ME_NA_1, is_sequence, infos@)
                &&& a.wf()
            },
            Err(_) => false,
        },
{
    let c = cot.cause.to_u8();
    if !(c == 1 || c == 2 || c == 3 || c == 5 || (20 <= c && c <= 36)) {
        return Err(Error::ErrCmdCause(cot));
    }
    proof {
        assert(infos@.len() * (3 + spec_mvn_payload_len(TypeID::M_ME_NA_1)) <= 40 * 6)
            by (nonlinear_arith)
            requires infos@.len() <= 40,
        ;
        assert(infos@.len() * spec_mvn_payload_len(TypeID::M_ME_NA_1) <= 40 * 3)
            by (nonlinear_arith)
            requires infos@.len() <= 40,
        ;
    }
    Ok(mvn_asdu(TypeID::M_ME_NA_1, is_sequence, cot, ca, infos))
}

/// Build an M_ME_TA_1 ASDU: normalized measured values with CP24Time2a
/// tags, individual addresses only. Elements without a time get the
/// current time.
pub fn measured_value_normal_cp24time2a(
    cot: CauseOfTransmission,
    ca: CommonAddr,
    infos: Vec<MeasuredValueNormalInfo>,
) -> (r: Result<Asdu, Error>)
    requires
        infos@.len() <= 27,
        forall|j: int|
            0 <= j < infos@.len() ==> ((#[trigger] infos@[j]).qds matches Some(q) ==> q.wf()),
        forall|j: int|
            0 <= j < infos@.len() ==> ((#[trigger] infos@[j]).time matches Some(t) ==> t.wf()),
    ensures
        !spec_cause_mon_measured_timed(cot.cause) ==> r == Err::<Asdu, Error>(
            Error::ErrCmdCause(cot),
        ),
        spec_cause_mon_measured_timed(cot.cause) ==> match r {
            Ok(a) => {
                &&& a.identifier == spec_mon_identifier(
                    TypeID::M_ME_TA_1,
                    false,
                    infos@.len() as int,
                    cot,
                    ca,
                )
                &&& a.wf()
                &&& exists|filled: Seq<MeasuredValueNormalInfo>|
                    #[trigger] spec_mvn_filled(TypeID::M_ME_TA_1, infos@, filled) && a.raw@
                        == spec_mvn_body(TypeID::M_ME_TA_1, false, filled)
                &&& spec_mvn_times_given(TypeID::M_ME_TA_1, infos@) ==> a.raw@ == spec_mvn_body(
                    TypeID::M_ME_TA_1,
                    false,
                    infos@,
                )
            },
            Err(_) => false,
        },
{
    let c = cot.cause.to_u8();
    if !(c == 3 || c == 5) {
        return Err(Error::ErrCmdCause(cot));
    }
    proof {
        assert(infos@.len() * (3 + spec_mvn_payload_len(TypeID::M_ME_TA_1)) <= 27 * 9)
            by (nonlinear_arith)
            requires infos@.len() <= 27,
        ;
    }
    Ok(mvn_asdu(TypeID::M_ME_TA_1, false, cot, ca, infos))
}

/// Build an M_ME_TD_1 ASDU: normalized measured values with CP56Time2a
/// tags, individual addresses only. Elements without a time get the
/// current time.
pub fn measured_value_normal_cp56time2a(
    cot: CauseOfTransmission,
    ca: CommonAddr,
    infos: Vec<MeasuredValueNormalInfo>,
) -> (r: Result<Asdu, Error>)
    requires
        infos@.len() <= 18,
        forall|j: int|
            0 <= j < infos@.len() ==> ((#[trigger] infos@[j]).qds matches Some(q) ==> q.wf()),
        forall|j: int|
            0 <= j < infos@.len() ==> ((#[trigger] infos@[j]).time matches Some(t) ==> t.wf()),
    ensures
        !spec_cause_mon_measured_timed(cot.cause) ==> r == Err::<Asdu, Error>(
            Error::ErrCmdCause(cot),
        ),
        spec_cause_mon_measured_timed(cot.cause) ==> match r {
            Ok(a) => {
                &&& a.identifier == spec_mon_identifier(
                    TypeID::M_ME_TD_1,
                    false,
                    infos@.len() as int,
                    cot,
                    ca,
                )
                &&& a.wf()
                &&& exists|filled: Seq<MeasuredValueNormalInfo>|
                    #[trigger] spec_mvn_filled(TypeID::M_ME_TD_1, infos@, filled) && a.raw@
                        == spec_mvn_body(TypeID::M_ME_TD_1, false, filled)
                &&& spec_mvn_times_given(TypeID::M_ME_TD_1, infos@) ==> a.raw@ == spec_mvn_body(
                    TypeID::M_ME_TD_1,
                    false,
                    infos@,
                )
            },
            Err(_) => false,
        },
{
    let c = cot.cause.to_u8();
    if !(c == 3 || c == 5) {
        return Err(Error::ErrCmdCause(cot));
    }
    proof {
        assert(infos@.len() * (3 + spec_mvn_payload_len(TypeID::M_ME_TD_1)) <= 18 * 13)
            by (nonlinear_arith)
            requires infos@.len() <= 18,
        ;
    }
    Ok(mvn_asdu(TypeID::M_ME_TD_1, false, cot, ca, infos))
}

/// Build an M_ME_ND_1 ASDU: normalized measured values without quality
/// descriptors.
pub fn measured_value_normal_noquality(
    cot: CauseOfTransmission,
    ca: CommonAddr,
    infos: Vec<MeasuredValueNormalInfo>,
) -> (r: Result<Asdu, Error>)
    requires
        infos@.len() <= 48,
    ensures
        !spec_cause_mon_measured(cot.cause) ==> r == Err::<Asdu, Error>(Error::ErrCmdCause(cot)),
        spec_cause_mon_measured(cot.cause) ==> match r {
            Ok(a) => {
                &&& a.identifier == spec_mon_identifier(
                    TypeID::M_ME_ND_1,
                    false,
                    infos@.len() as int,
                    cot,
                    ca,
                )
                &&& a.raw@ == spec_mvn_body(TypeID::M_ME_ND_1, false, infos@)
                &&& a.wf()
            },
            Err(_) => false,
        },
{
    let c = cot.cause.to_u8();
    if !(c == 1 || c == 2 || c == 3 || c == 5 || (20 <= c && c <= 36)) {
        return Err(Error::ErrCmdCause(cot));
    }
    proof {
        assert(infos@.len() * (3 + spec_mvn_payload_len(TypeID::M_ME_ND_1)) <= 48 * 5)
            by (nonlinear_arith)
            requires infos@.len() <= 48,
        ;
    }
    Ok(mvn_asdu(TypeID::M_ME_ND_1, false, cot, ca, infos))
}

} // verus!

// The scaled-value family.
verus! {

/// A scaled measured value, its quality descriptor and optional time.
#[derive(Debug, Clone, Copy, PartialEq)]
pub struct MeasuredValueScaledInfo {
    pub ioa: InfoObjAddr,
    pub sva: i16,
    pub qds: ObjectQDS,
    pub time: Option<Time2a>,
}

impl MeasuredValueScaledInfo {
    pub fn new(ioa: InfoObjAddr, sva: i16, qds: ObjectQDS, time: Option<Time2a>) -> (r:
        MeasuredValueScaledInfo)
        ensures
            r == (MeasuredValueScaledInfo { ioa, sva, qds, time }),
    {
        MeasuredValueScaledInfo { ioa, sva, qds, time }
    }
}

/// The three type identifications that carry scaled measured values.
pub open spec fn spec_mvs_family(tid: TypeID) -> bool {
    tid == TypeID::M_ME_NB_1 || tid == TypeID::M_ME_TB_1 || tid == TypeID::M_ME_TE_1
}

/// The payload one scaled-value element writes after its address.
pub open spec fn spec_mvs_payload(tid: TypeID, info: MeasuredValueScaledInfo) -> Seq<u8> {
    spec_i16_le(info.sva) + seq![spec_qds_raw(info.qds)] + (if tid == TypeID::M_ME_TB_1 {
        match info.time {
            Some(t) => spec_cp24_bytes(t),
            None => Seq::empty(),
        }
    } else if tid == TypeID::M_ME_TE_1 {
        match info.time {
            Some(t) => spec_cp56_bytes(t),
            None => Seq::empty(),
        }
    } else {
        Seq::empty()
    })
}

/// The body bytes of a run of scaled-value elements.
pub open spec fn spec_mvs_elems(
    tid: TypeID,
    sq: bool,
    infos: Seq<MeasuredValueScaledInfo>,
    first: bool,
) -> Seq<u8>
    decreases infos.len(),
{
    if infos.len() == 0 {
        Seq::empty()
    } else {
        (if !sq || first {
            spec_ioa_bytes(infos[0].ioa)
        } else {
            Seq::empty()
        }) + spec_mvs_payload(tid, infos[0]) + spec_mvs_elems(tid, sq, infos.skip(1), false)
    }
}

/// The whole scaled-value body.
pub open spec fn spec_mvs_body(tid: TypeID, sq: bool, infos: Seq<MeasuredValueScaledInfo>) -> Seq<
    u8,
> {
    spec_mvs_elems(tid, sq, infos, true)
}

/// Parse `n` scaled-value elements from `pos`.
pub open spec fn spec_mvs_parse_rec(
    tid: TypeID,
    sq: bool,
    body: Seq<u8>,
    n: nat,
    pos: int,
    prev: InfoObjAddr,
    first: bool,
) -> Option<Seq<MeasuredValueScaledInfo>>
    decreases n, 1int,
{
    if n == 0 {
        Some(Seq::empty())
    } else if !sq || first {
        if pos + 3 <= body.len() {
            spec_mvs_parse_payload(
                tid,
                sq,
                body,
                n,
                pos + 3,
                spec_ioa_from(body[pos], body[pos + 1], body[pos + 2]),
            )
        } else {
            None
        }
    } else {
        spec_mvs_parse_payload(tid, sq, body, n, pos, spec_next_ioa(prev))
    }
}

/// Parse one scaled-value payload at `pos` and the elements after it.
pub open spec fn spec_mvs_parse_payload(
    tid: TypeID,
    sq: bool,
    body: Seq<u8>,
    n: nat,
    pos: int,
    ioa: InfoObjAddr,
) -> Option<Seq<MeasuredValueScaledInfo>>
    decreases n, 0int,
{
    if n == 0 {
        Some(Seq::empty())
    } else if pos + 3 <= body.len() {
        let sva = spec_i16_from(body[pos], body[pos + 1]);
        let qds = spec_qds_from(body[pos + 2]);
        let time = if tid == TypeID::M_ME_TB_1 && body.len() - (pos + 3) >= 3 {
            spec_cp24_placeholder(body[pos + 3], body[pos + 4], body[pos + 5])
        } else if tid == TypeID::M_ME_TE_1 && body.len() - (pos + 3) >= 7 {
            spec_cp56_from(body.subrange(pos + 3, pos + 10))
        } else {
            None
        };
        let consumed: int = if tid == TypeID::M_ME_TB_1 && body.len() - (pos + 3) >= 3 {
            6
        } else if tid == TypeID::M_ME_TE_1 && body.len() - (pos + 3) >= 7 {
            10
        } else {
            3
        };
        spec_prepend(
            seq![MeasuredValueScaledInfo { ioa, sva, qds, time }],
            spec_mvs_parse_rec(tid, sq, body, (n - 1) as nat, pos + consumed, ioa, false),
        )
    } else {
        None
    }
}

/// Parse a whole scaled-value body.
pub open spec fn spec_mvs_parse(tid: TypeID, sq: bool, n: nat, body: Seq<u8>) -> Option<
    Seq<MeasuredValueScaledInfo>,
> {
    spec_mvs_parse_rec(tid, sq, body, n, 0, (InfoObjAddr { res: 0, addr: 0 }), true)
}

/// A decoded run agrees with the parse specification, up to the CP24
/// clock-filled calendar fields.
pub open spec fn spec_mvs_agrees(
    tid: TypeID,
    s: Seq<MeasuredValueScaledInfo>,
    r: Seq<MeasuredValueScaledInfo>,
) -> bool {
    if tid == TypeID::M_ME_TB_1 {
        &&& r.len() == s.len()
        &&& forall|i: int|
            0 <= i < s.len() ==> (#[trigger] r[i]).ioa == s[i].ioa && r[i].sva == s[i].sva
                && r[i].qds == s[i].qds && spec_time24_agrees(s[i].time, r[i].time)
    } else {
        r == s
    }
}

impl Asdu {
    /// Read the scaled measured values of an ASDU whose type identification
    /// is one of the scaled-value types, or report the mismatch.
    #[verifier::rlimit(100)]
    pub fn get_measured_value_scaled(&self) -> (r: Result<Vec<MeasuredValueScaledInfo>, Error>)
        ensures
            !spec_mvs_family(self.identifier.type_id) ==> r == Err::<
                Vec<MeasuredValueScaledInfo>,
                Error,
            >(Error::ErrTypeIDNotMatch(self.identifier.type_id)),
            spec_mvs_family(self.identifier.type_id) ==> match r {
                Ok(infos) => match spec_mvs_parse(
                    self.identifier.type_id,
                    self.identifier.variable_struct.is_sequence,
                    self.identifier.variable_struct.number as nat,
                    self.raw@,
                ) {
                    Some(s) => spec_mvs_agrees(self.identifier.type_id, s, infos@),
                    None => false,
                },
                Err(e) => spec_mvs_parse(
                    self.identifier.type_id,
                    self.identifier.variable_struct.is_sequence,
                    self.identifier.variable_struct.number as nat,
                    self.raw@,
                ) is None && e == Error::ErrAsduTooShort,
            },
    {
        let tid = self.identifier.type_id;
        if !(matches!(tid, TypeID::M_ME_NB_1) || matches!(tid, TypeID::M_ME_TB_1) || matches!(
            tid,
            TypeID::M_ME_TE_1,
        )) {
            return Err(Error::ErrTypeIDNotMatch(tid));
        }
        let n: usize = self.identifier.variable_struct.number as usize;
        let sq = self.identifier.variable_struct.is_sequence;
        let len: usize = self.raw.len();
        let mut infos: Vec<MeasuredValueScaledInfo> = Vec::new();
        let ghost mut sinfos: Seq<MeasuredValueScaledInfo> = Seq::empty();
        let mut pos: usize = 0;
        let mut ioa = InfoObjAddr { res: 0, addr: 0 };
        let mut i: usize = 0;
        while i < n
            invariant
                spec_mvs_family(tid),
                tid == self.identifier.type_id,
                sq == self.identifier.variable_struct.is_sequence,
                n == self.identifier.variable_struct.number,
                len == self.raw@.len(),
                i <= n,
                pos <= len,
                infos@.len() == i,
                sinfos.len() == i,
                spec_mvs_agrees(tid, sinfos, infos@),
                spec_mvs_parse(tid, sq, n as nat, self.raw@) == spec_prepend(
                    sinfos,
                    spec_mvs_parse_rec(
                        tid,
                        sq,
                        self.raw@,
                        (n - i) as nat,
                        pos as int,
                        ioa,
                        i == 0,
                    ),
                ),
            decreases n - i,
        {
            if !sq || i == 0 {
                if len - pos < 3 {
                    return Err(Error::ErrAsduTooShort);
                }
                ioa = InfoObjAddr {
                    res: self.raw[pos + 2],
                    addr: self.raw[pos] as u16 + self.raw[pos + 1] as u16 * 256,
                };
                pos = pos + 3;
            } else {
                ioa = next_ioa(ioa);
            }
            if len - pos < 3 {
                return Err(Error::ErrAsduTooShort);
            }
            let sva = read_i16_le(&self.raw, pos);
            let qds = ObjectQDS::from_raw(self.raw[pos + 2]);
            let mut time: Option<Time2a> = None;
            let ghost mut stime: Option<Time2a> = None;
            let ghost pos_before = pos as int;
            if matches!(tid, TypeID::M_ME_TB_1) && len - (pos + 3) >= 3 {
                time = decode_cp24time2a(&self.raw, pos + 3);
                proof {
                    stime = spec_cp24_placeholder(
                        self.raw@[pos + 3],
                        self.raw@[pos + 4],
                        self.raw@[pos + 5],
                    );
                }
                pos = pos + 6;
            } else if matches!(tid, TypeID::M_ME_TE_1) && len - (pos + 3) >= 7 {
                time = decode_cp56time2a(&self.raw, pos + 3);
                proof {
                    stime = spec_cp56_from(self.raw@.subrange(pos_before + 3, pos_before + 10));
                }
                pos = pos + 10;
            } else {
                pos = pos + 3;
            }
            infos.push(MeasuredValueScaledInfo { ioa, sva, qds, time });
            proof {
                let selem = MeasuredValueScaledInfo { ioa, sva, qds, time: stime };
                let rest = spec_mvs_parse_rec(
                    tid,
                    sq,
                    self.raw@,
                    (n - i - 1) as nat,
                    pos as int,
                    ioa,
                    false,
                );
                assert(spec_prepend(sinfos, spec_prepend(seq![selem], rest)) == spec_prepend(
                    sinfos.push(selem),
                    rest,
                )) by {
                    if rest is Some {
                        assert(sinfos + (seq![selem] + rest->Some_0) =~= sinfos.push(selem)
                            + rest->Some_0);
                    }
                }
                sinfos = sinfos.push(selem);
            }
            i = i + 1;
        }
        Ok(infos)
    }
}

/// How many bytes one scaled-value payload takes.
pub open spec fn spec_mvs_payload_len(tid: TypeID) -> int {
    if tid == TypeID::M_ME_TB_1 {
        6
    } else if tid == TypeID::M_ME_TE_1 {
        10
    } else {
        3
    }
}

/// Every element's time is present where the type identification carries one.
pub open spec fn spec_mvs_times_given(tid: TypeID, infos: Seq<MeasuredValueScaledInfo>) -> bool {
    tid != TypeID::M_ME_NB_1 ==> forall|j: int|
        0 <= j < infos.len() ==> (#[trigger] infos[j]).time is Some
}

/// The body length of a run of scaled-value elements whose times are present.
pub proof fn lemma_mvs_elems_len(
    tid: TypeID,
    sq: bool,
    infos: Seq<MeasuredValueScaledInfo>,
    first: bool,
)
    requires
        spec_mvs_times_given(tid, infos),
    ensures
        spec_mvs_elems(tid, sq, infos, first).len() == if !sq {
            infos.len() * (3 + spec_mvs_payload_len(tid))
        } else {
            (if first && infos.len() > 0 {
                3int
            } else {
                0int
            }) + infos.len() * spec_mvs_payload_len(tid)
        },
    decreases infos.len(),
{
    if infos.len() > 0 {
        lemma_mvs_elems_len(tid, sq, infos.skip(1), false);
        let n = infos.len() as int;
        let l = spec_mvs_payload_len(tid);
        assert((n - 1) * (3 + l) + (3 + l) == n * (3 + l)) by (nonlinear_arith);
        assert((n - 1) * l + l == n * l) by (nonlinear_arith);
    } else {
        assert(infos.len() * (3 + spec_mvs_payload_len(tid)) == 0) by (nonlinear_arith)
            requires infos.len() == 0,
        ;
        assert(infos.len() * spec_mvs_payload_len(tid) == 0) by (nonlinear_arith)
            requires infos.len() == 0,
        ;
    }
}

/// `filled` is `orig` with every missing time written in.
pub open spec fn spec_mvs_filled(
    tid: TypeID,
    orig: Seq<MeasuredValueScaledInfo>,
    filled: Seq<MeasuredValueScaledInfo>,
) -> bool {
    &&& filled.len() == orig.len()
    &&& forall|j: int|
        0 <= j < orig.len() ==> {
            &&& (#[trigger] filled[j]).ioa == orig[j].ioa
            &&& filled[j].sva == orig[j].sva
            &&& filled[j].qds == orig[j].qds
            &&& (tid == TypeID::M_ME_NB_1 ==> filled[j].time == orig[j].time)
            &&& (tid != TypeID::M_ME_NB_1 ==> match orig[j].time {
                Some(t) => filled[j].time == Some(t),
                None => filled[j].time matches Some(t2) && t2.wf(),
            })
        }
}

/// Write the current time into every element that lacks one.
fn fill_times_mvs(tid: TypeID, infos: Vec<MeasuredValueScaledInfo>) -> (r: Vec<
    MeasuredValueScaledInfo,
>)
    ensures
        spec_mvs_filled(tid, infos@, r@),
        spec_mvs_times_given(tid, r@),
{
    if matches!(tid, TypeID::M_ME_NB_1) {
        return infos;
    }
    let mut r: Vec<MeasuredValueScaledInfo> = Vec::new();
    let mut i: usize = 0;
    while i < infos.len()
        invariant
            i <= infos@.len(),
            r@.len() == i,
            tid != TypeID::M_ME_NB_1,
            forall|j: int|
                0 <= j < i ==> {
                    &&& (#[trigger] r@[j]).ioa == infos@[j].ioa
                    &&& r@[j].sva == infos@[j].sva
                    &&& r@[j].qds == infos@[j].qds
                    &&& (match infos@[j].time {
                        Some(t) => r@[j].time == Some(t),
                        None => r@[j].time matches Some(t2) && t2.wf(),
                    })
                },
        decreases infos@.len() - i,
    {
        let info = infos[i];
        match info.time {
            Some(_) => r.push(info),
            None => {
                let now = current_time2a();
                r.push(
                    MeasuredValueScaledInfo {
                        ioa: info.ioa,
                        sva: info.sva,
                        qds: info.qds,
                        time: Some(now),
                    },
                );
            },
        }
        i = i + 1;
    }
    r
}

/// Serialize a run of scaled-value elements.
#[verifier::rlimit(100)]
fn encode_mvs_body(tid: TypeID, sq: bool, infos: &Vec<MeasuredValueScaledInfo>) -> (r: Vec<u8>)
    requires
        spec_mvs_family(tid),
        spec_mvs_times_given(tid, infos@),
        forall|j: int| 0 <= j < infos@.len() ==> (#[trigger] infos@[j]).qds.wf(),
        tid != TypeID::M_ME_NB_1 ==> forall|j: int|
            0 <= j < infos@.len() ==> ((#[trigger] infos@[j]).time matches Some(t) ==> t.wf()),
    ensures
        r@ == spec_mvs_body(tid, sq, infos@),
{
    let mut buf: Vec<u8> = Vec::new();
    proof {
        assert(infos@.skip(0) =~= infos@);
        assert(buf@ + spec_mvs_elems(tid, sq, infos@, true) =~= spec_mvs_elems(
            tid,
            sq,
            infos@,
            true,
        ));
    }
    let mut i: usize = 0;
    while i < infos.len()
        invariant
            i <= infos@.len(),
            spec_mvs_family(tid),
            spec_mvs_times_given(tid, infos@),
            forall|j: int| 0 <= j < infos@.len() ==> (#[trigger] infos@[j]).qds.wf(),
            tid != TypeID::M_ME_NB_1 ==> forall|j: int|
                0 <= j < infos@.len() ==> ((#[trigger] infos@[j]).time matches Some(t) ==> t.wf()),
            spec_mvs_body(tid, sq, infos@) == buf@ + spec_mvs_elems(
                tid,
                sq,
                infos@.skip(i as int),
                i == 0,
            ),
        decreases infos@.len() - i,
    {
        let info = infos[i];
        let ghost before = buf@;
        if !sq || i == 0 {
            buf.push((info.ioa.addr % 256) as u8);
            buf.push((info.ioa.addr / 256) as u8);
            buf.push(info.ioa.res);
        }
        push_i16_le(&mut buf, info.sva);
        buf.push(info.qds.raw());
        if matches!(tid, TypeID::M_ME_TB_1) {
            match info.time {
                Some(t) => {
                    let tb = cp24time2a(t);
                    crate::csys::append_bytes(&mut buf, &tb);
                },
                None => {},
            }
        } else if matches!(tid, TypeID::M_ME_TE_1) {
            match info.time {
                Some(t) => {
                    let tb = cp56time2a(t);
                    crate::csys::append_bytes(&mut buf, &tb);
                },
                None => {},
            }
        }
        proof {
            assert(infos@.skip(i as int)[0] == info);
            assert(buf@ =~= before + ((if !sq || i == 0 {
                spec_ioa_bytes(info.ioa)
            } else {
                Seq::<u8>::empty()
            }) + spec_mvs_payload(tid, info)));
            assert(infos@.skip(i as int).skip(1) =~= infos@.skip(i + 1));
            assert(spec_mvs_body(tid, sq, infos@) == buf@ + spec_mvs_elems(
                tid,
                sq,
                infos@.skip(i + 1),
                false,
            ));
        }
        i = i + 1;
    }
    proof {
        assert(infos@.skip(infos@.len() as int) =~= Seq::<MeasuredValueScaledInfo>::empty());
        assert(buf@ =~= spec_mvs_body(tid, sq, infos@));
    }
    buf
}

/// Build a scaled-value ASDU of the given type.
fn mvs_asdu(
    tid: TypeID,
    sq: bool,
    cot: CauseOfTransmission,
    ca: CommonAddr,
    infos: Vec<MeasuredValueScaledInfo>,
) -> (r: Asdu)
    requires
        spec_mvs_family(tid),
        infos@.len() <= 127,
        !sq ==> infos@.len() * (3 + spec_mvs_payload_len(tid)) <= ASDU_BODY_SIZE_MAX,
        sq ==> 3 + infos@.len() * spec_mvs_payload_len(tid) <= ASDU_BODY_SIZE_MAX,
        forall|j: int| 0 <= j < infos@.len() ==> (#[trigger] infos@[j]).qds.wf(),
        tid != TypeID::M_ME_NB_1 ==> forall|j: int|
            0 <= j < infos@.len() ==> ((#[trigger] infos@[j]).time matches Some(t) ==> t.wf()),
    ensures
        r.identifier == spec_mon_identifier(tid, sq, infos@.len() as int, cot, ca),
        r.wf(),
        exists|filled: Seq<MeasuredValueScaledInfo>|
            #[trigger] spec_mvs_filled(tid, infos@, filled) && r.raw@ == spec_mvs_body(
                tid,
                sq,
                filled,
            ),
        spec_mvs_times_given(tid, infos@) ==> r.raw@ == spec_mvs_body(tid, sq, infos@),
{
    let n = infos.len();
    let ghost orig = infos@;
    let filled = fill_times_mvs(tid, infos);
    let buf = encode_mvs_body(tid, sq, &filled);
    proof {
        lemma_mvs_elems_len(tid, sq, filled@, true);
        assert(spec_mvs_filled(tid, orig, filled@) && buf@ == spec_mvs_body(tid, sq, filled@));
        if spec_mvs_times_given(tid, orig) {
            assert forall|j: int| 0 <= j < orig.len() implies filled@[j] == orig[j] by {}
            assert(filled@ =~= orig);
        }
    }
    Asdu {
        identifier: Identifier {
            type_id: tid,
            variable_struct: VariableStruct::new(sq, n as u8),
            cot,
            orig_addr: 0,
            common_addr: ca,
        },
        raw: buf,
    }
}

/// Build an M_ME_NB_1 ASDU: untagged scaled measured values.
pub fn measured_value_scaled(
    cot: CauseOfTransmission,
    ca: CommonAddr,
    infos: Vec<MeasuredValueScaledInfo>,
) -> (r: Result<Asdu, Error>)
    requires
        infos@.len() <= 40,
        forall|j: int| 0 <= j < infos@.len() ==> (#[trigger] infos@[j]).qds.wf(),
    ensures
        !spec_cause_mon_measured(cot.cause) ==> r == Err::<Asdu, Error>(Error::ErrCmdCause(cot)),
        spec_cause_mon_measured(cot.cause) ==> match r {
            Ok(a) => {
                &&& a.identifier == spec_mon_identifier(
                    TypeID::M_ME_NB_1,
                    false,
                    infos@.len() as int,
                    cot,
                    ca,
                )
                &&& a.raw@ == spec_mvs_body(TypeID::M_ME_NB_1, false, infos@)
                &&& a.wf()
            },
            Err(_) => false,
        },
{
    let c = cot.cause.to_u8();
    if !(c == 1 || c == 2 || c == 3 || c == 5 || (20 <= c && c <= 36)) {
        return Err(Error::ErrCmdCause(cot));
    }
    proof {
        assert(infos@.len() * (3 + spec_mvs_payload_len(TypeID::M_ME_NB_1)) <= 40 * 6)
            by (nonlinear_arith)
            requires infos@.len() <= 40,
        ;
    }
    Ok(mvs_asdu(TypeID::M_ME_NB_1, false, cot, ca, infos))
}

/// Build an M_ME_TB_1 ASDU: scaled measured values with CP24Time2a tags.
/// Elements without a time get the current time.
pub fn measured_value_scaled_cp24time2a(
    cot: CauseOfTransmission,
    ca: CommonAddr,
    infos: Vec<MeasuredValueScaledInfo>,
) -> (r: Result<Asdu, Error>)
    requires
        infos@.len() <= 27,
        forall|j: int| 0 <= j < infos@.len() ==> (#[trigger] infos@[j]).qds.wf(),
        forall|j: int|
            0 <= j < infos@.len() ==> ((#[trigger] infos@[j]).time matches Some(t) ==> t.wf()),
    ensures
        !spec_cause_mon_measured_timed(cot.cause) ==> r == Err::<Asdu, Error>(
            Error::ErrCmdCause(cot),
        ),
        spec_cause_mon_measured_timed(cot.cause) ==> match r {
            Ok(a) => {
                &&& a.identifier == spec_mon_identifier(
                    TypeID::M_ME_TB_1,
                    false,
                    infos@.len() as int,
                    cot,
                    ca,
                )
                &&& a.wf()
                &&& exists|filled: Seq<MeasuredValueScaledInfo>|
                    #[trigger] spec_mvs_filled(TypeID::M_ME_TB_1, infos@, filled) && a.raw@
                        == spec_mvs_body(TypeID::M_ME_TB_1, false, filled)
                &&& spec_mvs_times_given(TypeID::M_ME_TB_1, infos@) ==> a.raw@ == spec_mvs_body(
                    TypeID::M_ME_TB_1,
                    false,
                    infos@,
                )
            },
            Err(_) => false,
        },
{
    let c = cot.cause.to_u8();
    if !(c == 3 || c == 5) {
        return Err(Error::ErrCmdCause(cot));
    }
    proof {
        assert(infos@.len() * (3 + spec_mvs_payload_len(TypeID::M_ME_TB_1)) <= 27 * 9)
            by (nonlinear_arith)
            requires infos@.len() <= 27,
        ;
    }
    Ok(mvs_asdu(TypeID::M_ME_TB_1, false, cot, ca, infos))
}

/// Build an M_ME_TE_1 ASDU: scaled measured values with CP56Time2a tags.
/// Elements without a time get the current time.
pub fn measured_value_scaled_cp56time2a(
    cot: CauseOfTransmission,
    ca: CommonAddr,
    infos: Vec<MeasuredValueScaledInfo>,
) -> (r: Result<Asdu, Error>)
    requires
        infos@.len() <= 18,
        forall|j: int| 0 <= j < infos@.len() ==> (#[trigger] infos@[j]).qds.wf(),
        forall|j: int|
            0 <= j < infos@.len() ==> ((#[trigger] infos@[j]).time matches Some(t) ==> t.wf()),
    ensures
        !spec_cause_mon_measured_timed(cot.cause) ==> r == Err::<Asdu, Error>(
            Error::ErrCmdCause(cot),
        ),
        spec_cause_mon_measured_timed(cot.cause) ==> match r {
            Ok(a) => {
                &&& a.identifier == spec_mon_identifier(
                    TypeID::M_ME_TE_1,
                    false,
                    infos@.len() as int,
                    cot,
                    ca,
                )
                &&& a.wf()
                &&& exists|filled: Seq<MeasuredValueScaledInfo>|
                    #[trigger] spec_mvs_filled(TypeID::M_ME_TE_1, infos@, filled) && a.raw@
                        == spec_mvs_body(TypeID::M_ME_TE_1, false, filled)
                &&& spec_mvs_times_given(TypeID::M_ME_TE_1, infos@) ==> a.raw@ == spec_mvs_body(
                    TypeID::M_ME_TE_1,
                    false,
                    infos@,
                )
            },
            Err(_) => false,
        },
{
    let c = cot.cause.to_u8();
    if !(c == 3 || c == 5) {
        return Err(Error::ErrCmdCause(cot));
    }
    proof {
        assert(infos@.len() * (3 + spec_mvs_payload_len(TypeID::M_ME_TE_1)) <= 18 * 13)
            by (nonlinear_arith)
            requires infos@.len() <= 18,
        ;
    }
    Ok(mvs_asdu(TypeID::M_ME_TE_1, false, cot, ca, infos))
}

} // verus!

// The short-float family. Values travel as IEEE-754 bit patterns, which
// keeps the codec exact; callers convert to and from floats outside.
verus! {

/// A short-float measured value (as its IEEE-754 bit pattern), its quality
/// descriptor and optional time.
#[derive(Debug, Clone, Copy, PartialEq)]
pub struct MeasuredValueFloatInfo {
    pub ioa: InfoObjAddr,
    /// The IEEE-754 single-precision bit pattern of the measured value.
    pub r: u32,
    pub qds: ObjectQDS,
    pub time: Option<Time2a>,
}

impl MeasuredValueFloatInfo {
    pub fn new(ioa: InfoObjAddr, r: u32, qds: ObjectQDS, time: Option<Time2a>) -> (rr:
        MeasuredValueFloatInfo)
        ensures
            rr == (MeasuredValueFloatInfo { ioa, r, qds, time }),
    {
        MeasuredValueFloatInfo { ioa, r, qds, time }
    }
}

/// The three type identifications that carry short-float measured values.
pub open spec fn spec_mvf_family(tid: TypeID) -> bool {
    tid == TypeID::M_ME_NC_1 || tid == TypeID::M_ME_TC_1 || tid == TypeID::M_ME_TF_1
}

/// The payload one short-float element writes after its address.
pub open spec fn spec_mvf_payload(tid: TypeID, info: MeasuredValueFloatInfo) -> Seq<u8> {
    spec_u32_le(info.r as int) + seq![spec_qds_raw(info.qds)] + (if tid == TypeID::M_ME_TC_1 {
        match info.time {
            Some(t) => spec_cp24_bytes(t),
            None => Seq::empty(),
        }
    } else if tid == TypeID::M_ME_TF_1 {
        match info.time {
            Some(t) => spec_cp56_bytes(t),
            None => Seq::empty(),
        }
    } else {
        Seq::empty()
    })
}

/// The body bytes of a run of short-float elements.
pub open spec fn spec_mvf_elems(
    tid: TypeID,
    sq: bool,
    infos: Seq<MeasuredValueFloatInfo>,
    first: bool,
) -> Seq<u8>
    decreases infos.len(),
{
    if infos.len() == 0 {
        Seq::empty()
    } else {
        (if !sq || first {
            spec_ioa_bytes(infos[0].ioa)
        } else {
            Seq::empty()
        }) + spec_mvf_payload(tid, infos[0]) + spec_mvf_elems(tid, sq, infos.skip(1), false)
    }
}

/// The whole short-float body.
pub open spec fn spec_mvf_body(tid: TypeID, sq: bool, infos: Seq<MeasuredValueFloatInfo>) -> Seq<
    u8,
> {
    spec_mvf_elems(tid, sq, infos, true)
}

/// Parse `n` short-float elements from `pos`.
pub open spec fn spec_mvf_parse_rec(
    tid: TypeID,
    sq: bool,
    body: Seq<u8>,
    n: nat,
    pos: int,
    prev: InfoObjAddr,
    first: bool,
) -> Option<Seq<MeasuredValueFloatInfo>>
    decreases n, 1int,
{
    if n == 0 {
        Some(Seq::empty())
    } else if !sq || first {
        if pos + 3 <= body.len() {
            spec_mvf_parse_payload(
                tid,
                sq,
                body,
                n,
                pos + 3,
                spec_ioa_from(body[pos], body[pos + 1], body[pos + 2]),
            )
        } else {
            None
        }
    } else {
        spec_mvf_parse_payload(tid, sq, body, n, pos, spec_next_ioa(prev))
    }
}

/// Parse one short-float payload at `pos` and the elements after it.
pub open spec fn spec_mvf_parse_payload(
    tid: TypeID,
    sq: bool,
    body: Seq<u8>,
    n: nat,
    pos: int,
    ioa: InfoObjAddr,
) -> Option<Seq<MeasuredValueFloatInfo>>
    decreases n, 0int,
{
    if n == 0 {
        Some(Seq::empty())
    } else if pos + 5 <= body.len() {
        let rv = spec_u32_from(body[pos], body[pos + 1], body[pos + 2], body[pos + 3]);
        let qds = spec_qds_from(body[pos + 4]);
        let time = if tid == TypeID::M_ME_TC_1 && body.len() - (pos + 5) >= 3 {
            spec_cp24_placeholder(body[pos + 5], body[pos + 6], body[pos + 7])
        } else if tid == TypeID::M_ME_TF_1 && body.len() - (pos + 5) >= 7 {
            spec_cp56_from(body.subrange(pos + 5, pos + 12))
        } else {
            None
        };
        let consumed: int = if tid == TypeID::M_ME_TC_1 && body.len() - (pos + 5) >= 3 {
            8
        } else if tid == TypeID::M_ME_TF_1 && body.len() - (pos + 5) >= 7 {
            12
        } else {
            5
        };
        spec_prepend(
            seq![MeasuredValueFloatInfo { ioa, r: rv, qds, time }],
            spec_mvf_parse_rec(tid, sq, body, (n - 1) as nat, pos + consumed, ioa, false),
        )
    } else {
        None
    }
}

/// Parse a whole short-float body.
pub open spec fn spec_mvf_parse(tid: TypeID, sq: bool, n: nat, body: Seq<u8>) -> Option<
    Seq<MeasuredValueFloatInfo>,
> {
    spec_mvf_parse_rec(tid, sq, body, n, 0, (InfoObjAddr { res: 0, addr: 0 }), true)
}

/// A decoded run agrees with the parse specification, up to the CP24
/// clock-filled calendar fields.
pub open spec fn spec_mvf_agrees(
    tid: TypeID,
    s: Seq<MeasuredValueFloatInfo>,
    r: Seq<MeasuredValueFloatInfo>,
) -> bool {
    if tid == TypeID::M_ME_TC_1 {
        &&& r.len() == s.len()
        &&& forall|i: int|
            0 <= i < s.len() ==> (#[trigger] r[i]).ioa == s[i].ioa && r[i].r == s[i].r && r[i].qds
                == s[i].qds && spec_time24_agrees(s[i].time, r[i].time)
    } else {
        r == s
    }
}

impl Asdu {
    /// Read the short-float measured values of an ASDU whose type
    /// identification is one of the short-float types, or report the
    /// mismatch. Values come back as IEEE-754 bit patterns.
    #[verifier::rlimit(100)]
    #[verifier::spinoff_prover]
    pub fn get_measured_value_float(&self) -> (r: Result<Vec<MeasuredValueFloatInfo>, Error>)
        ensures
            !spec_mvf_family(self.identifier.type_id) ==> r == Err::<
                Vec<MeasuredValueFloatInfo>,
                Error,
            >(Error::ErrTypeIDNotMatch(self.identifier.type_id)),
            spec_mvf_family(self.identifier.type_id) ==> match r {
                Ok(infos) => match spec_mvf_parse(
                    self.identifier.type_id,
                    self.identifier.variable_struct.is_sequence,
                    self.identifier.variable_struct.number as nat,
                    self.raw@,
                ) {
                    Some(s) => spec_mvf_agrees(self.identifier.type_id, s, infos@),
                    None => false,
                },
                Err(e) => spec_mvf_parse(
                    self.identifier.type_id,
                    self.identifier.variable_struct.is_sequence,
                    self.identifier.variable_struct.number as nat,
                    self.raw@,
                ) is None && e == Error::ErrAsduTooShort,
            },
    {
        let tid = self.identifier.type_id;
        if !(matches!(tid, TypeID::M_ME_NC_1) || matches!(tid, TypeID::M_ME_TC_1) || matches!(
            tid,
            TypeID::M_ME_TF_1,
        )) {
            return Err(Error::ErrTypeIDNotMatch(tid));
        }
        let n: usize = self.identifier.variable_struct.number as usize;
        let sq = self.identifier.variable_struct.is_sequence;
        let len: usize = self.raw.len();
        let mut infos: Vec<MeasuredValueFloatInfo> = Vec::new();
        let ghost mut sinfos: Seq<MeasuredValueFloatInfo> = Seq::empty();
        let mut pos: usize = 0;
        let mut ioa = InfoObjAddr { res: 0, addr: 0 };
        let mut i: usize = 0;
        while i < n
            invariant
                spec_mvf_family(tid),
                tid == self.identifier.type_id,
                sq == self.identifier.variable_struct.is_sequence,
                n == self.identifier.variable_struct.number,
                len == self.raw@.len(),
                i <= n,
                pos <= len,
                infos@.len() == i,
                sinfos.len() == i,
                spec_mvf_agrees(tid, sinfos, infos@),
                spec_mvf_parse(tid, sq, n as nat, self.raw@) == spec_prepend(
                    sinfos,
                    spec_mvf_parse_rec(
                        tid,
                        sq,
                        self.raw@,
                        (n - i) as nat,
                        pos as int,
                        ioa,
                        i == 0,
                    ),
                ),
            decreases n - i,
        {
            if !sq || i == 0 {
                if len - pos < 3 {
                    return Err(Error::ErrAsduTooShort);
                }
                ioa = InfoObjAddr {
                    res: self.raw[pos + 2],
                    addr: self.raw[pos] as u16 + self.raw[pos + 1] as u16 * 256,
                };
                pos = pos + 3;
            } else {
                ioa = next_ioa(ioa);
            }
            if len - pos < 5 {
                return Err(Error::ErrAsduTooShort);
            }
            let rv = read_u32_le(&self.raw, pos);
            let qds = ObjectQDS::from_raw(self.raw[pos + 4]);
            let mut time: Option<Time2a> = None;
            let ghost mut stime: Option<Time2a> = None;
            let ghost pos_before = pos as int;
            if matches!(tid, TypeID::M_ME_TC_1) && len - (pos + 5) >= 3 {
                time = decode_cp24time2a(&self.raw, pos + 5);
                proof {
                    stime = spec_cp24_placeholder(
                        self.raw@[pos + 5],
                        self.raw@[pos + 6],
                        self.raw@[pos + 7],
                    );
                }
                pos = pos + 8;
            } else if matches!(tid, TypeID::M_ME_TF_1) && len - (pos + 5) >= 7 {
                time = decode_cp56time2a(&self.raw, pos + 5);
                proof {
                    stime = spec_cp56_from(self.raw@.subrange(pos_before + 5, pos_before + 12));
                }
                pos = pos + 12;
            } else {
                pos = pos + 5;
            }
            infos.push(MeasuredValueFloatInfo { ioa, r: rv, qds, time });
            proof {
                let selem = MeasuredValueFloatInfo { ioa, r: rv, qds, time: stime };
                let rest = spec_mvf_parse_rec(
                    tid,
                    sq,
                    self.raw@,
                    (n - i - 1) as nat,
                    pos as int,
                    ioa,
                    false,
                );
                assert(spec_prepend(sinfos, spec_prepend(seq![selem], rest)) == spec_prepend(
                    sinfos.push(selem),
                    rest,
                )) by {
                    if rest is Some {
                        assert(sinfos + (seq![selem] + rest->Some_0) =~= sinfos.push(selem)
                            + rest->Some_0);
                    }
                }
                sinfos = sinfos.push(selem);
            }
            i = i + 1;
        }
        Ok(infos)
    }
}

/// How many bytes one short-float payload takes.
pub open spec fn spec_mvf_payload_len(tid: TypeID) -> int {
    if tid == TypeID::M_ME_TC_1 {
        8
    } else if tid == TypeID::M_ME_TF_1 {
        12
    } else {
        5
    }
}

/// Every element's time is present where the type identification carries one.
pub open spec fn spec_mvf_times_given(tid: TypeID, infos: Seq<MeasuredValueFloatInfo>) -> bool {
    tid != TypeID::M_ME_NC_1 ==> forall|j: int|
        0 <= j < infos.len() ==> (#[trigger] infos[j]).time is Some
}

/// The body length of a run of short-float elements whose times are present.
pub proof fn lemma_mvf_elems_len(
    tid: TypeID,
    sq: bool,
    infos: Seq<MeasuredValueFloatInfo>,
    first: bool,
)
    requires
        spec_mvf_times_given(tid, infos),
    ensures
        spec_mvf_elems(tid, sq, infos, first).len() == if !sq {
            infos.len() * (3 + spec_mvf_payload_len(tid))
        } else {
            (if first && infos.len() > 0 {
                3int
            } else {
                0int
            }) + infos.len() * spec_mvf_payload_len(tid)
        },
    decreases infos.len(),
{
    if infos.len() > 0 {
        lemma_mvf_elems_len(tid, sq, infos.skip(1), false);
        let n = infos.len() as int;
        let l = spec_mvf_payload_len(tid);
        assert((n - 1) * (3 + l) + (3 + l) == n * (3 + l)) by (nonlinear_arith);
        assert((n - 1) * l + l == n * l) by (nonlinear_arith);
    } else {
        assert(infos.len() * (3 + spec_mvf_payload_len(tid)) == 0) by (nonlinear_arith)
            requires infos.len() == 0,
        ;
        assert(infos.len() * spec_mvf_payload_len(tid) == 0) by (nonlinear_arith)
            requires infos.len() == 0,
        ;
    }
}

/// `filled` is `orig` with every missing time written in.
pub open spec fn spec_mvf_filled(
    tid: TypeID,
    orig: Seq<MeasuredValueFloatInfo>,
    filled: Seq<MeasuredValueFloatInfo>,
) -> bool {
    &&& filled.len() == orig.len()
    &&& forall|j: int|
        0 <= j < orig.len() ==> {
            &&& (#[trigger] filled[j]).ioa == orig[j].ioa
            &&& filled[j].r == orig[j].r
            &&& filled[j].qds == orig[j].qds
            &&& (tid == TypeID::M_ME_NC_1 ==> filled[j].time == orig[j].time)
            &&& (tid != TypeID::M_ME_NC_1 ==> match orig[j].time {
                Some(t) => filled[j].time == Some(t),
                None => filled[j].time matches Some(t2) && t2.wf(),
            })
        }
}

/// Write the current time into every element that lacks one.
fn fill_times_mvf(tid: TypeID, infos: Vec<MeasuredValueFloatInfo>) -> (r: Vec<
    MeasuredValueFloatInfo,
>)
    ensures
        spec_mvf_filled(tid, infos@, r@),
        spec_mvf_times_given(tid, r@),
{
    if matches!(tid, TypeID::M_ME_NC_1) {
        return infos;
    }
    let mut r: Vec<MeasuredValueFloatInfo> = Vec::new();
    let mut i: usize = 0;
    while i < infos.len()
        invariant
            i <= infos@.len(),
            r@.len() == i,
            tid != TypeID::M_ME_NC_1,
            forall|j: int|
                0 <= j < i ==> {
                    &&& (#[trigger] r@[j]).ioa == infos@[j].ioa
                    &&& r@[j].r == infos@[j].r
                    &&& r@[j].qds == infos@[j].qds
                    &&& (match infos@[j].time {
                        Some(t) => r@[j].time == Some(t),
                        None => r@[j].time matches Some(t2) && t2.wf(),
                    })
                },
        decreases infos@.len() - i,
    {
        let info = infos[i];
        match info.time {
            Some(_) => r.push(info),
            None => {
                let now = current_time2a();
                r.push(
                    MeasuredValueFloatInfo {
                        ioa: info.ioa,
                        r: info.r,
                        qds: info.qds,
                        time: Some(now),
                    },
                );
            },
        }
        i = i + 1;
    }
    r
}

/// Serialize a run of short-float elements.
#[verifier::rlimit(100)]
#[verifier::spinoff_prover]
fn encode_mvf_body(tid: TypeID, sq: bool, infos: &Vec<MeasuredValueFloatInfo>) -> (r: Vec<u8>)
    requires
        spec_mvf_family(tid),
        spec_mvf_times_given(tid, infos@),
        forall|j: int| 0 <= j < infos@.len() ==> (#[trigger] infos@[j]).qds.wf(),
        tid != TypeID::M_ME_NC_1 ==> forall|j: int|
            0 <= j < infos@.len() ==> ((#[trigger] infos@[j]).time matches Some(t) ==> t.wf()),
    ensures
        r@ == spec_mvf_body(tid, sq, infos@),
{
    let mut buf: Vec<u8> = Vec::new();
    proof {
        assert(infos@.skip(0) =~= infos@);
        assert(buf@ + spec_mvf_elems(tid, sq, infos@, true) =~= spec_mvf_elems(
            tid,
            sq,
            infos@,
            true,
        ));
    }
    let mut i: usize = 0;
    while i < infos.len()
        invariant
            i <= infos@.len(),
            spec_mvf_family(tid),
            spec_mvf_times_given(tid, infos@),
            forall|j: int| 0 <= j < infos@.len() ==> (#[trigger] infos@[j]).qds.wf(),
            tid != TypeID::M_ME_NC_1 ==> forall|j: int|
                0 <= j < infos@.len() ==> ((#[trigger] infos@[j]).time matches Some(t) ==> t.wf()),
            spec_mvf_body(tid, sq, infos@) == buf@ + spec_mvf_elems(
                tid,
                sq,
                infos@.skip(i as int),
                i == 0,
            ),
        decreases infos@.len() - i,
    {
        let info = infos[i];
        let ghost before = buf@;
        if !sq || i == 0 {
            buf.push((info.ioa.addr % 256) as u8);
            buf.push((info.ioa.addr / 256) as u8);
            buf.push(info.ioa.res);
        }
        push_u32_le(&mut buf, info.r);
        buf.push(info.qds.raw());
        if matches!(tid, TypeID::M_ME_TC_1) {
            match info.time {
                Some(t) => {
                    let tb = cp24time2a(t);
                    crate::csys::append_bytes(&mut buf, &tb);
                },
                None => {},
            }
        } else if matches!(tid, TypeID::M_ME_TF_1) {
            match info.time {
                Some(t) => {
                    let tb = cp56time2a(t);
                    crate::csys::append_bytes(&mut buf, &tb);
                },
                None => {},
            }
        }
        proof {
            assert(infos@.skip(i as int)[0] == info);
            assert(buf@ =~= before + ((if !sq || i == 0 {
                spec_ioa_bytes(info.ioa)
            } else {
                Seq::<u8>::empty()
            }) + spec_mvf_payload(tid, info)));
            assert(infos@.skip(i as int).skip(1) =~= infos@.skip(i + 1));
            assert(spec_mvf_body(tid, sq, infos@) == buf@ + spec_mvf_elems(
                tid,
                sq,
                infos@.skip(i + 1),
                false,
            ));
        }
        i = i + 1;
    }
    proof {
        assert(infos@.skip(infos@.len() as int) =~= Seq::<MeasuredValueFloatInfo>::empty());
        assert(buf@ =~= spec_mvf_body(tid, sq, infos@));
    }
    buf
}

/// Build a short-float ASDU of the given type.
fn mvf_asdu(
    tid: TypeID,
    sq: bool,
    cot: CauseOfTransmission,
    ca: CommonAddr,
    infos: Vec<MeasuredValueFloatInfo>,
) -> (r: Asdu)
    requires
        spec_mvf_family(tid),
        infos@.len() <= 127,
        !sq ==> infos@.len() * (3 + spec_mvf_payload_len(tid)) <= ASDU_BODY_SIZE_MAX,
        sq ==> 3 + infos@.len() * spec_mvf_payload_len(tid) <= ASDU_BODY_SIZE_MAX,
        forall|j: int| 0 <= j < infos@.len() ==> (#[trigger] infos@[j]).qds.wf(),
        tid != TypeID::M_ME_NC_1 ==> forall|j: int|
            0 <= j < infos@.len() ==> ((#[trigger] infos@[j]).time matches Some(t) ==> t.wf()),
    ensures
        r.identifier == spec_mon_identifier(tid, sq, infos@.len() as int, cot, ca),
        r.wf(),
        exists|filled: Seq<MeasuredValueFloatInfo>|
            #[trigger] spec_mvf_filled(tid, infos@, filled) && r.raw@ == spec_mvf_body(
                tid,
                sq,
                filled,
            ),
        spec_mvf_times_given(tid, infos@) ==> r.raw@ == spec_mvf_body(tid, sq, infos@),
{
    let n = infos.len();
    let ghost orig = infos@;
    let filled = fill_times_mvf(tid, infos);
    let buf = encode_mvf_body(tid, sq, &filled);
    proof {
        lemma_mvf_elems_len(tid, sq, filled@, true);
        assert(spec_mvf_filled(tid, orig, filled@) && buf@ == spec_mvf_body(tid, sq, filled@));
        if spec_mvf_times_given(tid, orig) {
            assert forall|j: int| 0 <= j < orig.len() implies filled@[j] == orig[j] by {}
            assert(filled@ =~= orig);
        }
    }
    Asdu {
        identifier: Identifier {
            type_id: tid,
            variable_struct: VariableStruct::new(sq, n as u8),
            cot,
            orig_addr: 0,
            common_addr: ca,
        },
        raw: buf,
    }
}

/// Build an M_ME_NC_1 ASDU: untagged short-float measured values.
pub fn measured_value_float(
    is_sequence: bool,
    cot: CauseOfTransmission,
    ca: CommonAddr,
    infos: Vec<MeasuredValueFloatInfo>,
) -> (r: Result<Asdu, Error>)
    requires
        infos@.len() <= 30,
        forall|j: int| 0 <= j < infos@.len() ==> (#[trigger] infos@[j]).qds.wf(),
    ensures
        !spec_cause_mon_measured(cot.cause) ==> r == Err::<Asdu, Error>(Error::ErrCmdCause(cot)),
        spec_cause_mon_measured(cot.cause) ==> match r {
            Ok(a) => {
                &&& a.identifier == spec_mon_identifier(
                    TypeID::M_ME_NC_1,
                    is_sequence,
                    infos@.len() as int,
                    cot,
                    ca,
                )
                &&& a.raw@ == spec_mvf_body(TypeID::M_ME_NC_1, is_sequence, infos@)
                &&& a.wf()
            },
            Err(_) => false,
        },
{
    let c = cot.cause.to_u8();
    if !(c == 1 || c == 2 || c == 3 || c == 5 || (20 <= c && c <= 36)) {
        return Err(Error::ErrCmdCause(cot));
    }
    proof {
        assert(infos@.len() * (3 + spec_mvf_payload_len(TypeID::M_ME_NC_1)) <= 30 * 8)
            by (nonlinear_arith)
            requires infos@.len() <= 30,
        ;
        assert(infos@.len() * spec_mvf_payload_len(TypeID::M_ME_NC_1) <= 30 * 5)
            by (nonlinear_arith)
            requires infos@.len() <= 30,
        ;
    }
    Ok(mvf_asdu(TypeID::M_ME_NC_1, is_sequence, cot, ca, infos))
}

/// Build an M_ME_TC_1 ASDU: short-float measured values with CP24Time2a
/// tags. Elements without a time get the current time.
pub fn measured_value_float_cp24time2a(
    cot: CauseOfTransmission,
    ca: CommonAddr,
    infos: Vec<MeasuredValueFloatInfo>,
) -> (r: Result<Asdu, Error>)
    requires
        infos@.len() <= 22,
        forall|j: int| 0 <= j < infos@.len() ==> (#[trigger] infos@[j]).qds.wf(),
        forall|j: int|
            0 <= j < infos@.len() ==> ((#[trigger] infos@[j]).time matches Some(t) ==> t.wf()),
    ensures
        !spec_cause_mon_measured_timed(cot.cause) ==> r == Err::<Asdu, Error>(
            Error::ErrCmdCause(cot),
        ),
        spec_cause_mon_measured_timed(cot.cause) ==> match r {
            Ok(a) => {
                &&& a.identifier == spec_mon_identifier(
                    TypeID::M_ME_TC_1,
                    false,
                    infos@.len() as int,
                    cot,
                    ca,
                )
                &&& a.wf()
                &&& exists|filled: Seq<MeasuredValueFloatInfo>|
                    #[trigger] spec_mvf_filled(TypeID::M_ME_TC_1, infos@, filled) && a.raw@
                        == spec_mvf_body(TypeID::M_ME_TC_1, false, filled)
                &&& spec_mvf_times_given(TypeID::M_ME_TC_1, infos@) ==> a.raw@ == spec_mvf_body(
                    TypeID::M_ME_TC_1,
                    false,
                    infos@,
                )
            },
            Err(_) => false,
        },
{
    let c = cot.cause.to_u8();
    if !(c == 3 || c == 5) {
        return Err(Error::ErrCmdCause(cot));
    }
    proof {
        assert(infos@.len() * (3 + spec_mvf_payload_len(TypeID::M_ME_TC_1)) <= 22 * 11)
            by (nonlinear_arith)
            requires infos@.len() <= 22,
        ;
    }
    Ok(mvf_asdu(TypeID::M_ME_TC_1, false, cot, ca, infos))
}

/// Build an M_ME_TF_1 ASDU: short-float measured values with CP56Time2a
/// tags. Elements without a time get the current time.
pub fn measured_value_float_cp56time2a(
    cot: CauseOfTransmission,
    ca: CommonAddr,
    infos: Vec<MeasuredValueFloatInfo>,
) -> (r: Result<Asdu, Error>)
    requires
        infos@.len() <= 16,
        forall|j: int| 0 <= j < infos@.len() ==> (#[trigger] infos@[j]).qds.wf(),
        forall|j: int|
            0 <= j < infos@.len() ==> ((#[trigger] infos@[j]).time matches Some(t) ==> t.wf()),
    ensures
        !spec_cause_mon_measured_timed(cot.cause) ==> r == Err::<Asdu, Error>(
            Error::ErrCmdCause(cot),
        ),
        spec_cause_mon_measured_timed(cot.cause) ==> match r {
            Ok(a) => {
                &&& a.identifier == spec_mon_identifier(
                    TypeID::M_ME_TF_1,
                    false,
                    infos@.len() as int,
                    cot,
                    ca,
                )
                &&& a.wf()
                &&& exists|filled: Seq<MeasuredValueFloatInfo>|
                    #[trigger] spec_mvf_filled(TypeID::M_ME_TF_1, infos@, filled) && a.raw@
                        == spec_mvf_body(TypeID::M_ME_TF_1, false, filled)
                &&& spec_mvf_times_given(TypeID::M_ME_TF_1, infos@) ==> a.raw@ == spec_mvf_body(
                    TypeID::M_ME_TF_1,
                    false,
                    infos@,
                )
            },
            Err(_) => false,
        },
{
    let c = cot.cause.to_u8();
    if !(c == 3 || c == 5) {
        return Err(Error::ErrCmdCause(cot));
    }
    proof {
        assert(infos@.len() * (3 + spec_mvf_payload_len(TypeID::M_ME_TF_1)) <= 16 * 15)
            by (nonlinear_arith)
            requires infos@.len() <= 16,
        ;
    }
    Ok(mvf_asdu(TypeID::M_ME_TF_1, false, cot, ca, infos))
}

} // verus!

// The integrated-totals family: binary counter readings.
verus! {

/// A binary counter reading with its object address and optional time.
#[derive(Debug, Clone, Copy, PartialEq)]
pub struct BinaryCounterReadingInfo {
    pub ioa: InfoObjAddr,
    pub bcr: ObjectBCR,
    pub time: Option<Time2a>,
}

impl BinaryCounterReadingInfo {
    pub fn new(ioa: InfoObjAddr, bcr: ObjectBCR, time: Option<Time2a>) -> (r:
        BinaryCounterReadingInfo)
        ensures
            r == (BinaryCounterReadingInfo { ioa, bcr, time }),
    {
        BinaryCounterReadingInfo { ioa, bcr, time }
    }
}

/// The three type identifications that carry integrated totals.
pub open spec fn spec_it_family(tid: TypeID) -> bool {
    tid == TypeID::M_IT_NA_1 || tid == TypeID::M_IT_TA_1 || tid == TypeID::M_IT_TB_1
}

/// The payload one counter reading writes after its address: the count,
/// little-endian, then the flags octet, then the time tag.
pub open spec fn spec_it_payload(tid: TypeID, info: BinaryCounterReadingInfo) -> Seq<u8> {
    spec_i32_le(info.bcr.value) + seq![spec_bcr_flags(info.bcr)] + (if tid == TypeID::M_IT_TA_1 {
        match info.time {
            Some(t) => spec_cp24_bytes(t),
            None => Seq::empty(),
        }
    } else if tid == TypeID::M_IT_TB_1 {
        match info.time {
            Some(t) => spec_cp56_bytes(t),
            None => Seq::empty(),
        }
    } else {
        Seq::empty()
    })
}

/// The body bytes of a run of counter readings.
pub open spec fn spec_it_elems(
    tid: TypeID,
    sq: bool,
    infos: Seq<BinaryCounterReadingInfo>,
    first: bool,
) -> Seq<u8>
    decreases infos.len(),
{
    if infos.len() == 0 {
        Seq::empty()
    } else {
        (if !sq || first {
            spec_ioa_bytes(infos[0].ioa)
        } else {
            Seq::empty()
        }) + spec_it_payload(tid, infos[0]) + spec_it_elems(tid, sq, infos.skip(1), false)
    }
}

/// The whole counter-reading body.
pub open spec fn spec_it_body(tid: TypeID, sq: bool, infos: Seq<BinaryCounterReadingInfo>) -> Seq<
    u8,
> {
    spec_it_elems(tid, sq, infos, true)
}

/// Parse `n` counter readings from `pos`.
pub open spec fn spec_it_parse_rec(
    tid: TypeID,
    sq: bool,
    body: Seq<u8>,
    n: nat,
    pos: int,
    prev: InfoObjAddr,
    first: bool,
) -> Option<Seq<BinaryCounterReadingInfo>>
    decreases n, 1int,
{
    if n == 0 {
        Some(Seq::empty())
    } else if !sq || first {
        if pos + 3 <= body.len() {
            spec_it_parse_payload(
                tid,
                sq,
                body,
                n,
                pos + 3,
                spec_ioa_from(body[pos], body[pos + 1], body[pos + 2]),
            )
        } else {
            None
        }
    } else {
        spec_it_parse_payload(tid, sq, body, n, pos, spec_next_ioa(prev))
    }
}

/// Parse one counter-reading payload at `pos` and the elements after it.
pub open spec fn spec_it_parse_payload(
    tid: TypeID,
    sq: bool,
    body: Seq<u8>,
    n: nat,
    pos: int,
    ioa: InfoObjAddr,
) -> Option<Seq<BinaryCounterReadingInfo>>
    decreases n, 0int,
{
    if n == 0 {
        Some(Seq::empty())
    } else if pos + 5 <= body.len() {
        let value = spec_i32_from(body[pos], body[pos + 1], body[pos + 2], body[pos + 3]);
        let bcr = spec_bcr_from_flags(body[pos + 4], value);
        let time = if tid == TypeID::M_IT_TA_1 && body.len() - (pos + 5) >= 3 {
            spec_cp24_placeholder(body[pos + 5], body[pos + 6], body[pos + 7])
        } else if tid == TypeID::M_IT_TB_1 && body.len() - (pos + 5) >= 7 {
            spec_cp56_from(body.subrange(pos + 5, pos + 12))
        } else {
            None
        };
        let consumed: int = if tid == TypeID::M_IT_TA_1 && body.len() - (pos + 5) >= 3 {
            8
        } else if tid == TypeID::M_IT_TB_1 && body.len() - (pos + 5) >= 7 {
            12
        } else {
            5
        };
        spec_prepend(
            seq![BinaryCounterReadingInfo { ioa, bcr, time }],
            spec_it_parse_rec(tid, sq, body, (n - 1) as nat, pos + consumed, ioa, false),
        )
    } else {
        None
    }
}

/// Parse a whole counter-reading body.
pub open spec fn spec_it_parse(tid: TypeID, sq: bool, n: nat, body: Seq<u8>) -> Option<
    Seq<BinaryCounterReadingInfo>,
> {
    spec_it_parse_rec(tid, sq, body, n, 0, (InfoObjAddr { res: 0, addr: 0 }), true)
}

/// A decoded run agrees with the parse specification, up to the CP24
/// clock-filled calendar fields.
pub open spec fn spec_it_agrees(
    tid: TypeID,
    s: Seq<BinaryCounterReadingInfo>,
    r: Seq<BinaryCounterReadingInfo>,
) -> bool {
    if tid == TypeID::M_IT_TA_1 {
        &&& r.len() == s.len()
        &&& forall|i: int|
            0 <= i < s.len() ==> (#[trigger] r[i]).ioa == s[i].ioa && r[i].bcr == s[i].bcr
                && spec_time24_agrees(s[i].time, r[i].time)
    } else {
        r == s
    }
}

impl Asdu {
    /// Read the binary counter readings of an ASDU whose type identification
    /// is one of the integrated-totals types, or report the mismatch.
    #[verifier::rlimit(100)]
    #[verifier::spinoff_prover]
    pub fn get_integrated_totals(&self) -> (r: Result<Vec<BinaryCounterReadingInfo>, Error>)
        ensures
            !spec_it_family(self.identifier.type_id) ==> r == Err::<
                Vec<BinaryCounterReadingInfo>,
                Error,
            >(Error::ErrTypeIDNotMatch(self.identifier.type_id)),
            spec_it_family(self.identifier.type_id) ==> match r {
                Ok(infos) => match spec_it_parse(
                    self.identifier.type_id,
                    self.identifier.variable_struct.is_sequence,
                    self.identifier.variable_struct.number as nat,
                    self.raw@,
                ) {
                    Some(s) => spec_it_agrees(self.identifier.type_id, s, infos@),
                    None => false,
                },
                Err(e) => spec_it_parse(
                    self.identifier.type_id,
                    self.identifier.variable_struct.is_sequence,
                    self.identifier.variable_struct.number as nat,
                    self.raw@,
                ) is None && e == Error::ErrAsduTooShort,
            },
    {
        let tid = self.identifier.type_id;
        if !(matches!(tid, TypeID::M_IT_NA_1) || matches!(tid, TypeID::M_IT_TA_1) || matches!(
            tid,
            TypeID::M_IT_TB_1,
        )) {
            return Err(Error::ErrTypeIDNotMatch(tid));
        }
        let n: usize = self.identifier.variable_struct.number as usize;
        let sq = self.identifier.variable_struct.is_sequence;
        let len: usize = self.raw.len();
        let mut infos: Vec<BinaryCounterReadingInfo> = Vec::new();
        let ghost mut sinfos: Seq<BinaryCounterReadingInfo> = Seq::empty();
        let mut pos: usize = 0;
        let mut ioa = InfoObjAddr { res: 0, addr: 0 };
        let mut i: usize = 0;
        while i < n
            invariant
                spec_it_family(tid),
                tid == self.identifier.type_id,
                sq == self.identifier.variable_struct.is_sequence,
                n == self.identifier.variable_struct.number,
                len == self.raw@.len(),
                i <= n,
                pos <= len,
                infos@.len() == i,
                sinfos.len() == i,
                spec_it_agrees(tid, sinfos, infos@),
                spec_it_parse(tid, sq, n as nat, self.raw@) == spec_prepend(
                    sinfos,
                    spec_it_parse_rec(
                        tid,
                        sq,
                        self.raw@,
                        (n - i) as nat,
                        pos as int,
                        ioa,
                        i == 0,
                    ),
                ),
            decreases n - i,
        {
            if !sq || i == 0 {
                if len - pos < 3 {
                    return Err(Error::ErrAsduTooShort);
                }
                ioa = InfoObjAddr {
                    res: self.raw[pos + 2],
                    addr: self.raw[pos] as u16 + self.raw[pos + 1] as u16 * 256,
                };
                pos = pos + 3;
            } else {
                ioa = next_ioa(ioa);
            }
            if len - pos < 5 {
                return Err(Error::ErrAsduTooShort);
            }
            let value = read_i32_le(&self.raw, pos);
            let b = self.raw[pos + 4];
            let bcr = ObjectBCR {
                invalid: b / 128 == 1,
                ca: b / 64 % 2 == 1,
                cy: b / 32 % 2 == 1,
                seq: b % 32,
                value,
            };
            let mut time: Option<Time2a> = None;
            let ghost mut stime: Option<Time2a> = None;
            let ghost pos_before = pos as int;
            if matches!(tid, TypeID::M_IT_TA_1) && len - (pos + 5) >= 3 {
                time = decode_cp24time2a(&self.raw, pos + 5);
                proof {
                    stime = spec_cp24_placeholder(
                        self.raw@[pos + 5],
                        self.raw@[pos + 6],
                        self.raw@[pos + 7],
                    );
                }
                pos = pos + 8;
            } else if matches!(tid, TypeID::M_IT_TB_1) && len - (pos + 5) >= 7 {
                time = decode_cp56time2a(&self.raw, pos + 5);
                proof {
                    stime = spec_cp56_from(self.raw@.subrange(pos_before + 5, pos_before + 12));
                }
                pos = pos + 12;
            } else {
                pos = pos + 5;
            }
            infos.push(BinaryCounterReadingInfo { ioa, bcr, time });
            proof {
                let selem = BinaryCounterReadingInfo { ioa, bcr, time: stime };
                let rest = spec_it_parse_rec(
                    tid,
                    sq,
                    self.raw@,
                    (n - i - 1) as nat,
                    pos as int,
                    ioa,
                    false,
                );
                assert(spec_prepend(sinfos, spec_prepend(seq![selem], rest)) == spec_prepend(
                    sinfos.push(selem),
                    rest,
                )) by {
                    if rest is Some {
                        assert(sinfos + (seq![selem] + rest->Some_0) =~= sinfos.push(selem)
                            + rest->Some_0);
                    }
                }
                sinfos = sinfos.push(selem);
            }
            i = i + 1;
        }
        Ok(infos)
    }
}

/// How many bytes one counter-reading payload takes.
pub open spec fn spec_it_payload_len(tid: TypeID) -> int {
    if tid == TypeID::M_IT_TA_1 {
        8
    } else if tid == TypeID::M_IT_TB_1 {
        12
    } else {
        5
    }
}

/// Every element's time is present where the type identification carries one.
pub open spec fn spec_it_times_given(tid: TypeID, infos: Seq<BinaryCounterReadingInfo>) -> bool {
    tid != TypeID::M_IT_NA_1 ==> forall|j: int|
        0 <= j < infos.len() ==> (#[trigger] infos[j]).time is Some
}

/// The body length of a run of counter readings whose times are present.
pub proof fn lemma_it_elems_len(
    tid: TypeID,
    sq: bool,
    infos: Seq<BinaryCounterReadingInfo>,
    first: bool,
)
    requires
        spec_it_times_given(tid, infos),
    ensures
        spec_it_elems(tid, sq, infos, first).len() == if !sq {
            infos.len() * (3 + spec_it_payload_len(tid))
        } else {
            (if first && infos.len() > 0 {
                3int
            } else {
                0int
            }) + infos.len() * spec_it_payload_len(tid)
        },
    decreases infos.len(),
{
    if infos.len() > 0 {
        lemma_it_elems_len(tid, sq, infos.skip(1), false);
        let n = infos.len() as int;
        let l = spec_it_payload_len(tid);
        assert((n - 1) * (3 + l) + (3 + l) == n * (3 + l)) by (nonlinear_arith);
        assert((n - 1) * l + l == n * l) by (nonlinear_arith);
    } else {
        assert(infos.len() * (3 + spec_it_payload_len(tid)) == 0) by (nonlinear_arith)
            requires infos.len() == 0,
        ;
        assert(infos.len() * spec_it_payload_len(tid) == 0) by (nonlinear_arith)
            requires infos.len() == 0,
        ;
    }
}

/// `filled` is `orig` with every missing time written in.
pub open spec fn spec_it_filled(
    tid: TypeID,
    orig: Seq<BinaryCounterReadingInfo>,
    filled: Seq<BinaryCounterReadingInfo>,
) -> bool {
    &&& filled.len() == orig.len()
    &&& forall|j: int|
        0 <= j < orig.len() ==> {
            &&& (#[trigger] filled[j]).ioa == orig[j].ioa
            &&& filled[j].bcr == orig[j].bcr
            &&& (tid == TypeID::M_IT_NA_1 ==> filled[j].time == orig[j].time)
            &&& (tid != TypeID::M_IT_NA_1 ==> match orig[j].time {
                Some(t) => filled[j].time == Some(t),
                None => filled[j].time matches Some(t2) && t2.wf(),
            })
        }
}

/// Write the current time into every element that lacks one.
fn fill_times_it(tid: TypeID, infos: Vec<BinaryCounterReadingInfo>) -> (r: Vec<
    BinaryCounterReadingInfo,
>)
    ensures
        spec_it_filled(tid, infos@, r@),
        spec_it_times_given(tid, r@),
{
    if matches!(tid, TypeID::M_IT_NA_1) {
        return infos;
    }
    let mut r: Vec<BinaryCounterReadingInfo> = Vec::new();
    let mut i: usize = 0;
    while i < infos.len()
        invariant
            i <= infos@.len(),
            r@.len() == i,
            tid != TypeID::M_IT_NA_1,
            forall|j: int|
                0 <= j < i ==> {
                    &&& (#[trigger] r@[j]).ioa == infos@[j].ioa
                    &&& r@[j].bcr == infos@[j].bcr
                    &&& (match infos@[j].time {
                        Some(t) => r@[j].time == Some(t),
                        None => r@[j].time matches Some(t2) && t2.wf(),
                    })
                },
        decreases infos@.len() - i,
    {
        let info = infos[i];
        match info.time {
            Some(_) => r.push(info),
            None => {
                let now = current_time2a();
                r.push(BinaryCounterReadingInfo { ioa: info.ioa, bcr: info.bcr, time: Some(now) });
            },
        }
        i = i + 1;
    }
    r
}

/// Serialize a run of counter readings.
#[verifier::rlimit(100)]
#[verifier::spinoff_prover]
fn encode_it_body(tid: TypeID, sq: bool, infos: &Vec<BinaryCounterReadingInfo>) -> (r: Vec<u8>)
    requires
        spec_it_family(tid),
        spec_it_times_given(tid, infos@),
        forall|j: int| 0 <= j < infos@.len() ==> (#[trigger] infos@[j]).bcr.wf(),
        tid != TypeID::M_IT_NA_1 ==> forall|j: int|
            0 <= j < infos@.len() ==> ((#[trigger] infos@[j]).time matches Some(t) ==> t.wf()),
    ensures
        r@ == spec_it_body(tid, sq, infos@),
{
    let mut buf: Vec<u8> = Vec::new();
    proof {
        assert(infos@.skip(0) =~= infos@);
        assert(buf@ + spec_it_elems(tid, sq, infos@, true) =~= spec_it_elems(tid, sq, infos@, true));
    }
    let mut i: usize = 0;
    while i < infos.len()
        invariant
            i <= infos@.len(),
            spec_it_family(tid),
            spec_it_times_given(tid, infos@),
            forall|j: int| 0 <= j < infos@.len() ==> (#[trigger] infos@[j]).bcr.wf(),
            tid != TypeID::M_IT_NA_1 ==> forall|j: int|
                0 <= j < infos@.len() ==> ((#[trigger] infos@[j]).time matches Some(t) ==> t.wf()),
            spec_it_body(tid, sq, infos@) == buf@ + spec_it_elems(
                tid,
                sq,
                infos@.skip(i as int),
                i == 0,
            ),
        decreases infos@.len() - i,
    {
        let info = infos[i];
        let ghost before = buf@;
        if !sq || i == 0 {
            buf.push((info.ioa.addr % 256) as u8);
            buf.push((info.ioa.addr / 256) as u8);
            buf.push(info.ioa.res);
        }
        push_i32_le(&mut buf, info.bcr.value);
        let inv: u8 = if info.bcr.invalid { 128 } else { 0 };
        let cab: u8 = if info.bcr.ca { 64 } else { 0 };
        let cyb: u8 = if info.bcr.cy { 32 } else { 0 };
        buf.push(inv + cab + cyb + info.bcr.seq);
        if matches!(tid, TypeID::M_IT_TA_1) {
            match info.time {
                Some(t) => {
                    let tb = cp24time2a(t);
                    crate::csys::append_bytes(&mut buf, &tb);
                },
                None => {},
            }
        } else if matches!(tid, TypeID::M_IT_TB_1) {
            match info.time {
                Some(t) => {
                    let tb = cp56time2a(t);
                    crate::csys::append_bytes(&mut buf, &tb);
                },
                None => {},
            }
        }
        proof {
            assert(infos@.skip(i as int)[0] == info);
            assert(buf@ =~= before + ((if !sq || i == 0 {
                spec_ioa_bytes(info.ioa)
            } else {
                Seq::<u8>::empty()
            }) + spec_it_payload(tid, info)));
            assert(infos@.skip(i as int).skip(1) =~= infos@.skip(i + 1));
            assert(spec_it_body(tid, sq, infos@) == buf@ + spec_it_elems(
                tid,
                sq,
                infos@.skip(i + 1),
                false,
            ));
        }
        i = i + 1;
    }
    proof {
        assert(infos@.skip(infos@.len() as int) =~= Seq::<BinaryCounterReadingInfo>::empty());
        assert(buf@ =~= spec_it_body(tid, sq, infos@));
    }
    buf
}

/// Build an integrated-totals ASDU of the given type.
fn it_asdu(
    tid: TypeID,
    sq: bool,
    cot: CauseOfTransmission,
    ca: CommonAddr,
    infos: Vec<BinaryCounterReadingInfo>,
) -> (r: Asdu)
    requires
        spec_it_family(tid),
        infos@.len() <= 127,
        !sq ==> infos@.len() * (3 + spec_it_payload_len(tid)) <= ASDU_BODY_SIZE_MAX,
        sq ==> 3 + infos@.len() * spec_it_payload_len(tid) <= ASDU_BODY_SIZE_MAX,
        forall|j: int| 0 <= j < infos@.len() ==> (#[trigger] infos@[j]).bcr.wf(),
        tid != TypeID::M_IT_NA_1 ==> forall|j: int|
            0 <= j < infos@.len() ==> ((#[trigger] infos@[j]).time matches Some(t) ==> t.wf()),
    ensures
        r.identifier == spec_mon_identifier(tid, sq, infos@.len() as int, cot, ca),
        r.wf(),
        exists|filled: Seq<BinaryCounterReadingInfo>|
            #[trigger] spec_it_filled(tid, infos@, filled) && r.raw@ == spec_it_body(
                tid,
                sq,
                filled,
            ),
        spec_it_times_given(tid, infos@) ==> r.raw@ == spec_it_body(tid, sq, infos@),
{
    let n = infos.len();
    let ghost orig = infos@;
    let filled = fill_times_it(tid, infos);
    let buf = encode_it_body(tid, sq, &filled);
    proof {
        lemma_it_elems_len(tid, sq, filled@, true);
        assert(spec_it_filled(tid, orig, filled@) && buf@ == spec_it_body(tid, sq, filled@));
        if spec_it_times_given(tid, orig) {
            assert forall|j: int| 0 <= j < orig.len() implies filled@[j] == orig[j] by {}
            assert(filled@ =~= orig);
        }
    }
    Asdu {
        identifier: Identifier {
            type_id: tid,
            variable_struct: VariableStruct::new(sq, n as u8),
            cot,
            orig_addr: 0,
            common_addr: ca,
        },
        raw: buf,
    }
}

/// The causes an integrated-totals ASDU allows: spontaneous, or any
/// interrogation or counter-interrogation answer (cause numbers 20 to 41).
pub open spec fn spec_cause_integrated(c: Cause) -> bool {
    c.spec_u8() == 3 || 20 <= c.spec_u8() <= 41
}

/// Build an M_IT_NA_1 ASDU: untagged integrated totals.
pub fn integrated_totals(
    cot: CauseOfTransmission,
    ca: CommonAddr,
    infos: Vec<BinaryCounterReadingInfo>,
) -> (r: Result<Asdu, Error>)
    requires
        infos@.len() <= 30,
        forall|j: int| 0 <= j < infos@.len() ==> (#[trigger] infos@[j]).bcr.wf(),
    ensures
        !spec_cause_integrated(cot.cause) ==> r == Err::<Asdu, Error>(Error::ErrCmdCause(cot)),
        spec_cause_integrated(cot.cause) ==> match r {
            Ok(a) => {
                &&& a.identifier == spec_mon_identifier(
                    TypeID::M_IT_NA_1,
                    false,
                    infos@.len() as int,
                    cot,
                    ca,
                )
                &&& a.raw@ == spec_it_body(TypeID::M_IT_NA_1, false, infos@)
                &&& a.wf()
            },
            Err(_) => false,
        },
{
    let c = cot.cause.to_u8();
    if !(c == 3 || (20 <= c && c <= 41)) {
        return Err(Error::ErrCmdCause(cot));
    }
    proof {
        assert(infos@.len() * (3 + spec_it_payload_len(TypeID::M_IT_NA_1)) <= 30 * 8)
            by (nonlinear_arith)
            requires infos@.len() <= 30,
        ;
    }
    Ok(it_asdu(TypeID::M_IT_NA_1, false, cot, ca, infos))
}

/// Build an M_IT_TA_1 ASDU: integrated totals with CP24Time2a tags.
/// Elements without a time get the current time.
pub fn integrated_totals_cp24time2a(
    cot: CauseOfTransmission,
    ca: CommonAddr,
    infos: Vec<BinaryCounterReadingInfo>,
) -> (r: Result<Asdu, Error>)
    requires
        infos@.len() <= 22,
        forall|j: int| 0 <= j < infos@.len() ==> (#[trigger] infos@[j]).bcr.wf(),
        forall|j: int|
            0 <= j < infos@.len() ==> ((#[trigger] infos@[j]).time matches Some(t) ==> t.wf()),
    ensures
        !spec_cause_integrated(cot.cause) ==> r == Err::<Asdu, Error>(Error::ErrCmdCause(cot)),
        spec_cause_integrated(cot.cause) ==> match r {
            Ok(a) => {
                &&& a.identifier == spec_mon_identifier(
                    TypeID::M_IT_TA_1,
                    false,
                    infos@.len() as int,
                    cot,
                    ca,
                )
                &&& a.wf()
                &&& exists|filled: Seq<BinaryCounterReadingInfo>|
                    #[trigger] spec_it_filled(TypeID::M_IT_TA_1, infos@, filled) && a.raw@
                        == spec_it_body(TypeID::M_IT_TA_1, false, filled)
                &&& spec_it_times_given(TypeID::M_IT_TA_1, infos@) ==> a.raw@ == spec_it_body(
                    TypeID::M_IT_TA_1,
                    false,
                    infos@,
                )
            },
            Err(_) => false,
        },
{
    let c = cot.cause.to_u8();
    if !(c == 3 || (20 <= c && c <= 41)) {
        return Err(Error::ErrCmdCause(cot));
    }
    proof {
        assert(infos@.len() * (3 + spec_it_payload_len(TypeID::M_IT_TA_1)) <= 22 * 11)
            by (nonlinear_arith)
            requires infos@.len() <= 22,
        ;
    }
    Ok(it_asdu(TypeID::M_IT_TA_1, false, cot, ca, infos))
}

/// Build an M_IT_TB_1 ASDU: integrated totals with CP56Time2a tags.
/// Elements without a time get the current time.
pub fn integrated_totals_cp56time2a(
    cot: CauseOfTransmission,
    ca: CommonAddr,
    infos: Vec<BinaryCounterReadingInfo>,
) -> (r: Result<Asdu, Error>)
    requires
        infos@.len() <= 16,
        forall|j: int| 0 <= j < infos@.len() ==> (#[trigger] infos@[j]).bcr.wf(),
        forall|j: int|
            0 <= j < infos@.len() ==> ((#[trigger] infos@[j]).time matches Some(t) ==> t.wf()),
    ensures
        !spec_cause_integrated(cot.cause) ==> r == Err::<Asdu, Error>(Error::ErrCmdCause(cot)),
        spec_cause_integrated(cot.cause) ==> match r {
            Ok(a) => {
                &&& a.identifier == spec_mon_identifier(
                    TypeID::M_IT_TB_1,
                    false,
                    infos@.len() as int,
                    cot,
                    ca,
                )
                &&& a.wf()
                &&& exists|filled: Seq<BinaryCounterReadingInfo>|
                    #[trigger] spec_it_filled(TypeID::M_IT_TB_1, infos@, filled) && a.raw@
                        == spec_it_body(TypeID::M_IT_TB_1, false, filled)
                &&& spec_it_times_given(TypeID::M_IT_TB_1, infos@) ==> a.raw@ == spec_it_body(
                    TypeID::M_IT_TB_1,
                    false,
                    infos@,
                )
            },
            Err(_) => false,
        },
{
    let c = cot.cause.to_u8();
    if !(c == 3 || (20 <= c && c <= 41)) {
        return Err(Error::ErrCmdCause(cot));
    }
    proof {
        assert(infos@.len() * (3 + spec_it_payload_len(TypeID::M_IT_TB_1)) <= 16 * 15)
            by (nonlinear_arith)
            requires infos@.len() <= 16,
        ;
    }
    Ok(it_asdu(TypeID::M_IT_TB_1, false, cot, ca, infos))
}

} // verus!

// Round-trip laws for the measured-value and counter families: a run of
// well-formed elements parses back from its own body bytes, exactly, for
// the types whose tags are lossless.
verus! {

/// In a sequence layout the addresses run up by one from the first element.
pub open spec fn spec_mvn_consecutive(sq: bool, infos: Seq<MeasuredValueNormalInfo>) -> bool {
    sq ==> forall|i: int|
        1 <= i < infos.len() ==> (#[trigger] infos[i]).ioa == spec_next_ioa(infos[i - 1].ioa)
}

/// Round trip for normalized measured values: the untagged types parse back
/// exactly (with a quality descriptor everywhere but in the no-quality
/// type), and so does the CP56-tagged type.
pub proof fn lemma_measured_value_normal_round_trip(
    tid: TypeID,
    sq: bool,
    infos: Seq<MeasuredValueNormalInfo>,
)
    requires
        tid == TypeID::M_ME_NA_1 || tid == TypeID::M_ME_TD_1 || tid == TypeID::M_ME_ND_1,
        tid != TypeID::M_ME_ND_1 ==> forall|j: int|
            0 <= j < infos.len() ==> ((#[trigger] infos[j]).qds matches Some(q) && q.wf()),
        tid == TypeID::M_ME_ND_1 ==> forall|j: int|
            0 <= j < infos.len() ==> (#[trigger] infos[j]).qds is None,
        tid == TypeID::M_ME_TD_1 ==> forall|j: int|
            0 <= j < infos.len() ==> ((#[trigger] infos[j]).time matches Some(t) && t.wf()),
        tid != TypeID::M_ME_TD_1 ==> forall|j: int|
            0 <= j < infos.len() ==> (#[trigger] infos[j]).time is None,
        spec_mvn_consecutive(sq, infos),
    ensures
        spec_mvn_parse(tid, sq, infos.len(), spec_mvn_body(tid, sq, infos)) == Some(infos),
{
    let body = spec_mvn_body(tid, sq, infos);
    assert(body.subrange(0, body.len() as int) =~= body);
    lemma_mvn_parse_elems(tid, sq, infos, body, 0, (InfoObjAddr { res: 0, addr: 0 }), true);
}

/// The inductive core of the normalized-value round trip.
#[verifier::rlimit(100)]
#[verifier::spinoff_prover]
proof fn lemma_mvn_parse_elems(
    tid: TypeID,
    sq: bool,
    infos: Seq<MeasuredValueNormalInfo>,
    body: Seq<u8>,
    pos: int,
    prev: InfoObjAddr,
    first: bool,
)
    requires
        tid == TypeID::M_ME_NA_1 || tid == TypeID::M_ME_TD_1 || tid == TypeID::M_ME_ND_1,
        tid != TypeID::M_ME_ND_1 ==> forall|j: int|
            0 <= j < infos.len() ==> ((#[trigger] infos[j]).qds matches Some(q) && q.wf()),
        tid == TypeID::M_ME_ND_1 ==> forall|j: int|
            0 <= j < infos.len() ==> (#[trigger] infos[j]).qds is None,
        tid == TypeID::M_ME_TD_1 ==> forall|j: int|
            0 <= j < infos.len() ==> ((#[trigger] infos[j]).time matches Some(t) && t.wf()),
        tid != TypeID::M_ME_TD_1 ==> forall|j: int|
            0 <= j < infos.len() ==> (#[trigger] infos[j]).time is None,
        spec_mvn_consecutive(sq, infos),
        sq && !first && infos.len() > 0 ==> infos[0].ioa == spec_next_ioa(prev),
        0 <= pos <= body.len(),
        body.len() - pos == spec_mvn_elems(tid, sq, infos, first).len(),
        body.subrange(pos, body.len() as int) == spec_mvn_elems(tid, sq, infos, first),
    ensures
        spec_mvn_parse_rec(tid, sq, body, infos.len(), pos, prev, first) == Some(infos),
    decreases infos.len(),
{
    if infos.len() == 0 {
        assert(Some(Seq::<MeasuredValueNormalInfo>::empty()) == Some(infos)) by {
            assert(infos =~= Seq::<MeasuredValueNormalInfo>::empty());
        }
        return;
    }
    let info = infos[0];
    let elems = spec_mvn_elems(tid, sq, infos, first);
    let addr_bytes: Seq<u8> = if !sq || first {
        spec_ioa_bytes(info.ioa)
    } else {
        Seq::empty()
    };
    let payload = spec_mvn_payload(tid, info);
    let rest = spec_mvn_elems(tid, sq, infos.skip(1), false);
    assert(elems == addr_bytes + payload + rest);
    let p1 = pos + addr_bytes.len();
    let p2 = p1 + payload.len();
    assert forall|k: int| 0 <= k < elems.len() implies body[pos + k] == elems[k] by {
        assert(body.subrange(pos, body.len() as int)[k] == body[pos + k]);
    }
    assert forall|k: int| 0 <= k < addr_bytes.len() implies elems[k] == addr_bytes[k] by {
        assert((addr_bytes + payload)[k] == addr_bytes[k]);
    }
    assert forall|k: int| 0 <= k < payload.len() implies elems[addr_bytes.len() + k]
        == payload[k] by {
        assert((addr_bytes + payload)[addr_bytes.len() + k] == payload[k]);
        assert(elems[addr_bytes.len() + k] == (addr_bytes + payload)[addr_bytes.len() + k]);
    }
    assert forall|k: int| 0 <= k < rest.len() implies elems[addr_bytes.len() + payload.len() + k]
        == rest[k] by {}
    lemma_i16_le_round_trip(info.nva);
    assert(payload[0] == spec_i16_le(info.nva)[0] && payload[1] == spec_i16_le(info.nva)[1]) by {
        let qpart: Seq<u8> = if tid == TypeID::M_ME_ND_1 {
            Seq::empty()
        } else {
            seq![spec_qds_byte(info.qds)]
        };
        assert((spec_i16_le(info.nva) + qpart)[0] == spec_i16_le(info.nva)[0]);
        assert((spec_i16_le(info.nva) + qpart)[1] == spec_i16_le(info.nva)[1]);
    }
    assert(body[p1] == payload[0] && body[p1 + 1] == payload[1]);
    if tid != TypeID::M_ME_ND_1 {
        let q = info.qds->Some_0;
        lemma_qds_round_trip(q);
        assert(payload[2] == spec_qds_raw(q)) by {
            let qpart: Seq<u8> = seq![spec_qds_byte(info.qds)];
            assert((spec_i16_le(info.nva) + qpart)[2] == spec_qds_byte(info.qds));
        }
        assert(body[p1 + 2] == spec_qds_raw(q));
    }
    if !sq || first {
        lemma_ioa_round_trip(info.ioa);
        assert(body[pos] == addr_bytes[0] && body[pos + 1] == addr_bytes[1] && body[pos + 2]
            == addr_bytes[2]);
        assert(spec_ioa_from(body[pos], body[pos + 1], body[pos + 2]) == info.ioa);
    }
    if tid == TypeID::M_ME_TD_1 {
        let t = info.time->Some_0;
        lemma_cp56_round_trip(t);
        assert(payload.len() == 10);
        assert(body.subrange(p1 + 3, p1 + 10) =~= spec_cp56_bytes(t)) by {
            assert forall|k: int| 0 <= k < 7 implies body.subrange(p1 + 3, p1 + 10)[k]
                == spec_cp56_bytes(t)[k] by {
                assert(body[p1 + 3 + k] == elems[p1 + 3 + k - pos]);
                assert(elems[addr_bytes.len() + 3 + k] == payload[3 + k]);
                assert(payload[3 + k] == ((spec_i16_le(info.nva) + seq![
                    spec_qds_byte(info.qds),
                ]) + spec_cp56_bytes(t))[3 + k]);
                assert(payload[3 + k] == spec_cp56_bytes(t)[k]);
            }
        }
    }
    assert(body.subrange(p2, body.len() as int) =~= rest) by {
        assert forall|k: int| 0 <= k < rest.len() implies body.subrange(p2, body.len() as int)[k]
            == rest[k] by {
            assert(body[p2 + k] == elems[p2 - pos + k]);
        }
    }
    lemma_mvn_parse_elems(tid, sq, infos.skip(1), body, p2, info.ioa, false);
    assert(spec_mvn_parse_rec(tid, sq, body, infos.len(), pos, prev, first) == spec_prepend(
        seq![info],
        Some(infos.skip(1)),
    ));
    assert(seq![info] + infos.skip(1) =~= infos);
}

/// In a sequence layout the addresses run up by one from the first element.
pub open spec fn spec_mvs_consecutive(sq: bool, infos: Seq<MeasuredValueScaledInfo>) -> bool {
    sq ==> forall|i: int|
        1 <= i < infos.len() ==> (#[trigger] infos[i]).ioa == spec_next_ioa(infos[i - 1].ioa)
}

/// Round trip for scaled measured values, for the untagged and the
/// CP56-tagged types.
pub proof fn lemma_measured_value_scaled_round_trip(
    tid: TypeID,
    sq: bool,
    infos: Seq<MeasuredValueScaledInfo>,
)
    requires
        tid == TypeID::M_ME_NB_1 || tid == TypeID::M_ME_TE_1,
        forall|j: int| 0 <= j < infos.len() ==> (#[trigger] infos[j]).qds.wf(),
        tid == TypeID::M_ME_TE_1 ==> forall|j: int|
            0 <= j < infos.len() ==> ((#[trigger] infos[j]).time matches Some(t) && t.wf()),
        tid == TypeID::M_ME_NB_1 ==> forall|j: int|
            0 <= j < infos.len() ==> (#[trigger] infos[j]).time is None,
        spec_mvs_consecutive(sq, infos),
    ensures
        spec_mvs_parse(tid, sq, infos.len(), spec_mvs_body(tid, sq, infos)) == Some(infos),
{
    let body = spec_mvs_body(tid, sq, infos);
    assert(body.subrange(0, body.len() as int) =~= body);
    lemma_mvs_parse_elems(tid, sq, infos, body, 0, (InfoObjAddr { res: 0, addr: 0 }), true);
}

/// The inductive core of the scaled-value round trip.
#[verifier::rlimit(100)]
#[verifier::spinoff_prover]
proof fn lemma_mvs_parse_elems(
    tid: TypeID,
    sq: bool,
    infos: Seq<MeasuredValueScaledInfo>,
    body: Seq<u8>,
    pos: int,
    prev: InfoObjAddr,
    first: bool,
)
    requires
        tid == TypeID::M_ME_NB_1 || tid == TypeID::M_ME_TE_1,
        forall|j: int| 0 <= j < infos.len() ==> (#[trigger] infos[j]).qds.wf(),
        tid == TypeID::M_ME_TE_1 ==> forall|j: int|
            0 <= j < infos.len() ==> ((#[trigger] infos[j]).time matches Some(t) && t.wf()),
        tid == TypeID::M_ME_NB_1 ==> forall|j: int|
            0 <= j < infos.len() ==> (#[trigger] infos[j]).time is None,
        spec_mvs_consecutive(sq, infos),
        sq && !first && infos.len() > 0 ==> infos[0].ioa == spec_next_ioa(prev),
        0 <= pos <= body.len(),
        body.len() - pos == spec_mvs_elems(tid, sq, infos, first).len(),
        body.subrange(pos, body.len() as int) == spec_mvs_elems(tid, sq, infos, first),
    ensures
        spec_mvs_parse_rec(tid, sq, body, infos.len(), pos, prev, first) == Some(infos),
    decreases infos.len(),
{
    if infos.len() == 0 {
        assert(Some(Seq::<MeasuredValueScaledInfo>::empty()) == Some(infos)) by {
            assert(infos =~= Seq::<MeasuredValueScaledInfo>::empty());
        }
        return;
    }
    let info = infos[0];
    let elems = spec_mvs_elems(tid, sq, infos, first);
    let addr_bytes: Seq<u8> = if !sq || first {
        spec_ioa_bytes(info.ioa)
    } else {
        Seq::empty()
    };
    let payload = spec_mvs_payload(tid, info);
    let rest = spec_mvs_elems(tid, sq, infos.skip(1), false);
    assert(elems == addr_bytes + payload + rest);
    let p1 = pos + addr_bytes.len();
    let p2 = p1 + payload.len();
    assert forall|k: int| 0 <= k < elems.len() implies body[pos + k] == elems[k] by {
        assert(body.subrange(pos, body.len() as int)[k] == body[pos + k]);
    }
    assert forall|k: int| 0 <= k < addr_bytes.len() implies elems[k] == addr_bytes[k] by {
        assert((addr_bytes + payload)[k] == addr_bytes[k]);
    }
    assert forall|k: int| 0 <= k < payload.len() implies elems[addr_bytes.len() + k]
        == payload[k] by {
        assert((addr_bytes + payload)[addr_bytes.len() + k] == payload[k]);
        assert(elems[addr_bytes.len() + k] == (addr_bytes + payload)[addr_bytes.len() + k]);
    }
    assert forall|k: int| 0 <= k < rest.len() implies elems[addr_bytes.len() + payload.len() + k]
        == rest[k] by {}
    lemma_i16_le_round_trip(info.sva);
    lemma_qds_round_trip(info.qds);
    assert(payload[0] == spec_i16_le(info.sva)[0] && payload[1] == spec_i16_le(info.sva)[1]
        && payload[2] == spec_qds_raw(info.qds)) by {
        let base = spec_i16_le(info.sva) + seq![spec_qds_raw(info.qds)];
        assert(base[0] == spec_i16_le(info.sva)[0]);
        assert(base[1] == spec_i16_le(info.sva)[1]);
        assert(base[2] == spec_qds_raw(info.qds));
    }
    assert(body[p1] == payload[0] && body[p1 + 1] == payload[1] && body[p1 + 2] == payload[2]);
    if !sq || first {
        lemma_ioa_round_trip(info.ioa);
        assert(body[pos] == addr_bytes[0] && body[pos + 1] == addr_bytes[1] && body[pos + 2]
            == addr_bytes[2]);
        assert(spec_ioa_from(body[pos], body[pos + 1], body[pos + 2]) == info.ioa);
    }
    if tid == TypeID::M_ME_TE_1 {
        let t = info.time->Some_0;
        lemma_cp56_round_trip(t);
        assert(payload.len() == 10);
        assert(body.subrange(p1 + 3, p1 + 10) =~= spec_cp56_bytes(t)) by {
            assert forall|k: int| 0 <= k < 7 implies body.subrange(p1 + 3, p1 + 10)[k]
                == spec_cp56_bytes(t)[k] by {
                assert(body[p1 + 3 + k] == elems[p1 + 3 + k - pos]);
                assert(elems[addr_bytes.len() + 3 + k] == payload[3 + k]);
                assert(payload[3 + k] == ((spec_i16_le(info.sva) + seq![
                    spec_qds_raw(info.qds),
                ]) + spec_cp56_bytes(t))[3 + k]);
                assert(payload[3 + k] == spec_cp56_bytes(t)[k]);
            }
        }
    }
    assert(body.subrange(p2, body.len() as int) =~= rest) by {
        assert forall|k: int| 0 <= k < rest.len() implies body.subrange(p2, body.len() as int)[k]
            == rest[k] by {
            assert(body[p2 + k] == elems[p2 - pos + k]);
        }
    }
    lemma_mvs_parse_elems(tid, sq, infos.skip(1), body, p2, info.ioa, false);
    assert(spec_mvs_parse_rec(tid, sq, body, infos.len(), pos, prev, first) == spec_prepend(
        seq![info],
        Some(infos.skip(1)),
    ));
    assert(seq![info] + infos.skip(1) =~= infos);
}

/// In a sequence layout the addresses run up by one from the first element.
pub open spec fn spec_mvf_consecutive(sq: bool, infos: Seq<MeasuredValueFloatInfo>) -> bool {
    sq ==> forall|i: int|
        1 <= i < infos.len() ==> (#[trigger] infos[i]).ioa == spec_next_ioa(infos[i - 1].ioa)
}

/// Round trip for short-float measured values, for the untagged and the
/// CP56-tagged types.
pub proof fn lemma_measured_value_float_round_trip(
    tid: TypeID,
    sq: bool,
    infos: Seq<MeasuredValueFloatInfo>,
)
    requires
        tid == TypeID::M_ME_NC_1 || tid == TypeID::M_ME_TF_1,
        forall|j: int| 0 <= j < infos.len() ==> (#[trigger] infos[j]).qds.wf(),
        tid == TypeID::M_ME_TF_1 ==> forall|j: int|
            0 <= j < infos.len() ==> ((#[trigger] infos[j]).time matches Some(t) && t.wf()),
        tid == TypeID::M_ME_NC_1 ==> forall|j: int|
            0 <= j < infos.len() ==> (#[trigger] infos[j]).time is None,
        spec_mvf_consecutive(sq, infos),
    ensures
        spec_mvf_parse(tid, sq, infos.len(), spec_mvf_body(tid, sq, infos)) == Some(infos),
{
    let body = spec_mvf_body(tid, sq, infos);
    assert(body.subrange(0, body.len() as int) =~= body);
    lemma_mvf_parse_elems(tid, sq, infos, body, 0, (InfoObjAddr { res: 0, addr: 0 }), true);
}

/// The inductive core of the short-float round trip.
#[verifier::rlimit(100)]
#[verifier::spinoff_prover]
proof fn lemma_mvf_parse_elems(
    tid: TypeID,
    sq: bool,
    infos: Seq<MeasuredValueFloatInfo>,
    body: Seq<u8>,
    pos: int,
    prev: InfoObjAddr,
    first: bool,
)
    requires
        tid == TypeID::M_ME_NC_1 || tid == TypeID::M_ME_TF_1,
        forall|j: int| 0 <= j < infos.len() ==> (#[trigger] infos[j]).qds.wf(),
        tid == TypeID::M_ME_TF_1 ==> forall|j: int|
            0 <= j < infos.len() ==> ((#[trigger] infos[j]).time matches Some(t) && t.wf()),
        tid == TypeID::M_ME_NC_1 ==> forall|j: int|
            0 <= j < infos.len() ==> (#[trigger] infos[j]).time is None,
        spec_mvf_consecutive(sq, infos),
        sq && !first && infos.len() > 0 ==> infos[0].ioa == spec_next_ioa(prev),
        0 <= pos <= body.len(),
        body.len() - pos == spec_mvf_elems(tid, sq, infos, first).len(),
        body.subrange(pos, body.len() as int) == spec_mvf_elems(tid, sq, infos, first),
    ensures
        spec_mvf_parse_rec(tid, sq, body, infos.len(), pos, prev, first) == Some(infos),
    decreases infos.len(),
{
    if infos.len() == 0 {
        assert(Some(Seq::<MeasuredValueFloatInfo>::empty()) == Some(infos)) by {
            assert(infos =~= Seq::<MeasuredValueFloatInfo>::empty());
        }
        return;
    }
    let info = infos[0];
    let elems = spec_mvf_elems(tid, sq, infos, first);
    let addr_bytes: Seq<u8> = if !sq || first {
        spec_ioa_bytes(info.ioa)
    } else {
        Seq::empty()
    };
    let payload = spec_mvf_payload(tid, info);
    let rest = spec_mvf_elems(tid, sq, infos.skip(1), false);
    assert(elems == addr_bytes + payload + rest);
    let p1 = pos + addr_bytes.len();
    let p2 = p1 + payload.len();
    assert forall|k: int| 0 <= k < elems.len() implies body[pos + k] == elems[k] by {
        assert(body.subrange(pos, body.len() as int)[k] == body[pos + k]);
    }
    assert forall|k: int| 0 <= k < addr_bytes.len() implies elems[k] == addr_bytes[k] by {
        assert((addr_bytes + payload)[k] == addr_bytes[k]);
    }
    assert forall|k: int| 0 <= k < payload.len() implies elems[addr_bytes.len() + k]
        == payload[k] by {
        assert((addr_bytes + payload)[addr_bytes.len() + k] == payload[k]);
        assert(elems[addr_bytes.len() + k] == (addr_bytes + payload)[addr_bytes.len() + k]);
    }
    assert forall|k: int| 0 <= k < rest.len() implies elems[addr_bytes.len() + payload.len() + k]
        == rest[k] by {}
    lemma_u32_le_round_trip(info.r);
    lemma_qds_round_trip(info.qds);
    let le = spec_u32_le(info.r as int);
    assert(payload[0] == le[0] && payload[1] == le[1] && payload[2] == le[2] && payload[3] == le[3]
        && payload[4] == spec_qds_raw(info.qds)) by {
        let base = le + seq![spec_qds_raw(info.qds)];
        assert(base[0] == le[0] && base[1] == le[1] && base[2] == le[2] && base[3] == le[3]
            && base[4] == spec_qds_raw(info.qds));
    }
    assert(body[p1] == payload[0] && body[p1 + 1] == payload[1] && body[p1 + 2] == payload[2]
        && body[p1 + 3] == payload[3] && body[p1 + 4] == payload[4]);
    if !sq || first {
        lemma_ioa_round_trip(info.ioa);
        assert(body[pos] == addr_bytes[0] && body[pos + 1] == addr_bytes[1] && body[pos + 2]
            == addr_bytes[2]);
        assert(spec_ioa_from(body[pos], body[pos + 1], body[pos + 2]) == info.ioa);
    }
    if tid == TypeID::M_ME_TF_1 {
        let t = info.time->Some_0;
        lemma_cp56_round_trip(t);
        assert(payload.len() == 12);
        assert(body.subrange(p1 + 5, p1 + 12) =~= spec_cp56_bytes(t)) by {
            assert forall|k: int| 0 <= k < 7 implies body.subrange(p1 + 5, p1 + 12)[k]
                == spec_cp56_bytes(t)[k] by {
                assert(body[p1 + 5 + k] == elems[p1 + 5 + k - pos]);
                assert(elems[addr_bytes.len() + 5 + k] == payload[5 + k]);
                assert(payload[5 + k] == ((le + seq![spec_qds_raw(info.qds)]) + spec_cp56_bytes(
                    t,
                ))[5 + k]);
                assert(payload[5 + k] == spec_cp56_bytes(t)[k]);
            }
        }
    }
    assert(body.subrange(p2, body.len() as int) =~= rest) by {
        assert forall|k: int| 0 <= k < rest.len() implies body.subrange(p2, body.len() as int)[k]
            == rest[k] by {
            assert(body[p2 + k] == elems[p2 - pos + k]);
        }
    }
    lemma_mvf_parse_elems(tid, sq, infos.skip(1), body, p2, info.ioa, false);
    assert(spec_mvf_parse_rec(tid, sq, body, infos.len(), pos, prev, first) == spec_prepend(
        seq![info],
        Some(infos.skip(1)),
    ));
    assert(seq![info] + infos.skip(1) =~= infos);
}

/// In a sequence layout the addresses run up by one from the first element.
pub open spec fn spec_it_consecutive(sq: bool, infos: Seq<BinaryCounterReadingInfo>) -> bool {
    sq ==> forall|i: int|
        1 <= i < infos.len() ==> (#[trigger] infos[i]).ioa == spec_next_ioa(infos[i - 1].ioa)
}

/// Round trip for integrated totals, for the untagged and the CP56-tagged
/// types.
pub proof fn lemma_integrated_totals_round_trip(
    tid: TypeID,
    sq: bool,
    infos: Seq<BinaryCounterReadingInfo>,
)
    requires
        tid == TypeID::M_IT_NA_1 || tid == TypeID::M_IT_TB_1,
        forall|j: int| 0 <= j < infos.len() ==> (#[trigger] infos[j]).bcr.wf(),
        tid == TypeID::M_IT_TB_1 ==> forall|j: int|
            0 <= j < infos.len() ==> ((#[trigger] infos[j]).time matches Some(t) && t.wf()),
        tid == TypeID::M_IT_NA_1 ==> forall|j: int|
            0 <= j < infos.len() ==> (#[trigger] infos[j]).time is None,
        spec_it_consecutive(sq, infos),
    ensures
        spec_it_parse(tid, sq, infos.len(), spec_it_body(tid, sq, infos)) == Some(infos),
{
    let body = spec_it_body(tid, sq, infos);
    assert(body.subrange(0, body.len() as int) =~= body);
    lemma_it_parse_elems(tid, sq, infos, body, 0, (InfoObjAddr { res: 0, addr: 0 }), true);
}

/// The inductive core of the integrated-totals round trip.
#[verifier::rlimit(100)]
#[verifier::spinoff_prover]
proof fn lemma_it_parse_elems(
    tid: TypeID,
    sq: bool,
    infos: Seq<BinaryCounterReadingInfo>,
    body: Seq<u8>,
    pos: int,
    prev: InfoObjAddr,
    first: bool,
)
    requires
        tid == TypeID::M_IT_NA_1 || tid == TypeID::M_IT_TB_1,
        forall|j: int| 0 <= j < infos.len() ==> (#[trigger] infos[j]).bcr.wf(),
        tid == TypeID::M_IT_TB_1 ==> forall|j: int|
            0 <= j < infos.len() ==> ((#[trigger] infos[j]).time matches Some(t) && t.wf()),
        tid == TypeID::M_IT_NA_1 ==> forall|j: int|
            0 <= j < infos.len() ==> (#[trigger] infos[j]).time is None,
        spec_it_consecutive(sq, infos),
        sq && !first && infos.len() > 0 ==> infos[0].ioa == spec_next_ioa(prev),
        0 <= pos <= body.len(),
        body.len() - pos == spec_it_elems(tid, sq, infos, first).len(),
        body.subrange(pos, body.len() as int) == spec_it_elems(tid, sq, infos, first),
    ensures
        spec_it_parse_rec(tid, sq, body, infos.len(), pos, prev, first) == Some(infos),
    decreases infos.len(),
{
    if infos.len() == 0 {
        assert(Some(Seq::<BinaryCounterReadingInfo>::empty()) == Some(infos)) by {
            assert(infos =~= Seq::<BinaryCounterReadingInfo>::empty());
        }
        return;
    }
    let info = infos[0];
    let elems = spec_it_elems(tid, sq, infos, first);
    let addr_bytes: Seq<u8> = if !sq || first {
        spec_ioa_bytes(info.ioa)
    } else {
        Seq::empty()
    };
    let payload = spec_it_payload(tid, info);
    let rest = spec_it_elems(tid, sq, infos.skip(1), false);
    assert(elems == addr_bytes + payload + rest);
    let p1 = pos + addr_bytes.len();
    let p2 = p1 + payload.len();
    assert forall|k: int| 0 <= k < elems.len() implies body[pos + k] == elems[k] by {
        assert(body.subrange(pos, body.len() as int)[k] == body[pos + k]);
    }
    assert forall|k: int| 0 <= k < addr_bytes.len() implies elems[k] == addr_bytes[k] by {
        assert((addr_bytes + payload)[k] == addr_bytes[k]);
    }
    assert forall|k: int| 0 <= k < payload.len() implies elems[addr_bytes.len() + k]
        == payload[k] by {
        assert((addr_bytes + payload)[addr_bytes.len() + k] == payload[k]);
        assert(elems[addr_bytes.len() + k] == (addr_bytes + payload)[addr_bytes.len() + k]);
    }
    assert forall|k: int| 0 <= k < rest.len() implies elems[addr_bytes.len() + payload.len() + k]
        == rest[k] by {}
    lemma_i32_le_round_trip(info.bcr.value);
    lemma_bcr_round_trip(info.bcr);
    let le = spec_i32_le(info.bcr.value);
    assert(payload[0] == le[0] && payload[1] == le[1] && payload[2] == le[2] && payload[3] == le[3]
        && payload[4] == spec_bcr_flags(info.bcr)) by {
        let base = le + seq![spec_bcr_flags(info.bcr)];
        assert(base[0] == le[0] && base[1] == le[1] && base[2] == le[2] && base[3] == le[3]
            && base[4] == spec_bcr_flags(info.bcr));
    }
    assert(body[p1] == payload[0] && body[p1 + 1] == payload[1] && body[p1 + 2] == payload[2]
        && body[p1 + 3] == payload[3] && body[p1 + 4] == payload[4]);
    if !sq || first {
        lemma_ioa_round_trip(info.ioa);
        assert(body[pos] == addr_bytes[0] && body[pos + 1] == addr_bytes[1] && body[pos + 2]
            == addr_bytes[2]);
        assert(spec_ioa_from(body[pos], body[pos + 1], body[pos + 2]) == info.ioa);
    }
    if tid == TypeID::M_IT_TB_1 {
        let t = info.time->Some_0;
        lemma_cp56_round_trip(t);
        assert(payload.len() == 12);
        assert(body.subrange(p1 + 5, p1 + 12) =~= spec_cp56_bytes(t)) by {
            assert forall|k: int| 0 <= k < 7 implies body.subrange(p1 + 5, p1 + 12)[k]
                == spec_cp56_bytes(t)[k] by {
                assert(body[p1 + 5 + k] == elems[p1 + 5 + k - pos]);
                assert(elems[addr_bytes.len() + 5 + k] == payload[5 + k]);
                assert(payload[5 + k] == ((le + seq![spec_bcr_flags(info.bcr)]) + spec_cp56_bytes(
                    t,
                ))[5 + k]);
                assert(payload[5 + k] == spec_cp56_bytes(t)[k]);
            }
        }
    }
    assert(body.subrange(p2, body.len() as int) =~= rest) by {
        assert forall|k: int| 0 <= k < rest.len() implies body.subrange(p2, body.len() as int)[k]
            == rest[k] by {
            assert(body[p2 + k] == elems[p2 - pos + k]);
        }
    }
    lemma_it_parse_elems(tid, sq, infos.skip(1), body, p2, info.ioa, false);
    assert(spec_it_parse_rec(tid, sq, body, infos.len(), pos, prev, first) == spec_prepend(
        seq![info],
        Some(infos.skip(1)),
    ));
    assert(seq![info] + infos.skip(1) =~= infos);
}

} // verus!
