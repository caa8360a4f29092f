//! APCI: the six-byte control header of an APDU, its three frame kinds
//! (I, S, U), and the cyclic sequence-number arithmetic.

use vstd::prelude::*;
use std::collections::VecDeque;
use crate::asdu::{Asdu, IDENTIFIER_SIZE};

verus! {

/// Size in bytes of the APCI header (start, length, four control octets).
pub const APCI_FIELD_SIZE: usize = 6;
/// Size in bytes of the four-octet control field.
pub const APCICTL_FIELD_SIZE: usize = 4;
/// Largest APDU on the wire: start octet, length octet and 253 more bytes.
pub const APDU_SIZE_MAX: usize = 255;

/// Sequence numbers are 15 bits wide: they count modulo 32768.
pub const SEQ_NO_MOD: u16 = 32768;

/// U-frame function bits (the high six bits of the first control octet).
pub const U_STARTDT_ACTIVE: u8 = 0x04;
pub const U_STARTDT_CONFIRM: u8 = 0x08;
pub const U_STOPDT_ACTIVE: u8 = 0x10;
pub const U_STOPDT_CONFIRM: u8 = 0x20;
pub const U_TESTFR_ACTIVE: u8 = 0x40;
pub const U_TESTFR_CONFIRM: u8 = 0x80;

/// The raw six-byte APCI header.
#[derive(Debug, Clone, Copy, PartialEq, Eq, Structural)]
pub struct Apci {
    pub start: u8,
    pub apdu_length: u8,
    pub ctrl1: u8,
    pub ctrl2: u8,
    pub ctrl3: u8,
    pub ctrl4: u8,
}

/// Control field of an I-frame: both sequence numbers.
#[derive(Debug, Clone, Copy, PartialEq, Eq, Structural)]
pub struct IApci {
    pub send_sn: u16,
    pub rcv_sn: u16,
}

/// Control field of a U-frame: one of the six function bits.
#[derive(Debug, Clone, Copy, PartialEq, Eq, Structural)]
pub struct UApci {
    pub function: u8,
}

/// Control field of an S-frame: the receive sequence number alone.
#[derive(Debug, Clone, Copy, PartialEq, Eq, Structural)]
pub struct SApci {
    pub rcv_sn: u16,
}

/// An APCI classified by the low bits of its first control octet.
#[derive(Debug, Clone, Copy, PartialEq, Eq, Structural)]
pub enum ApciKind {
    I(IApci),
    U(UApci),
    S(SApci),
}

/// The 15-bit sequence number carried by a pair of control octets:
/// the low octet holds bits 0..=6 shifted up by one, the high octet bits 7..=14.
pub open spec fn spec_sn_of(lo: u8, hi: u8) -> u16 {
    (lo / 2 + hi * 128) as u16
}

/// The low control octet that carries bits 0..=6 of a sequence number.
pub open spec fn spec_sn_lo(sn: u16) -> u8 {
    ((sn % 128) * 2) as u8
}

/// The high control octet that carries bits 7..=14 of a sequence number.
pub open spec fn spec_sn_hi(sn: u16) -> u8 {
    (sn / 128) as u8
}

/// A sequence number survives the round trip through its two control octets.
pub proof fn lemma_sn_round_trip(sn: u16)
    requires
        sn < SEQ_NO_MOD,
    ensures
        spec_sn_of(spec_sn_lo(sn), spec_sn_hi(sn)) == sn,
{
    assert(((sn % 128) * 2) / 2 == sn % 128);
    assert(sn % 128 + (sn / 128) * 128 == sn) by (nonlinear_arith)
        requires sn < 32768,
    ;
}

impl ApciKind {
    /// Classify a raw APCI: bit 0 of ctrl1 clear means I-frame, bits 1..=0
    /// equal to 01 mean S-frame, and 11 means U-frame.
    pub fn from_apci(apci: Apci) -> (kind: ApciKind)
        ensures
            apci.ctrl1 % 2 == 0 ==> kind == ApciKind::I(IApci {
                send_sn: spec_sn_of(apci.ctrl1, apci.ctrl2),
                rcv_sn: spec_sn_of(apci.ctrl3, apci.ctrl4),
            }),
            apci.ctrl1 % 4 == 1 ==> kind == ApciKind::S(SApci {
                rcv_sn: spec_sn_of(apci.ctrl3, apci.ctrl4),
            }),
            apci.ctrl1 % 2 == 1 && apci.ctrl1 % 4 != 1 ==> kind == ApciKind::U(UApci {
                function: (apci.ctrl1 / 4 * 4) as u8,
            }),
    {
        if apci.ctrl1 % 2 == 0 {
            let send_sn: u16 = apci.ctrl1 as u16 / 2 + apci.ctrl2 as u16 * 128;
            let rcv_sn: u16 = apci.ctrl3 as u16 / 2 + apci.ctrl4 as u16 * 128;
            return ApciKind::I(IApci { send_sn, rcv_sn });
        }
        if apci.ctrl1 % 4 == 1 {
            let rcv_sn: u16 = apci.ctrl3 as u16 / 2 + apci.ctrl4 as u16 * 128;
            return ApciKind::S(SApci { rcv_sn });
        }
        ApciKind::U(UApci { function: apci.ctrl1 / 4 * 4 })
    }
}

/// One framed message: the APCI header and, for I-frames, the ASDU it carries.
#[derive(Debug, Clone)]
pub struct Apdu {
    pub apci: Apci,
    pub asdu: Option<Asdu>,
}

/// The I-frame that carries `asdu` under the given sequence numbers.
pub open spec fn spec_iframe(asdu: Asdu, send_sn: u16, rcv_sn: u16) -> Apdu {
    Apdu {
        apci: Apci {
            start: crate::START_FRAME,
            apdu_length: (APCICTL_FIELD_SIZE + IDENTIFIER_SIZE + asdu.raw@.len()) as u8,
            ctrl1: spec_sn_lo(send_sn),
            ctrl2: spec_sn_hi(send_sn),
            ctrl3: spec_sn_lo(rcv_sn),
            ctrl4: spec_sn_hi(rcv_sn),
        },
        asdu: Some(asdu),
    }
}

/// The S-frame that acknowledges everything below `rcv_sn`.
pub open spec fn spec_sframe(rcv_sn: u16) -> Apdu {
    Apdu {
        apci: Apci {
            start: crate::START_FRAME,
            apdu_length: APCICTL_FIELD_SIZE as u8,
            ctrl1: 0x01,
            ctrl2: 0x00,
            ctrl3: spec_sn_lo(rcv_sn),
            ctrl4: spec_sn_hi(rcv_sn),
        },
        asdu: None,
    }
}

/// The U-frame for one unnumbered function.
pub open spec fn spec_uframe(function: u8) -> Apdu {
    Apdu {
        apci: Apci {
            start: crate::START_FRAME,
            apdu_length: APCICTL_FIELD_SIZE as u8,
            ctrl1: (function + 3) as u8,
            ctrl2: 0x00,
            ctrl3: 0x00,
            ctrl4: 0x00,
        },
        asdu: None,
    }
}

/// Build the I-frame that carries `asdu` with the given sequence numbers.
/// The frame classifies back as an I-frame with those numbers.
pub fn new_iframe(asdu: Asdu, send_sn: u16, rcv_sn: u16) -> (r: Apdu)
    requires
        asdu.wf(),
        send_sn < SEQ_NO_MOD,
        rcv_sn < SEQ_NO_MOD,
    ensures
        r == spec_iframe(asdu, send_sn, rcv_sn),
        r.apci.ctrl1 % 2 == 0,
        spec_sn_of(r.apci.ctrl1, r.apci.ctrl2) == send_sn,
        spec_sn_of(r.apci.ctrl3, r.apci.ctrl4) == rcv_sn,
{
    proof {
        lemma_sn_round_trip(send_sn);
        lemma_sn_round_trip(rcv_sn);
    }
    let apci = Apci {
        start: crate::START_FRAME,
        apdu_length: (APCICTL_FIELD_SIZE + IDENTIFIER_SIZE + asdu.raw.len()) as u8,
        ctrl1: (send_sn % 128 * 2) as u8,
        ctrl2: (send_sn / 128) as u8,
        ctrl3: (rcv_sn % 128 * 2) as u8,
        ctrl4: (rcv_sn / 128) as u8,
    };
    Apdu { apci, asdu: Some(asdu) }
}

/// Build the S-frame that acknowledges everything below `rcv_sn`.
/// The frame classifies back as an S-frame with that number.
pub fn new_sframe(rcv_sn: u16) -> (r: Apdu)
    requires
        rcv_sn < SEQ_NO_MOD,
    ensures
        r == spec_sframe(rcv_sn),
        r.apci.ctrl1 % 4 == 1,
        spec_sn_of(r.apci.ctrl3, r.apci.ctrl4) == rcv_sn,
{
    proof {
        lemma_sn_round_trip(rcv_sn);
    }
    Apdu {
        apci: Apci {
            start: crate::START_FRAME,
            apdu_length: APCICTL_FIELD_SIZE as u8,
            ctrl1: 0x01,
            ctrl2: 0x00,
            ctrl3: (rcv_sn % 128 * 2) as u8,
            ctrl4: (rcv_sn / 128) as u8,
        },
        asdu: None,
    }
}

/// Build the U-frame for one of the six unnumbered functions.
/// The frame classifies back as a U-frame with that function.
pub fn new_uframe(function: u8) -> (r: Apdu)
    requires
        function % 4 == 0,
    ensures
        r == spec_uframe(function),
        r.apci.ctrl1 % 2 == 1 && r.apci.ctrl1 % 4 == 3,
        r.apci.ctrl1 / 4 * 4 == function,
{
    Apdu {
        apci: Apci {
            start: crate::START_FRAME,
            apdu_length: APCICTL_FIELD_SIZE as u8,
            ctrl1: function + 3,
            ctrl2: 0x00,
            ctrl3: 0x00,
            ctrl4: 0x00,
        },
        asdu: None,
    }
}

/// How many sequence numbers lie from `next_ack_no` up to `next_send_no`,
/// counting cyclically: the number of I-frames sent and not yet acknowledged.
pub open spec fn spec_seq_count(next_ack_no: u16, next_send_no: u16) -> int {
    if next_ack_no <= next_send_no {
        next_send_no - next_ack_no
    } else {
        next_send_no + 32768 - next_ack_no
    }
}

/// Cyclic distance from `next_ack_no` up to `next_send_no`, modulo 32768.
pub fn seq_no_count(next_ack_no: u16, next_send_no: u16) -> (r: u16)
    requires
        next_ack_no < SEQ_NO_MOD,
        next_send_no < SEQ_NO_MOD,
    ensures
        r == spec_seq_count(next_ack_no, next_send_no),
        r < SEQ_NO_MOD,
{
    let mut next_send_no = next_send_no;
    if next_ack_no > next_send_no {
        next_send_no += 32768;
    }
    next_send_no - next_ack_no
}

/// One sent and unacknowledged I-frame: its sequence number and the
/// millisecond instant it went out.
#[derive(Debug, Clone, Copy, PartialEq, Eq, Structural)]
pub struct SeqPending {
    pub seq: u16,
    pub send_time: u64,
}

/// The pending queue lists exactly the unacknowledged sequence numbers,
/// consecutively from `ack_sendsn` up to `send_sn`.
pub open spec fn spec_pending_wf(p: Seq<SeqPending>, ack_sendsn: u16, send_sn: u16) -> bool {
    &&& p.len() == spec_seq_count(ack_sendsn, send_sn)
    &&& forall|i: int|
        0 <= i < p.len() ==> (#[trigger] p[i].seq) == (ack_sendsn + i) % (SEQ_NO_MOD as int)
}

/// Take the acknowledgement `ack_no` into account: drop the acknowledged
/// entries from the pending queue and advance `ack_sendsn`, or report false
/// when the peer acknowledges beyond what was ever sent.
pub fn update_ack_no_out(
    ack_no: u16,
    ack_sendsn: &mut u16,
    send_sn: &mut u16,
    pending: &mut VecDeque<SeqPending>,
) -> (ok: bool)
    requires
        ack_no < SEQ_NO_MOD,
        *old(ack_sendsn) < SEQ_NO_MOD,
        *old(send_sn) < SEQ_NO_MOD,
        spec_pending_wf(old(pending)@, *old(ack_sendsn), *old(send_sn)),
    ensures
        *final(send_sn) == *old(send_sn),
        ok <==> (ack_no == *old(ack_sendsn) || spec_seq_count(ack_no, *old(send_sn))
            <= spec_seq_count(*old(ack_sendsn), *old(send_sn))),
        ok ==> *final(ack_sendsn) == ack_no && final(pending)@ == old(pending)@.skip(
            spec_seq_count(*old(ack_sendsn), ack_no),
        ),
        !ok ==> *final(ack_sendsn) == *old(ack_sendsn) && final(pending)@ == old(pending)@,
        spec_pending_wf(final(pending)@, *final(ack_sendsn), *final(send_sn)),
{
    if ack_no == *ack_sendsn {
        return true;
    }
    if seq_no_count(*ack_sendsn, *send_sn) < seq_no_count(ack_no, *send_sn) {
        return false;
    }
    let count = seq_no_count(*ack_sendsn, ack_no);
    proof {
        lemma_seq_count_split(*ack_sendsn, ack_no, *send_sn);
    }
    let ghost p0 = pending@;
    let mut i: u16 = 0;
    while i < count
        invariant
            i <= count,
            count == spec_seq_count(*ack_sendsn, ack_no),
            count <= p0.len(),
            pending@ == p0.skip(i as int),
        decreases count - i,
    {
        pending.pop_front();
        i += 1;
        proof {
            assert(p0.skip(i - 1).drop_first() =~= p0.skip(i as int));
        }
    }
    *ack_sendsn = ack_no;
    proof {
        let a0 = *old(ack_sendsn);
        let c = spec_seq_count(a0, ack_no);
        assert forall|j: int| 0 <= j < pending@.len() implies (#[trigger] pending@[j].seq) == (
        ack_no + j) % (SEQ_NO_MOD as int) by {
            assert(pending@[j] == p0[c + j]);
            assert(p0[c + j].seq == (a0 + (c + j)) % 32768);
            assert((a0 + (c + j)) % 32768 == (ack_no + j) % 32768) by (nonlinear_arith)
                requires
                    a0 < 32768,
                    ack_no < 32768,
                    c == spec_seq_count(a0, ack_no),
                    0 <= j,
            ;
        }
    }
    true
}

/// Round trip over the control field: every constructed frame classifies
/// back as its own kind with its own numbers — the I-frame by its clear
/// low bit, carrying both sequence numbers; the S-frame by its low bits 01,
/// carrying the receive number; the U-frame by its low bits 11, carrying
/// the function bits.
pub proof fn lemma_frame_classification(asdu: Asdu, send_sn: u16, rcv_sn: u16, function: u8)
    requires
        send_sn < SEQ_NO_MOD,
        rcv_sn < SEQ_NO_MOD,
        function % 4 == 0,
    ensures
        spec_iframe(asdu, send_sn, rcv_sn).apci.ctrl1 % 2 == 0,
        spec_sn_of(
            spec_iframe(asdu, send_sn, rcv_sn).apci.ctrl1,
            spec_iframe(asdu, send_sn, rcv_sn).apci.ctrl2,
        ) == send_sn,
        spec_sn_of(
            spec_iframe(asdu, send_sn, rcv_sn).apci.ctrl3,
            spec_iframe(asdu, send_sn, rcv_sn).apci.ctrl4,
        ) == rcv_sn,
        spec_sframe(rcv_sn).apci.ctrl1 % 4 == 1,
        spec_sn_of(spec_sframe(rcv_sn).apci.ctrl3, spec_sframe(rcv_sn).apci.ctrl4) == rcv_sn,
        spec_uframe(function).apci.ctrl1 % 2 == 1 && spec_uframe(function).apci.ctrl1 % 4 != 1,
        spec_uframe(function).apci.ctrl1 / 4 * 4 == function,
{
    lemma_sn_round_trip(send_sn);
    lemma_sn_round_trip(rcv_sn);
    assert((function + 3) % 4 == 3 && (function + 3) / 4 * 4 == function) by (nonlinear_arith)
        requires function % 4 == 0, function <= 255,
    ;
}

/// Cyclic distances add up: when `m` lies between `a` and `s` on the cycle,
/// the distance from `a` to `m` and on to `s` equals the distance from `a`
/// straight to `s`.
pub proof fn lemma_seq_count_split(a: u16, m: u16, s: u16)
    requires
        a < SEQ_NO_MOD,
        m < SEQ_NO_MOD,
        s < SEQ_NO_MOD,
        spec_seq_count(m, s) <= spec_seq_count(a, s),
    ensures
        spec_seq_count(a, m) + spec_seq_count(m, s) == spec_seq_count(a, s),
{
}

} // verus!
