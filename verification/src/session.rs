//! The per-connection session engine: sequence-number state, the k-window
//! gate on outstanding I-frames, the t1/t2/t3 timer discipline, and the
//! dispatch decisions for every inbound frame. The engine is a pure state
//! machine: callers feed it ticks, requests and frames together with the
//! current time in milliseconds, and send the frames it hands back.

use vstd::prelude::*;
use std::collections::VecDeque;
use crate::apci::{
    new_iframe, new_sframe, new_uframe, seq_no_count, spec_iframe, spec_seq_count, spec_sframe,
    spec_pending_wf, spec_sn_of, spec_uframe, update_ack_no_out, Apdu, SApci, SeqPending, UApci,
    SEQ_NO_MOD, U_STARTDT_ACTIVE, U_STARTDT_CONFIRM, U_STOPDT_ACTIVE, U_STOPDT_CONFIRM,
    U_TESTFR_ACTIVE, U_TESTFR_CONFIRM,
};
use crate::asdu::{Asdu, Cause, TypeID, INFO_OBJ_ADDR_IRRELEVANT, INVALID_COMMON_ADDR};
use crate::csys::{ObjectQCC, ObjectQOI};
use crate::error::Error;

verus! {

/// Acknowledge timeout t1, in milliseconds: a sent test frame, start or
/// stop activation unanswered this long is fatal.
pub const T1_MS: u64 = 15000;
/// Idle-acknowledge timeout t2: received I-frames are acknowledged at the
/// latest this long after the first unacknowledged one.
pub const T2_MS: u64 = 10000;
/// Idle test interval t3: a test frame goes out after this long without
/// inbound traffic.
pub const T3_MS: u64 = 20000;
/// The check tick driving the timer discipline.
pub const CHECK_TICK_MS: u64 = 100;
/// At most this many I-frames may be outstanding (sent and unacknowledged).
pub const K_OUTSTANDING_MAX: u16 = 12;

/// Which side of the connection this engine drives. The sides share the
/// sequence and timer discipline but answer different U-frames.
#[derive(Debug, Clone, Copy, PartialEq, Eq, Structural)]
pub enum SessionRole {
    Client,
    Server,
}

/// An outbound request handed to the engine.
#[derive(Debug)]
pub enum Request {
    I(Asdu),
    U(UApci),
    S(SApci),
}

/// The engine's whole state between two events.
pub struct Session {
    pub role: SessionRole,
    /// Telemetry transmission enabled (started and not stopped).
    pub is_active: bool,
    /// Sequence number of the next outbound I-frame.
    pub send_sn: u16,
    /// All outbound I-frames below this number are acknowledged.
    pub ack_sendsn: u16,
    /// Sequence number expected on the next inbound I-frame.
    pub rcv_sn: u16,
    /// All inbound I-frames below this number were acknowledged by us.
    pub ack_rcvsn: u16,
    /// Sent and unacknowledged I-frames, oldest first.
    pub pending: VecDeque<SeqPending>,
    /// I-frames accepted for sending and still waiting for the window.
    pub out_queue: VecDeque<Asdu>,
    /// When the last inbound frame arrived (the t3 base).
    pub idle_since: u64,
    /// When an unanswered test frame went out, if one did (t1).
    pub test_sent_since: Option<u64>,
    /// When the first unacknowledged inbound I-frame arrived (the t2 base).
    pub un_ack_rcv_since: Option<u64>,
    /// When an unanswered start activation went out (client, t1).
    pub startdt_sent_since: Option<u64>,
    /// When an unanswered stop activation went out (client, t1).
    pub stopdt_sent_since: Option<u64>,
}

impl Session {
    /// The state invariant, held at every suspension point: sequence numbers
    /// in range, the pending queue listing exactly the unacknowledged
    /// numbers, never more than k of them outstanding, and only well-formed
    /// ASDUs waiting.
    pub open spec fn wf(self) -> bool {
        &&& self.send_sn < SEQ_NO_MOD
        &&& self.ack_sendsn < SEQ_NO_MOD
        &&& self.rcv_sn < SEQ_NO_MOD
        &&& self.ack_rcvsn < SEQ_NO_MOD
        &&& spec_pending_wf(self.pending@, self.ack_sendsn, self.send_sn)
        &&& spec_seq_count(self.ack_sendsn, self.send_sn) <= K_OUTSTANDING_MAX
        &&& forall|i: int| 0 <= i < self.out_queue@.len() ==> (#[trigger] self.out_queue@[i]).wf()
    }

    /// How many I-frames are outstanding.
    pub open spec fn spec_outstanding(self) -> int {
        spec_seq_count(self.ack_sendsn, self.send_sn)
    }

    /// A fresh session on a fresh connection: sequence numbers at zero,
    /// transmission inactive, all timers clear.
    pub fn new(role: SessionRole, now: u64) -> (s: Session)
        ensures
            s.wf(),
            s.role == role,
            !s.is_active,
            s.send_sn == 0 && s.ack_sendsn == 0 && s.rcv_sn == 0 && s.ack_rcvsn == 0,
            s.pending@.len() == 0,
            s.out_queue@.len() == 0,
            s.idle_since == now,
            s.test_sent_since is None && s.un_ack_rcv_since is None && s.startdt_sent_since is None
                && s.stopdt_sent_since is None,
    {
        Session {
            role,
            is_active: false,
            send_sn: 0,
            ack_sendsn: 0,
            rcv_sn: 0,
            ack_rcvsn: 0,
            pending: VecDeque::new(),
            out_queue: VecDeque::new(),
            idle_since: now,
            test_sent_since: None,
            un_ack_rcv_since: None,
            startdt_sent_since: None,
            stopdt_sent_since: None,
        }
    }

    /// A test frame, start activation or stop activation has waited t1 for
    /// its confirmation: the session is dead.
    pub open spec fn spec_t1_expired(self, now: u64) -> bool {
        ||| (self.test_sent_since matches Some(t) && t + T1_MS <= now)
        ||| (self.startdt_sent_since matches Some(t) && t + T1_MS <= now)
        ||| (self.stopdt_sent_since matches Some(t) && t + T1_MS <= now)
    }

    /// The oldest outstanding I-frame has waited t1 for its acknowledgement.
    pub open spec fn spec_ack_head_timeout(self, now: u64) -> bool {
        self.ack_sendsn != self.send_sn && self.pending@.len() > 0 && self.pending@[0].send_time
            + T1_MS <= now
    }

    /// Inbound I-frames await an acknowledgement and its time has come:
    /// t2 ran out, or the engine has been idle past one tick.
    pub open spec fn spec_needs_sframe(self, now: u64) -> bool {
        self.ack_rcvsn != self.rcv_sn && ((self.un_ack_rcv_since matches Some(t) && t + T2_MS
            <= now) || self.idle_since + CHECK_TICK_MS <= now)
    }

    /// Nothing arrived for t3: time to test the link.
    pub open spec fn spec_needs_testfr(self, now: u64) -> bool {
        self.idle_since + T3_MS <= now
    }

    /// One check tick. Reports a fatal t1 expiry; otherwise drops a timed-out
    /// pending entry, acknowledges inbound I-frames whose time has come, and
    /// starts a link test after t3 of silence. Returns the frames to send:
    /// the S-frame, if due, before the test frame.
    pub fn on_tick(&mut self, now: u64) -> (r: TickOutcome)
        requires
            old(self).wf(),
        ensures
            final(self).wf(),
            r.fatal == old(self).spec_t1_expired(now),
            r.fatal ==> *final(self) == *old(self) && r.frames@.len() == 0,
            !r.fatal ==> {
                let acked = old(self).spec_ack_head_timeout(now);
                let s = old(self).spec_needs_sframe(now);
                let t = old(self).spec_needs_testfr(now);
                &&& final(self).ack_sendsn == if acked {
                    ((old(self).ack_sendsn + 1) % (SEQ_NO_MOD as int)) as u16
                } else {
                    old(self).ack_sendsn
                }
                &&& final(self).pending@ == if acked {
                    old(self).pending@.skip(1)
                } else {
                    old(self).pending@
                }
                &&& final(self).ack_rcvsn == if s {
                    old(self).rcv_sn
                } else {
                    old(self).ack_rcvsn
                }
                &&& final(self).idle_since == if t {
                    now
                } else {
                    old(self).idle_since
                }
                &&& final(self).test_sent_since == if t {
                    Some(now)
                } else {
                    old(self).test_sent_since
                }
                &&& r.frames@ == if s && t {
                    seq![spec_sframe(old(self).rcv_sn), spec_uframe(U_TESTFR_ACTIVE)]
                } else if s {
                    seq![spec_sframe(old(self).rcv_sn)]
                } else if t {
                    seq![spec_uframe(U_TESTFR_ACTIVE)]
                } else {
                    Seq::<Apdu>::empty()
                }
                &&& final(self).send_sn == old(self).send_sn
                &&& final(self).rcv_sn == old(self).rcv_sn
                &&& final(self).is_active == old(self).is_active
                &&& final(self).role == old(self).role
                &&& final(self).out_queue@ == old(self).out_queue@
                &&& final(self).un_ack_rcv_since == old(self).un_ack_rcv_since
                &&& final(self).startdt_sent_since == old(self).startdt_sent_since
                &&& final(self).stopdt_sent_since == old(self).stopdt_sent_since
            },
    {
        if timer_expired(self.test_sent_since, T1_MS, now) || timer_expired(
            self.startdt_sent_since,
            T1_MS,
            now,
        ) || timer_expired(self.stopdt_sent_since, T1_MS, now) {
            return TickOutcome { fatal: true, frames: Vec::new() };
        }
        let mut frames: Vec<Apdu> = Vec::new();
        if self.ack_sendsn != self.send_sn {
            let head_time = self.pending[0].send_time;
            if head_time <= now && now - head_time >= T1_MS {
                self.ack_sendsn = advance_sn(self.ack_sendsn);
                self.pending.pop_front();
                proof {
                    assert(self.pending@ =~= old(self).pending@.skip(1));
                    assert forall|i: int| 0 <= i < self.pending@.len() implies (#[trigger] self
                        .pending@[i]).seq == (self.ack_sendsn + i) % (SEQ_NO_MOD as int) by {
                        assert(old(self).pending@[i + 1].seq == (old(self).ack_sendsn + (i + 1)) % (
                        SEQ_NO_MOD as int));
                    }
                }
            }
        }
        if self.ack_rcvsn != self.rcv_sn && (timer_expired(self.un_ack_rcv_since, T2_MS, now)
            || self.idle_since <= now && now - self.idle_since >= CHECK_TICK_MS) {
            frames.push(new_sframe(self.rcv_sn));
            self.ack_rcvsn = self.rcv_sn;
        }
        if self.idle_since <= now && now - self.idle_since >= T3_MS {
            frames.push(new_uframe(U_TESTFR_ACTIVE));
            self.idle_since = now;
            self.test_sent_since = Some(now);
        }
        TickOutcome { fatal: false, frames }
    }
}

/// What one check tick decided.
pub struct TickOutcome {
    /// A confirmation timed out: tear the connection down.
    pub fatal: bool,
    /// Frames to send, in order.
    pub frames: Vec<Apdu>,
}

/// Whether a timer that started at `since` has run for `period` by `now`.
fn timer_expired(since: Option<u64>, period: u64, now: u64) -> (r: bool)
    ensures
        r == (since matches Some(t) && t + period <= now),
{
    match since {
        Some(t) => t <= now && now - t >= period,
        None => false,
    }
}

/// The next sequence number, modulo 32768.
fn advance_sn(sn: u16) -> (r: u16)
    requires
        sn < SEQ_NO_MOD,
    ensures
        r == (sn + 1) % (SEQ_NO_MOD as int),
        r < SEQ_NO_MOD,
{
    if sn == 32767 {
        0
    } else {
        sn + 1
    }
}

/// What handling one inbound frame decided.
pub struct FrameOutcome {
    /// A protocol violation: tear the connection down.
    pub fatal: bool,
    /// An immediate reply to send (a U-frame confirmation).
    pub frame: Option<Apdu>,
    /// The ASDU to hand to the handler.
    pub deliver: Option<Asdu>,
}

/// The frame is an I-frame: bit 0 of the first control octet is clear.
pub open spec fn spec_is_i(apdu: Apdu) -> bool {
    apdu.apci.ctrl1 % 2 == 0
}

/// The frame is an S-frame: bits 1..=0 of the first control octet are 01.
pub open spec fn spec_is_s(apdu: Apdu) -> bool {
    apdu.apci.ctrl1 % 4 == 1
}

/// The send sequence number an I-frame carries.
pub open spec fn spec_frame_send_sn(apdu: Apdu) -> u16 {
    spec_sn_of(apdu.apci.ctrl1, apdu.apci.ctrl2)
}

/// The receive sequence number an I- or S-frame carries.
pub open spec fn spec_frame_rcv_sn(apdu: Apdu) -> u16 {
    spec_sn_of(apdu.apci.ctrl3, apdu.apci.ctrl4)
}

/// The function bits a U-frame carries.
pub open spec fn spec_frame_u_fn(apdu: Apdu) -> u8 {
    (apdu.apci.ctrl1 / 4 * 4) as u8
}

impl Session {
    /// An incoming acknowledgement is acceptable: it acknowledges no more
    /// than was ever sent.
    pub open spec fn spec_ack_ok(self, ack_no: u16) -> bool {
        ack_no == self.ack_sendsn || spec_seq_count(ack_no, self.send_sn) <= spec_seq_count(
            self.ack_sendsn,
            self.send_sn,
        )
    }

    /// Take one outbound request. An I-frame request is queued while the
    /// session is active and dropped while it is not; `poll_send` transmits
    /// the queue. A U-frame request goes out at once, recording the send
    /// instant of a start or stop activation; an S-frame request goes out
    /// as it is.
    pub fn handle_request(&mut self, req: Request, now: u64) -> (r: Option<Apdu>)
        requires
            old(self).wf(),
            match req {
                Request::I(a) => a.wf(),
                Request::U(u) => u.function % 4 == 0,
                Request::S(s) => s.rcv_sn < SEQ_NO_MOD,
            },
        ensures
            final(self).wf(),
            match req {
                Request::I(asdu) => {
                    &&& r is None
                    &&& (!old(self).is_active ==> *final(self) == *old(self))
                    &&& (old(self).is_active ==> final(self).out_queue@ == old(
                        self,
                    ).out_queue@.push(asdu))
                    &&& final(self).send_sn == old(self).send_sn
                    &&& final(self).ack_sendsn == old(self).ack_sendsn
                    &&& final(self).rcv_sn == old(self).rcv_sn
                    &&& final(self).ack_rcvsn == old(self).ack_rcvsn
                    &&& final(self).pending@ == old(self).pending@
                    &&& final(self).is_active == old(self).is_active
                    &&& final(self).role == old(self).role
                    &&& final(self).idle_since == old(self).idle_since
                    &&& final(self).test_sent_since == old(self).test_sent_since
                    &&& final(self).un_ack_rcv_since == old(self).un_ack_rcv_since
                    &&& final(self).startdt_sent_since == old(self).startdt_sent_since
                    &&& final(self).stopdt_sent_since == old(self).stopdt_sent_since
                },
                Request::U(u) => {
                    &&& r == Some(spec_uframe(u.function))
                    &&& final(self).startdt_sent_since == if u.function == U_STARTDT_ACTIVE {
                        Some(now)
                    } else {
                        old(self).startdt_sent_since
                    }
                    &&& final(self).stopdt_sent_since == if u.function == U_STOPDT_ACTIVE {
                        Some(now)
                    } else {
                        old(self).stopdt_sent_since
                    }
                    &&& final(self).out_queue@ == old(self).out_queue@
                    &&& final(self).send_sn == old(self).send_sn
                    &&& final(self).ack_sendsn == old(self).ack_sendsn
                    &&& final(self).rcv_sn == old(self).rcv_sn
                    &&& final(self).ack_rcvsn == old(self).ack_rcvsn
                    &&& final(self).pending@ == old(self).pending@
                    &&& final(self).is_active == old(self).is_active
                    &&& final(self).role == old(self).role
                    &&& final(self).idle_since == old(self).idle_since
                    &&& final(self).test_sent_since == old(self).test_sent_since
                    &&& final(self).un_ack_rcv_since == old(self).un_ack_rcv_since
                },
                Request::S(s) => r == Some(spec_sframe(s.rcv_sn)) && *final(self) == *old(self),
            },
    {
        match req {
            Request::I(asdu) => {
                if !self.is_active {
                    return None;
                }
                self.out_queue.push_back(asdu);
                None
            },
            Request::U(uapci) => {
                if uapci.function == U_STARTDT_ACTIVE {
                    self.startdt_sent_since = Some(now);
                } else if uapci.function == U_STOPDT_ACTIVE {
                    self.stopdt_sent_since = Some(now);
                }
                Some(new_uframe(uapci.function))
            },
            Request::S(sapci) => Some(new_sframe(sapci.rcv_sn)),
        }
    }

    /// Transmit the next queued I-frame, when one may go: the session must
    /// be active and fewer than k I-frames outstanding. Call repeatedly
    /// after every event until it yields nothing. The frame carries the
    /// session's send sequence number, which then advances by one modulo
    /// 32768, and the current receive sequence number as its
    /// acknowledgement. A frame queued before a stop is dropped once the
    /// session is inactive.
    pub fn poll_send(&mut self, now: u64) -> (r: Option<Apdu>)
        requires
            old(self).wf(),
        ensures
            final(self).wf(),
            old(self).out_queue@.len() == 0 ==> r is None && *final(self) == *old(self),
            old(self).out_queue@.len() > 0 && !old(self).is_active ==> {
                &&& r is None
                &&& final(self).out_queue@ == old(self).out_queue@.skip(1)
                &&& final(self).pending@ == old(self).pending@
                &&& final(self).send_sn == old(self).send_sn
                &&& final(self).ack_sendsn == old(self).ack_sendsn
                &&& final(self).rcv_sn == old(self).rcv_sn
                &&& final(self).ack_rcvsn == old(self).ack_rcvsn
            },
            old(self).out_queue@.len() > 0 && old(self).is_active && old(self).spec_outstanding()
                >= K_OUTSTANDING_MAX ==> r is None && *final(self) == *old(self),
            old(self).out_queue@.len() > 0 && old(self).is_active && old(self).spec_outstanding()
                < K_OUTSTANDING_MAX ==> {
                &&& r == Some(
                    spec_iframe(old(self).out_queue@[0], old(self).send_sn, old(self).rcv_sn),
                )
                &&& final(self).send_sn == ((old(self).send_sn + 1) % (SEQ_NO_MOD as int)) as u16
                &&& final(self).ack_rcvsn == old(self).rcv_sn
                &&& final(self).pending@ == old(self).pending@.push(
                    (SeqPending { seq: old(self).send_sn, send_time: now }),
                )
                &&& final(self).out_queue@ == old(self).out_queue@.skip(1)
                &&& final(self).ack_sendsn == old(self).ack_sendsn
                &&& final(self).rcv_sn == old(self).rcv_sn
                &&& final(self).is_active == old(self).is_active
                &&& final(self).role == old(self).role
                &&& final(self).idle_since == old(self).idle_since
                &&& final(self).test_sent_since == old(self).test_sent_since
                &&& final(self).un_ack_rcv_since == old(self).un_ack_rcv_since
                &&& final(self).startdt_sent_since == old(self).startdt_sent_since
                &&& final(self).stopdt_sent_since == old(self).stopdt_sent_since
            },
    {
        if self.out_queue.len() == 0 {
            return None;
        }
        if !self.is_active {
            self.out_queue.pop_front();
            proof {
                assert(self.out_queue@ =~= old(self).out_queue@.skip(1));
            }
            return None;
        }
        if seq_no_count(self.ack_sendsn, self.send_sn) >= K_OUTSTANDING_MAX {
            return None;
        }
        let asdu = match self.out_queue.pop_front() {
            Some(a) => a,
            None => { return None; },
        };
        proof {
            assert(self.out_queue@ =~= old(self).out_queue@.skip(1));
        }
        let apdu = new_iframe(asdu, self.send_sn, self.rcv_sn);
        self.pending.push_back(SeqPending { seq: self.send_sn, send_time: now });
        self.ack_rcvsn = self.rcv_sn;
        let ghost old_send = self.send_sn;
        let ghost a0 = self.ack_sendsn;
        self.send_sn = advance_sn(self.send_sn);
        proof {
            assert((old_send + 32768) % 32768 == old_send);
            assert forall|i: int| 0 <= i < self.pending@.len() implies (#[trigger] self
                .pending@[i]).seq == (a0 + i) % (SEQ_NO_MOD as int) by {
                if i < self.pending@.len() - 1 {
                    assert(old(self).pending@[i].seq == (a0 + i) % (SEQ_NO_MOD as int));
                } else {
                    assert(self.pending@[i].seq == old_send);
                    if a0 <= old_send {
                        assert((a0 + i) % 32768 == old_send);
                    } else {
                        assert(a0 + i == old_send + 32768);
                    }
                }
            }
        }
        Some(apdu)
    }

    /// Take one inbound frame: reset the idle timer, then act on the frame's
    /// kind. An I-frame must acknowledge no more than was sent and carry
    /// exactly the expected send sequence number, and must carry an ASDU
    /// that parsed, else the session is fatally desynchronized; the ASDU is
    /// handed back for delivery and the receive number advances. An S-frame
    /// moves the acknowledge mark. A U-frame switches activation or answers
    /// the link test, by the session's role.
    pub fn on_frame(&mut self, apdu: Apdu, now: u64) -> (r: FrameOutcome)
        requires
            old(self).wf(),
        ensures
            final(self).wf(),
            final(self).idle_since == now,
            final(self).role == old(self).role,
            final(self).send_sn == old(self).send_sn,
            final(self).out_queue@ == old(self).out_queue@,
            r.fatal == ((spec_is_i(apdu) && (!old(self).spec_ack_ok(spec_frame_rcv_sn(apdu))
                || spec_frame_send_sn(apdu) != old(self).rcv_sn || apdu.asdu is None)) || (
            spec_is_s(apdu) && !old(self).spec_ack_ok(spec_frame_rcv_sn(apdu)))),
            r.fatal ==> r.frame is None && r.deliver is None,
            spec_is_i(apdu) && !r.fatal ==> {
                &&& final(self).ack_sendsn == spec_frame_rcv_sn(apdu)
                &&& final(self).pending@ == old(self).pending@.skip(
                    spec_seq_count(old(self).ack_sendsn, spec_frame_rcv_sn(apdu)),
                )
                &&& final(self).rcv_sn == ((spec_frame_send_sn(apdu) + 1) % (
                SEQ_NO_MOD as int)) as u16
                &&& final(self).un_ack_rcv_since == if old(self).ack_rcvsn == old(self).rcv_sn {
                    Some(now)
                } else {
                    old(self).un_ack_rcv_since
                }
                &&& final(self).ack_rcvsn == old(self).ack_rcvsn
                &&& final(self).is_active == old(self).is_active
                &&& final(self).test_sent_since == old(self).test_sent_since
                &&& final(self).startdt_sent_since == old(self).startdt_sent_since
                &&& final(self).stopdt_sent_since == old(self).stopdt_sent_since
                &&& r.deliver == apdu.asdu
                &&& r.frame is None
            },
            spec_is_s(apdu) && !r.fatal ==> {
                &&& final(self).ack_sendsn == spec_frame_rcv_sn(apdu)
                &&& final(self).pending@ == old(self).pending@.skip(
                    spec_seq_count(old(self).ack_sendsn, spec_frame_rcv_sn(apdu)),
                )
                &&& final(self).rcv_sn == old(self).rcv_sn
                &&& final(self).ack_rcvsn == old(self).ack_rcvsn
                &&& final(self).un_ack_rcv_since == old(self).un_ack_rcv_since
                &&& final(self).is_active == old(self).is_active
                &&& final(self).test_sent_since == old(self).test_sent_since
                &&& final(self).startdt_sent_since == old(self).startdt_sent_since
                &&& final(self).stopdt_sent_since == old(self).stopdt_sent_since
                &&& r.deliver is None
                &&& r.frame is None
            },
            !spec_is_i(apdu) && !spec_is_s(apdu) ==> {
                let f = spec_frame_u_fn(apdu);
                &&& final(self).ack_sendsn == old(self).ack_sendsn
                &&& final(self).pending@ == old(self).pending@
                &&& final(self).rcv_sn == old(self).rcv_sn
                &&& final(self).ack_rcvsn == old(self).ack_rcvsn
                &&& final(self).un_ack_rcv_since == old(self).un_ack_rcv_since
                &&& r.deliver is None
                &&& (old(self).role == SessionRole::Client ==> {
                    &&& final(self).is_active == (if f == U_STARTDT_CONFIRM {
                        true
                    } else if f == U_STOPDT_CONFIRM {
                        false
                    } else {
                        old(self).is_active
                    })
                    &&& final(self).startdt_sent_since == (if f == U_STARTDT_CONFIRM {
                        Option::<u64>::None
                    } else {
                        old(self).startdt_sent_since
                    })
                    &&& final(self).stopdt_sent_since == (if f == U_STOPDT_CONFIRM {
                        Option::<u64>::None
                    } else {
                        old(self).stopdt_sent_since
                    })
                    &&& final(self).test_sent_since == (if f == U_TESTFR_CONFIRM {
                        Option::<u64>::None
                    } else {
                        old(self).test_sent_since
                    })
                    &&& r.frame == (if f == U_TESTFR_ACTIVE {
                        Some(spec_uframe(U_TESTFR_CONFIRM))
                    } else {
                        Option::<Apdu>::None
                    })
                })
                &&& (old(self).role == SessionRole::Server ==> {
                    &&& final(self).is_active == (if f == U_STARTDT_ACTIVE {
                        true
                    } else if f == U_STOPDT_ACTIVE {
                        false
                    } else {
                        old(self).is_active
                    })
                    &&& final(self).test_sent_since == (if f == U_TESTFR_CONFIRM {
                        Option::<u64>::None
                    } else {
                        old(self).test_sent_since
                    })
                    &&& final(self).startdt_sent_since == old(self).startdt_sent_since
                    &&& final(self).stopdt_sent_since == old(self).stopdt_sent_since
                    &&& r.frame == (if f == U_STARTDT_ACTIVE {
                        Some(spec_uframe(U_STARTDT_CONFIRM))
                    } else if f == U_STOPDT_ACTIVE {
                        Some(spec_uframe(U_STOPDT_CONFIRM))
                    } else if f == U_TESTFR_ACTIVE {
                        Some(spec_uframe(U_TESTFR_CONFIRM))
                    } else {
                        Option::<Apdu>::None
                    })
                })
            },
    {
        self.idle_since = now;
        let kind = crate::apci::ApciKind::from_apci(apdu.apci);
        match kind {
            crate::apci::ApciKind::I(iapci) => {
                let ok = update_ack_no_out(
                    iapci.rcv_sn,
                    &mut self.ack_sendsn,
                    &mut self.send_sn,
                    &mut self.pending,
                );
                if !ok || iapci.send_sn != self.rcv_sn {
                    return FrameOutcome { fatal: true, frame: None, deliver: None };
                }
                if self.ack_rcvsn == self.rcv_sn {
                    self.un_ack_rcv_since = Some(now);
                }
                let deliver = match apdu.asdu {
                    Some(a) => Some(a),
                    None => { return FrameOutcome { fatal: true, frame: None, deliver: None }; },
                };
                self.rcv_sn = advance_sn(iapci.send_sn);
                FrameOutcome { fatal: false, frame: None, deliver }
            },
            crate::apci::ApciKind::S(sapci) => {
                let ok = update_ack_no_out(
                    sapci.rcv_sn,
                    &mut self.ack_sendsn,
                    &mut self.send_sn,
                    &mut self.pending,
                );
                if !ok {
                    return FrameOutcome { fatal: true, frame: None, deliver: None };
                }
                FrameOutcome { fatal: false, frame: None, deliver: None }
            },
            crate::apci::ApciKind::U(uapci) => {
                let f = uapci.function;
                let mut frame: Option<Apdu> = None;
                match self.role {
                    SessionRole::Client => {
                        if f == U_STARTDT_CONFIRM {
                            self.startdt_sent_since = None;
                            self.is_active = true;
                        } else if f == U_STOPDT_CONFIRM {
                            self.stopdt_sent_since = None;
                            self.is_active = false;
                        } else if f == U_TESTFR_CONFIRM {
                            self.test_sent_since = None;
                        } else if f == U_TESTFR_ACTIVE {
                            frame = Some(new_uframe(U_TESTFR_CONFIRM));
                        }
                    },
                    SessionRole::Server => {
                        if f == U_STARTDT_ACTIVE {
                            frame = Some(new_uframe(U_STARTDT_CONFIRM));
                            self.is_active = true;
                        } else if f == U_STOPDT_ACTIVE {
                            frame = Some(new_uframe(U_STOPDT_CONFIRM));
                            self.is_active = false;
                        } else if f == U_TESTFR_CONFIRM {
                            self.test_sent_since = None;
                        } else if f == U_TESTFR_ACTIVE {
                            frame = Some(new_uframe(U_TESTFR_CONFIRM));
                        }
                    },
                }
                FrameOutcome { fatal: false, frame, deliver: None }
            },
        }
    }
}

/// Where the server routes one delivered ASDU.
pub enum ServerDispatch {
    /// A malformed command: send this negative reply back as an I-frame.
    Mirror(Asdu),
    /// A valid interrogation command, with its qualifier.
    Interrogation(Asdu, ObjectQOI),
    /// A valid counter-interrogation command, with its qualifier.
    CounterInterrogation(Asdu, ObjectQCC),
    /// Anything else: the general handler takes it.
    General(Asdu),
}

/// Validate a delivered ASDU the way the controlled station must:
/// an interrogation command needs cause Activation or Deactivation, a
/// counter interrogation exactly Activation; both need a valid common
/// address and the irrelevant object address, and each violation is
/// answered by mirroring the ASDU back with the telling cause. Too short
/// a command body is a fatal error.
pub fn server_dispatch(asdu: Asdu) -> (r: Result<ServerDispatch, Error>)
    ensures
        asdu.identifier.type_id != TypeID::C_IC_NA_1 && asdu.identifier.type_id
            != TypeID::C_CI_NA_1 ==> r == Ok::<ServerDispatch, Error>(ServerDispatch::General(
            asdu,
        )),
        asdu.identifier.type_id == TypeID::C_IC_NA_1 ==> {
            let cu = asdu.identifier.cot.cause.spec_u8();
            if cu != 6 && cu != 8 {
                r matches Ok(ServerDispatch::Mirror(m)) && spec_mirrored(asdu, m, Cause::UnknownCOT)
            } else if asdu.identifier.common_addr == INVALID_COMMON_ADDR {
                r matches Ok(ServerDispatch::Mirror(m)) && spec_mirrored(asdu, m, Cause::UnknownCA)
            } else if asdu.raw@.len() < 4 {
                r == Err::<ServerDispatch, Error>(Error::ErrAsduTooShort)
            } else if asdu.raw@[0] + asdu.raw@[1] * 256 != INFO_OBJ_ADDR_IRRELEVANT {
                r matches Ok(ServerDispatch::Mirror(m)) && spec_mirrored(asdu, m, Cause::UnknownIOA)
            } else {
                r == Ok::<ServerDispatch, Error>(ServerDispatch::Interrogation(
                    asdu,
                    (ObjectQOI { range: asdu.raw@[3] }),
                ))
            }
        },
        asdu.identifier.type_id == TypeID::C_CI_NA_1 ==> {
            let cu = asdu.identifier.cot.cause.spec_u8();
            if cu != 6 {
                r matches Ok(ServerDispatch::Mirror(m)) && spec_mirrored(asdu, m, Cause::UnknownCOT)
            } else if asdu.identifier.common_addr == INVALID_COMMON_ADDR {
                r matches Ok(ServerDispatch::Mirror(m)) && spec_mirrored(asdu, m, Cause::UnknownCA)
            } else if asdu.raw@.len() < 4 {
                r == Err::<ServerDispatch, Error>(Error::ErrAsduTooShort)
            } else if asdu.raw@[0] + asdu.raw@[1] * 256 != INFO_OBJ_ADDR_IRRELEVANT {
                r matches Ok(ServerDispatch::Mirror(m)) && spec_mirrored(asdu, m, Cause::UnknownIOA)
            } else {
                r == Ok::<ServerDispatch, Error>(ServerDispatch::CounterInterrogation(
                    asdu,
                    (ObjectQCC { qcc: asdu.raw@[3] }),
                ))
            }
        },
{
    let type_id = asdu.identifier.type_id;
    if matches!(type_id, TypeID::C_IC_NA_1) {
        let cu = asdu.identifier.cot.cause.to_u8();
        if !(cu == 6 || cu == 8) {
            let m = asdu.mirror(Cause::UnknownCOT);
            return Ok(ServerDispatch::Mirror(m));
        }
        if asdu.identifier.common_addr == INVALID_COMMON_ADDR {
            let m = asdu.mirror(Cause::UnknownCA);
            return Ok(ServerDispatch::Mirror(m));
        }
        let (ioa, qoi) = match asdu.get_interrogation_cmd() {
            Ok(p) => p,
            Err(e) => { return Err(e); },
        };
        if ioa.addr != INFO_OBJ_ADDR_IRRELEVANT {
            let m = asdu.mirror(Cause::UnknownIOA);
            return Ok(ServerDispatch::Mirror(m));
        }
        Ok(ServerDispatch::Interrogation(asdu, qoi))
    } else if matches!(type_id, TypeID::C_CI_NA_1) {
        let cu = asdu.identifier.cot.cause.to_u8();
        if cu != 6 {
            let m = asdu.mirror(Cause::UnknownCOT);
            return Ok(ServerDispatch::Mirror(m));
        }
        if asdu.identifier.common_addr == INVALID_COMMON_ADDR {
            let m = asdu.mirror(Cause::UnknownCA);
            return Ok(ServerDispatch::Mirror(m));
        }
        let (ioa, qcc) = match asdu.get_counter_interrogation_cmd() {
            Ok(p) => p,
            Err(e) => { return Err(e); },
        };
        if ioa.addr != INFO_OBJ_ADDR_IRRELEVANT {
            let m = asdu.mirror(Cause::UnknownIOA);
            return Ok(ServerDispatch::Mirror(m));
        }
        Ok(ServerDispatch::CounterInterrogation(asdu, qcc))
    } else {
        Ok(ServerDispatch::General(asdu))
    }
}

/// `m` is `asdu` sent back with its cause of transmission replaced.
pub open spec fn spec_mirrored(asdu: Asdu, m: Asdu, cause: Cause) -> bool {
    &&& m.identifier.type_id == asdu.identifier.type_id
    &&& m.identifier.variable_struct == asdu.identifier.variable_struct
    &&& m.identifier.cot.test == asdu.identifier.cot.test
    &&& m.identifier.cot.positive == asdu.identifier.cot.positive
    &&& m.identifier.cot.cause == cause
    &&& m.identifier.orig_addr == asdu.identifier.orig_addr
    &&& m.identifier.common_addr == asdu.identifier.common_addr
    &&& m.raw@ == asdu.raw@
}

} // verus!
