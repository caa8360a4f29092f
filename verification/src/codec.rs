//! Frame codec: between a growing byte buffer and whole APDUs. Decoding is
//! length-prefixed and consumes exactly the bytes of one frame per call.

use vstd::prelude::*;
use crate::apci::{Apci, ApciKind, Apdu, APCI_FIELD_SIZE, APDU_SIZE_MAX};
use crate::asdu::{spec_identifier_bytes, spec_identifier_from, Asdu};
use crate::error::Error;

verus! {

/// The six header octets an APCI writes on the wire.
pub open spec fn spec_apci_bytes(apci: Apci) -> Seq<u8> {
    seq![apci.start, apci.apdu_length, apci.ctrl1, apci.ctrl2, apci.ctrl3, apci.ctrl4]
}

/// All octets of an APDU: the header, then the ASDU when one is carried.
pub open spec fn spec_apdu_bytes(apdu: Apdu) -> Seq<u8> {
    spec_apci_bytes(apdu.apci) + match apdu.asdu {
        Some(a) => spec_identifier_bytes(a.identifier) + a.raw@,
        None => Seq::empty(),
    }
}

/// Too few bytes for a whole frame: nothing can be consumed yet.
pub open spec fn spec_decode_incomplete(b: Seq<u8>) -> bool {
    b.len() < APCI_FIELD_SIZE || (4 <= b[1] <= 253 && b.len() < b[1] + 2)
}

/// The declared length octet lies outside 4 to 253: a framing error.
pub open spec fn spec_decode_bad_length(b: Seq<u8>) -> bool {
    b.len() >= APCI_FIELD_SIZE && !(4 <= b[1] <= 253)
}

/// A whole frame with a valid length octet waits at the front.
pub open spec fn spec_decode_ready(b: Seq<u8>) -> bool {
    b.len() >= APCI_FIELD_SIZE && 4 <= b[1] <= 253 && b.len() >= b[1] + 2
}

/// The stateless frame codec.
#[derive(Debug, PartialEq, Eq, Structural)]
pub struct Codec;

impl Default for Codec {
    fn default() -> (r: Codec)
        ensures
            r == Codec,
    {
        Codec
    }
}

/// Move the first `n` bytes out of the front of `buf`.
fn drain_front(buf: &mut Vec<u8>, n: usize) -> (head: Vec<u8>)
    requires
        n <= old(buf)@.len(),
    ensures
        head@ == old(buf)@.take(n as int),
        final(buf)@ == old(buf)@.skip(n as int),
{
    let mut rest = buf.split_off(n);
    core::mem::swap(buf, &mut rest);
    rest
}

impl Codec {
    /// Write one APDU to the back of the buffer: the six header octets,
    /// then the carried ASDU's bytes.
    pub fn encode(&mut self, apdu: Apdu, buf: &mut Vec<u8>) -> (r: Result<(), Error>)
        requires
            match apdu.asdu {
                Some(a) => a.identifier.wf(),
                None => true,
            },
        ensures
            r is Ok,
            final(buf)@ == old(buf)@ + spec_apdu_bytes(apdu),
    {
        let apci = apdu.apci;
        buf.push(apci.start);
        buf.push(apci.apdu_length);
        buf.push(apci.ctrl1);
        buf.push(apci.ctrl2);
        buf.push(apci.ctrl3);
        buf.push(apci.ctrl4);
        match apdu.asdu {
            Some(asdu) => {
                let asdu_raw = asdu.to_bytes();
                let mut i: usize = 0;
                while i < asdu_raw.len()
                    invariant
                        i <= asdu_raw@.len(),
                        buf@ == old(buf)@ + spec_apci_bytes(apdu.apci) + asdu_raw@.take(i as int),
                    decreases asdu_raw@.len() - i,
                {
                    buf.push(asdu_raw[i]);
                    i = i + 1;
                    proof {
                        assert(asdu_raw@.take(i as int) == asdu_raw@.take(i - 1).push(
                            asdu_raw@[i - 1],
                        ));
                    }
                }
                proof {
                    assert(asdu_raw@.take(asdu_raw@.len() as int) == asdu_raw@);
                    assert(buf@ =~= old(buf)@ + spec_apdu_bytes(apdu));
                }
            },
            None => {
                proof {
                    assert(buf@ =~= old(buf)@ + spec_apdu_bytes(apdu));
                }
            },
        }
        Ok(())
    }

    /// Read one APDU from the front of the buffer, when a whole one is
    /// there. Nothing is consumed while bytes are missing; a frame whose
    /// declared length lies outside 4 to 253 is a framing error; an I-frame
    /// whose body fails ASDU parsing comes back with no ASDU, which the
    /// session treats as fatal. On success exactly the declared frame —
    /// the start and length octets and `length` more bytes — is consumed,
    /// whatever the frame's kind.
    pub fn decode(&mut self, buf: &mut Vec<u8>) -> (r: Result<Option<Apdu>, Error>)
        ensures
            spec_decode_incomplete(old(buf)@) ==> r == Ok::<Option<Apdu>, Error>(None)
                && final(buf)@ == old(buf)@,
            spec_decode_bad_length(old(buf)@) ==> r == Err::<Option<Apdu>, Error>(
                Error::ErrInvalidApduLength((old(buf)@[1] + 2) as usize),
            ) && final(buf)@ == old(buf)@,
            spec_decode_ready(old(buf)@) && old(buf)@[0] != crate::START_FRAME ==> r == Err::<
                Option<Apdu>,
                Error,
            >(Error::ErrInvalidStartFrame(old(buf)@[0])) && final(buf)@ == old(buf)@.skip(
                APCI_FIELD_SIZE as int,
            ),
            spec_decode_ready(old(buf)@) && old(buf)@[0] == crate::START_FRAME ==> match r {
                Ok(Some(apdu)) => {
                    &&& spec_apci_bytes(apdu.apci) == old(buf)@.take(APCI_FIELD_SIZE as int)
                    &&& (apdu.apci.ctrl1 % 2 == 0 ==> {
                        let body = old(buf)@.subrange(APCI_FIELD_SIZE as int, old(buf)@[1] + 2);
                        &&& final(buf)@ == old(buf)@.skip(old(buf)@[1] + 2)
                        &&& match apdu.asdu {
                            Some(a) => body.len() >= 6 && spec_identifier_from(body) == Some(
                                a.identifier,
                            ) && a.raw@ == body.skip(6),
                            None => body.len() < 6 || spec_identifier_from(body) is None,
                        }
                    })
                    &&& (apdu.apci.ctrl1 % 2 != 0 ==> final(buf)@ == old(buf)@.skip(
                        old(buf)@[1] + 2,
                    ) && apdu.asdu is None)
                },
                _ => false,
            },
    {
        if buf.len() < APCI_FIELD_SIZE {
            return Ok(None);
        }
        let len = buf[1] as usize + 2;
        if !(APCI_FIELD_SIZE <= len && len <= APDU_SIZE_MAX) {
            return Err(Error::ErrInvalidApduLength(len));
        }
        if buf.len() < len {
            return Ok(None);
        }
        let apci_data = drain_front(buf, APCI_FIELD_SIZE);
        if apci_data[0] != crate::START_FRAME {
            return Err(Error::ErrInvalidStartFrame(apci_data[0]));
        }
        let apci = Apci {
            start: apci_data[0],
            apdu_length: apci_data[1],
            ctrl1: apci_data[2],
            ctrl2: apci_data[3],
            ctrl3: apci_data[4],
            ctrl4: apci_data[5],
        };
        proof {
            assert(spec_apci_bytes(apci) =~= old(buf)@.take(APCI_FIELD_SIZE as int));
        }
        let apci_kind = ApciKind::from_apci(apci);
        match apci_kind {
            ApciKind::I(_) => {
                let asdu_data = drain_front(buf, len - APCI_FIELD_SIZE);
                proof {
                    assert(asdu_data@ =~= old(buf)@.subrange(
                        APCI_FIELD_SIZE as int,
                        old(buf)@[1] + 2,
                    ));
                    assert(old(buf)@.skip(APCI_FIELD_SIZE as int).skip(
                        (len - APCI_FIELD_SIZE) as int,
                    ) =~= old(buf)@.skip(old(buf)@[1] + 2));
                }
                match Asdu::from_bytes(asdu_data) {
                    Ok(asdu) => Ok(Some(Apdu { apci, asdu: Some(asdu) })),
                    Err(_) => Ok(Some(Apdu { apci, asdu: None })),
                }
            },
            _ => {
                // An S- or U-frame normally declares length 4; whatever it
                // declared, the whole frame is consumed.
                drain_front(buf, len - APCI_FIELD_SIZE);
                proof {
                    assert(old(buf)@.skip(APCI_FIELD_SIZE as int).skip(
                        (len - APCI_FIELD_SIZE) as int,
                    ) =~= old(buf)@.skip(old(buf)@[1] + 2));
                }
                Ok(Some(Apdu { apci, asdu: None }))
            },
        }
    }
}

} // verus!
