use iecp5::apci::{
    new_iframe, new_sframe, new_uframe, seq_no_count, update_ack_no_out, Apci, ApciKind, SeqPending,
    APDU_SIZE_MAX, U_STARTDT_ACTIVE, U_TESTFR_ACTIVE,
};
use iecp5::asdu::{Asdu, Cause, CauseOfTransmission, Identifier, TypeID, VariableStruct};
use iecp5::codec::Codec;
use iecp5::START_FRAME;
use std::collections::VecDeque;

#[test]
fn decode_iapci() {
    let mut codec = Codec;
    let mut buf: Vec<u8> = vec![START_FRAME, 0x04, 0x02, 0x00, 0x03, 0x00];
    let apdu = codec.decode(&mut buf).unwrap().expect("decode failed");
    match ApciKind::from_apci(apdu.apci) {
        ApciKind::I(apci) => {
            assert_eq!(apci.send_sn, 0x01);
            assert_eq!(apci.rcv_sn, 0x01);
        }
        _ => panic!(),
    }
}

#[test]
fn decode_sapci() {
    let mut codec = Codec;
    let mut buf: Vec<u8> = vec![START_FRAME, 0x04, 0x01, 0x00, 0x02, 0x00];
    let apdu = codec.decode(&mut buf).unwrap().expect("decode failed");
    match ApciKind::from_apci(apdu.apci) {
        ApciKind::S(apci) => {
            assert_eq!(apci.rcv_sn, 0x01);
        }
        _ => panic!(),
    }
}

#[test]
fn decode_uapci() {
    let mut codec = Codec;
    let mut buf: Vec<u8> = vec![START_FRAME, 0x04, 0x07, 0x00, 0x00, 0x00];
    let apdu = codec.decode(&mut buf).unwrap().expect("decode failed");
    match ApciKind::from_apci(apdu.apci) {
        ApciKind::U(apci) => {
            assert_eq!(apci.function, U_STARTDT_ACTIVE);
        }
        _ => panic!(),
    }
}

#[test]
fn encode_iapci() {
    let mut codec = Codec;
    let apdu = iecp5::apci::Apdu {
        apci: Apci {
            start: START_FRAME,
            apdu_length: 0x04 + 6 + 8,
            ctrl1: 0x02,
            ctrl2: 0x00,
            ctrl3: 0x03,
            ctrl4: 0x00,
        },
        asdu: Some(Asdu {
            identifier: Identifier {
                type_id: TypeID::M_SP_NA_1,
                variable_struct: VariableStruct::from_raw(0x02),
                cot: CauseOfTransmission::try_from(0x06)
                    .expect("failed convert into cause of transmission"),
                orig_addr: 0,
                common_addr: 0,
            },
            raw: vec![0x01, 0x00, 0x00, 0x11, 0x02, 0x00, 0x00, 0x10],
        }),
    };
    let expected = [
        START_FRAME,
        0x04 + 6 + 8,
        0x02,
        0x00,
        0x03,
        0x00,
        0x01,
        0x02,
        0x06,
        0x00,
        0x00,
        0x00,
        0x01,
        0x00,
        0x00,
        0x11,
        0x02,
        0x00,
        0x00,
        0x10,
    ];
    let mut buf: Vec<u8> = Vec::with_capacity(APDU_SIZE_MAX);
    codec.encode(apdu, &mut buf).unwrap();
    assert_eq!(buf.as_slice(), &expected[..]);
}

#[test]
fn classify_constructed_frames() {
    // Every frame kind classifies back as itself with its numbers.
    let asdu = Asdu {
        identifier: Identifier {
            type_id: TypeID::M_SP_NA_1,
            variable_struct: VariableStruct::from_raw(0x01),
            cot: CauseOfTransmission::new(false, false, Cause::Spontaneous),
            orig_addr: 0,
            common_addr: 1,
        },
        raw: vec![0x01, 0x00, 0x00, 0x01],
    };
    let iframe = new_iframe(asdu, 32767, 12345);
    match ApciKind::from_apci(iframe.apci) {
        ApciKind::I(i) => {
            assert_eq!(i.send_sn, 32767);
            assert_eq!(i.rcv_sn, 12345);
        }
        _ => panic!(),
    }
    let sframe = new_sframe(9999);
    match ApciKind::from_apci(sframe.apci) {
        ApciKind::S(s) => assert_eq!(s.rcv_sn, 9999),
        _ => panic!(),
    }
    let uframe = new_uframe(U_TESTFR_ACTIVE);
    match ApciKind::from_apci(uframe.apci) {
        ApciKind::U(u) => assert_eq!(u.function, U_TESTFR_ACTIVE),
        _ => panic!(),
    }
}

#[test]
fn seq_no_count_wraps() {
    assert_eq!(seq_no_count(0, 0), 0);
    assert_eq!(seq_no_count(5, 12), 7);
    assert_eq!(seq_no_count(32760, 4), 12);
}

#[test]
fn update_ack_no_out_releases_pending() {
    let mut ack_sendsn: u16 = 3;
    let mut send_sn: u16 = 7;
    let mut pending: VecDeque<SeqPending> = VecDeque::new();
    for i in 3..7u16 {
        pending.push_back(SeqPending { seq: i, send_time: 1000 + i as u64 });
    }
    // Acknowledge up to 5: entries 3 and 4 leave the queue.
    assert!(update_ack_no_out(5, &mut ack_sendsn, &mut send_sn, &mut pending));
    assert_eq!(ack_sendsn, 5);
    assert_eq!(send_sn, 7);
    assert_eq!(pending.len(), 2);
    assert_eq!(pending[0].seq, 5);
    // An acknowledgement beyond what was sent is refused and changes nothing.
    assert!(!update_ack_no_out(9, &mut ack_sendsn, &mut send_sn, &mut pending));
    assert_eq!(ack_sendsn, 5);
    assert_eq!(pending.len(), 2);
    // Acknowledging the current mark is a no-op.
    assert!(update_ack_no_out(5, &mut ack_sendsn, &mut send_sn, &mut pending));
    assert_eq!(pending.len(), 2);
}
