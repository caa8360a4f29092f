use iecp5::codec::Codec;
use iecp5::error::Error;
use iecp5::START_FRAME;

#[test]
fn incomplete_frames_consume_nothing() {
    let mut codec = Codec;
    // Fewer than six bytes: wait for more.
    let mut buf: Vec<u8> = vec![START_FRAME, 0x04, 0x01];
    assert!(codec.decode(&mut buf).unwrap().is_none());
    assert_eq!(buf.len(), 3);
    // A declared length beyond what arrived: wait for more.
    let mut buf: Vec<u8> = vec![START_FRAME, 0x0a, 0x01, 0x00, 0x02, 0x00, 0x00];
    assert!(codec.decode(&mut buf).unwrap().is_none());
    assert_eq!(buf.len(), 7);
}

#[test]
fn length_bounds_are_enforced() {
    let mut codec = Codec;
    // Length octet 4 is the smallest a frame can declare: accepted.
    let mut buf: Vec<u8> = vec![START_FRAME, 0x04, 0x01, 0x00, 0x02, 0x00];
    assert!(codec.decode(&mut buf).unwrap().is_some());
    assert_eq!(buf.len(), 0);
    // Length octet 3 is a framing error.
    let mut buf: Vec<u8> = vec![START_FRAME, 0x03, 0x01, 0x00, 0x02, 0x00];
    match codec.decode(&mut buf) {
        Err(Error::ErrInvalidApduLength(5)) => {}
        other => panic!("unexpected result: {other:?}"),
    }
    // Length octet 254 is a framing error too.
    let mut buf: Vec<u8> = vec![START_FRAME, 254, 0x01, 0x00, 0x02, 0x00];
    match codec.decode(&mut buf) {
        Err(Error::ErrInvalidApduLength(256)) => {}
        other => panic!("unexpected result: {other:?}"),
    }
}

#[test]
fn whole_frame_consumed_whatever_the_kind() {
    let mut codec = Codec;
    // An S-frame that declares one more byte than its control field: the
    // declared frame is consumed whole, leaving the next frame aligned.
    let mut buf: Vec<u8> = vec![START_FRAME, 0x05, 0x01, 0x00, 0x02, 0x00, 0x99];
    let apdu = codec.decode(&mut buf).unwrap().expect("a whole frame");
    assert!(apdu.asdu.is_none());
    assert_eq!(buf.len(), 0);
}

#[test]
fn bad_start_octet_is_a_framing_error() {
    let mut codec = Codec;
    let mut buf: Vec<u8> = vec![0x69, 0x04, 0x01, 0x00, 0x02, 0x00];
    match codec.decode(&mut buf) {
        Err(Error::ErrInvalidStartFrame(0x69)) => {}
        other => panic!("unexpected result: {other:?}"),
    }
}

#[test]
fn iframe_with_unparsable_asdu_comes_back_empty() {
    let mut codec = Codec;
    // An I-frame whose declared body is shorter than an ASDU identifier.
    let mut buf: Vec<u8> = vec![START_FRAME, 0x07, 0x02, 0x00, 0x02, 0x00, 0x01, 0x01, 0x06];
    let apdu = codec.decode(&mut buf).unwrap().expect("a whole frame");
    assert!(apdu.asdu.is_none());
    assert_eq!(buf.len(), 0);
}

#[test]
fn encode_then_decode_round_trip() {
    let mut codec = Codec;
    let cot = iecp5::asdu::CauseOfTransmission::new(false, false, iecp5::asdu::Cause::Activation);
    let asdu = iecp5::csys::interrogation_cmd(cot, 1, iecp5::csys::ObjectQOI::new(20)).unwrap();
    let apdu = iecp5::apci::new_iframe(asdu, 3, 4);
    let mut buf: Vec<u8> = Vec::new();
    codec.encode(apdu, &mut buf).unwrap();
    let got = codec.decode(&mut buf).unwrap().expect("a whole frame");
    assert_eq!(buf.len(), 0);
    match iecp5::apci::ApciKind::from_apci(got.apci) {
        iecp5::apci::ApciKind::I(i) => {
            assert_eq!(i.send_sn, 3);
            assert_eq!(i.rcv_sn, 4);
        }
        _ => panic!(),
    }
    let back = got.asdu.expect("the ASDU parses back");
    assert_eq!(back.identifier.type_id, iecp5::asdu::TypeID::C_IC_NA_1);
    assert_eq!(back.raw, vec![0x00, 0x00, 0x00, 20]);
}
