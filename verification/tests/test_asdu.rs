use iecp5::asdu::{Asdu, Cause, CauseOfTransmission, Identifier, TypeID, VariableStruct};
use iecp5::error::Error;

#[test]
fn test_asdu_decode_and_encode_asdu() {
    let bytes: Vec<u8> = vec![0x01, 0x01, 0x06, 0x00, 0x80, 0x00, 0x00, 0x01, 0x02, 0x03];
    let asdu = Asdu::from_bytes(bytes.clone()).unwrap();
    assert_eq!(asdu.identifier.type_id, TypeID::M_SP_NA_1);
    assert_eq!(asdu.identifier.variable_struct.number, 0x01);
    assert_eq!(asdu.identifier.cot.cause, Cause::Activation);
    assert_eq!(asdu.identifier.orig_addr, 0x00);
    assert_eq!(asdu.identifier.common_addr, 0x80);
    assert_eq!(asdu.raw, vec![0x00, 0x01, 0x02, 0x03]);

    let raw = asdu.to_bytes();
    assert_eq!(bytes, raw);
}

#[test]
fn asdu_decode_and_encode_asdu() {
    let bytes: Vec<u8> = vec![0x01, 0x01, 0x06, 0x00, 0x80, 0x00, 0x00, 0x01, 0x02, 0x03];
    let asdu = Asdu::from_bytes(bytes.clone()).unwrap();
    assert_eq!(asdu.identifier.type_id, TypeID::M_SP_NA_1);
    assert_eq!(asdu.identifier.variable_struct.number, 0x01);
    assert!(!asdu.identifier.variable_struct.is_sequence);
    assert_eq!(asdu.identifier.cot.cause, Cause::Activation);
    assert_eq!(asdu.identifier.orig_addr, 0x00);
    assert_eq!(asdu.identifier.common_addr, 0x80);
    assert_eq!(asdu.raw, vec![0x00, 0x01, 0x02, 0x03]);

    let raw = asdu.to_bytes();
    assert_eq!(bytes, raw);
}

#[test]
fn asdu_from_bytes() {
    let bytes: Vec<u8> = vec![
        0x30, 0x01, 0x6C, 0x00, 0x01, 0x00, 0x05, 0x62, 0x00, 0x32, 0x00, 0x80,
    ];
    let asdu = Asdu::from_bytes(bytes.clone()).unwrap();
    assert_eq!(asdu.identifier.type_id, TypeID::C_SE_NA_1);
    assert_eq!(asdu.identifier.variable_struct.number, 0x01);
    assert_eq!(asdu.identifier.cot.cause, Cause::UnknownTypeID);
    assert_eq!(asdu.identifier.orig_addr, 0x00);
    assert_eq!(asdu.identifier.common_addr, 0x01);
    assert_eq!(asdu.raw, vec![0x05, 0x62, 0x00, 0x32, 0x00, 0x80]);

    let raw = asdu.to_bytes();
    assert_eq!(bytes, raw);
}

#[test]
fn asdu_from_bytes_rejects_unknown_type() {
    // Type octet 42 is assigned to nothing.
    let bytes: Vec<u8> = vec![42, 0x01, 0x06, 0x00, 0x01, 0x00, 0x00];
    match Asdu::from_bytes(bytes) {
        Err(Error::ErrUnknownTypeID(42)) => {}
        other => panic!("unexpected result: {other:?}"),
    }
}

#[test]
fn asdu_from_bytes_rejects_unknown_cause() {
    // Cause number 50 lies in the unassigned range 48 to 63.
    let bytes: Vec<u8> = vec![0x01, 0x01, 50, 0x00, 0x01, 0x00, 0x00];
    match Asdu::from_bytes(bytes) {
        Err(Error::ErrInvalidCause(50)) => {}
        other => panic!("unexpected result: {other:?}"),
    }
}

#[test]
fn asdu_from_bytes_rejects_short_input() {
    let bytes: Vec<u8> = vec![0x01, 0x01, 0x06];
    match Asdu::from_bytes(bytes) {
        Err(Error::ErrAsduTooShort) => {}
        other => panic!("unexpected result: {other:?}"),
    }
}

#[test]
fn mirror_replaces_cause_and_keeps_body() {
    let asdu = Asdu {
        identifier: Identifier {
            type_id: TypeID::C_IC_NA_1,
            variable_struct: VariableStruct::from_raw(0x01),
            cot: CauseOfTransmission::new(true, false, Cause::Activation),
            orig_addr: 7,
            common_addr: 3,
        },
        raw: vec![0x00, 0x00, 0x00, 0x14],
    };
    let m = asdu.mirror(Cause::UnknownCOT);
    assert_eq!(m.identifier.cot.cause, Cause::UnknownCOT);
    assert!(m.identifier.cot.test);
    assert!(!m.identifier.cot.positive);
    assert_eq!(m.identifier.type_id, TypeID::C_IC_NA_1);
    assert_eq!(m.identifier.common_addr, 3);
    assert_eq!(m.raw, asdu.raw);
}

#[test]
fn cause_octet_round_trip() {
    let cot = CauseOfTransmission::new(true, true, Cause::InterrogatedByGroup7);
    let v = cot.raw();
    assert_eq!(v, 128 + 64 + 27);
    assert_eq!(CauseOfTransmission::try_from(v).unwrap(), cot);
}

#[test]
fn type_id_octet_round_trip() {
    assert_eq!(TypeID::M_SP_NA_1.to_u8(), 1);
    assert_eq!(TypeID::F_SC_NB_1.to_u8(), 127);
    assert_eq!(TypeID::try_from(100).unwrap(), TypeID::C_IC_NA_1);
    assert_eq!(TypeID::try_from(16).unwrap(), TypeID::M_IT_TA_1);
    // The reserved compatibility octets decode as integrated totals.
    assert_eq!(TypeID::try_from(53).unwrap(), TypeID::M_IT_TA_1);
    match TypeID::try_from(42) {
        Err(Error::ErrUnknownTypeID(42)) => {}
        other => panic!("unexpected result: {other:?}"),
    }
}
