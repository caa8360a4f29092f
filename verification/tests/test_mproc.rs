use chrono::{Datelike, Timelike};
use iecp5::asdu::{Asdu, Cause, CauseOfTransmission, Identifier, InfoObjAddr, TypeID, VariableStruct};
use iecp5::mproc::{
    double, measured_value_float, measured_value_normal, measured_value_scaled, single,
    BinaryCounterReadingInfo, DoublePointInfo, MeasuredValueFloatInfo, MeasuredValueNormalInfo,
    MeasuredValueScaledInfo, ObjectBCR, ObjectDIQ, ObjectQDS, ObjectSIQ, SinglePointInfo,
};
use iecp5::time::Time2a;

fn ident(type_id: TypeID, vs_raw: u8) -> Identifier {
    Identifier {
        type_id,
        variable_struct: VariableStruct::from_raw(vs_raw),
        cot: CauseOfTransmission::try_from(0).unwrap(),
        orig_addr: 0,
        common_addr: 0,
    }
}

/// The current clock reading, shaped as the CP24 decoder fills it in.
fn clock_fields() -> (u8, u8, u8, u8, u8) {
    let now = chrono::Utc::now();
    (
        now.hour() as u8,
        now.weekday().number_from_monday() as u8,
        now.day() as u8,
        now.month() as u8,
        (now.year() - 2000) as u8,
    )
}

#[test]
fn mproc_decode_singlepiont() {
    // M_SP_NA_1, individual addresses, two objects.
    let asdu = Asdu {
        identifier: ident(TypeID::M_SP_NA_1, 0x02),
        raw: vec![0x01, 0x00, 0x00, 0x11, 0x02, 0x00, 0x00, 0x10],
    };
    let want = vec![
        SinglePointInfo::new(InfoObjAddr::new(0, 1), ObjectSIQ::from_raw(0x11), None),
        SinglePointInfo::new(InfoObjAddr::new(0, 2), ObjectSIQ::from_raw(0x10), None),
    ];
    assert_eq!(asdu.get_single_point().unwrap(), want);

    // M_SP_NA_1, sequence layout, two objects.
    let asdu = Asdu {
        identifier: ident(TypeID::M_SP_NA_1, 0x82),
        raw: vec![0x01, 0x00, 0x00, 0x11, 0x10],
    };
    assert_eq!(asdu.get_single_point().unwrap(), want);

    // M_SP_TB_1 with full time tags.
    let t = Time2a {
        millisecond: 513,
        minute: 3,
        hour: 4,
        day_of_week: 3,
        day: 5,
        month: 6,
        year: 19,
    };
    let asdu = Asdu {
        identifier: ident(TypeID::M_SP_TB_1, 0x02),
        raw: vec![
            0x01, 0x00, 0x00, 0x11, 0x01, 0x02, 0x03, 0x04, 0x65, 0x06, 0x13, 0x02, 0x00, 0x00,
            0x10, 0x01, 0x02, 0x03, 0x04, 0x65, 0x06, 0x13,
        ],
    };
    let want_tb = vec![
        SinglePointInfo::new(InfoObjAddr::new(0, 1), ObjectSIQ::from_raw(0x11), Some(t)),
        SinglePointInfo::new(InfoObjAddr::new(0, 2), ObjectSIQ::from_raw(0x10), Some(t)),
    ];
    assert_eq!(asdu.get_single_point().unwrap(), want_tb);

    // M_SP_TA_1: the CP24 tag carries milliseconds and minute; the decoder
    // fills the calendar fields from the clock.
    let (hour, day_of_week, day, month, year) = clock_fields();
    let t24 = Time2a { millisecond: 513, minute: 3, hour, day_of_week, day, month, year };
    let asdu = Asdu {
        identifier: ident(TypeID::M_SP_TA_1, 0x02),
        raw: vec![
            0x01, 0x00, 0x00, 0x11, 0x01, 0x02, 0x03, 0x02, 0x00, 0x00, 0x10, 0x01, 0x02, 0x03,
        ],
    };
    let want_ta = vec![
        SinglePointInfo::new(InfoObjAddr::new(0, 1), ObjectSIQ::from_raw(0x11), Some(t24)),
        SinglePointInfo::new(InfoObjAddr::new(0, 2), ObjectSIQ::from_raw(0x10), Some(t24)),
    ];
    assert_eq!(asdu.get_single_point().unwrap(), want_ta);
}

#[test]
fn test_mproc_decode_singlepiont() {
    let asdu = Asdu {
        identifier: ident(TypeID::M_SP_NA_1, 0x02),
        raw: vec![0x01, 0x00, 0x00, 0x11, 0x02, 0x00, 0x00, 0x10],
    };
    let want = vec![
        SinglePointInfo::new(InfoObjAddr::new(0, 1), ObjectSIQ::from_raw(0x11), None),
        SinglePointInfo::new(InfoObjAddr::new(0, 2), ObjectSIQ::from_raw(0x10), None),
    ];
    assert_eq!(asdu.get_single_point().unwrap(), want);

    let asdu = Asdu {
        identifier: ident(TypeID::M_SP_NA_1, 0x82),
        raw: vec![0x01, 0x00, 0x00, 0x11, 0x10],
    };
    assert_eq!(asdu.get_single_point().unwrap(), want);
}

#[test]
fn decode_measured_value_float() {
    let r1 = 100f32.to_le_bytes();
    let r2 = 101f32.to_le_bytes();
    let qds = ObjectQDS::new(false, false, false, true, 0, false);

    // Individual addresses.
    let asdu = Asdu {
        identifier: ident(TypeID::M_ME_NC_1, 0x02),
        raw: vec![
            0x01, 0x00, 0x00, r1[0], r1[1], r1[2], r1[3], 0x10, 0x02, 0x00, 0x00, r2[0], r2[1],
            r2[2], r2[3], 0x10,
        ],
    };
    let want = vec![
        MeasuredValueFloatInfo::new(InfoObjAddr::new(0, 1), 100f32.to_bits(), qds, None),
        MeasuredValueFloatInfo::new(InfoObjAddr::new(0, 2), 101f32.to_bits(), qds, None),
    ];
    assert_eq!(asdu.get_measured_value_float().unwrap(), want);

    // Sequence layout.
    let asdu = Asdu {
        identifier: ident(TypeID::M_ME_NC_1, 0x82),
        raw: vec![
            0x01, 0x00, 0x00, r1[0], r1[1], r1[2], r1[3], 0x10, r2[0], r2[1], r2[2], r2[3], 0x10,
        ],
    };
    assert_eq!(asdu.get_measured_value_float().unwrap(), want);
}

#[test]
fn test_single() {
    // An invalid cause is rejected.
    let r = single(
        false,
        CauseOfTransmission::new(false, false, Cause::Unused),
        0x1234,
        vec![],
    );
    assert!(r.is_err());

    // Individual addresses, two objects.
    let infos = vec![
        SinglePointInfo::new(
            InfoObjAddr::new(0, 1),
            ObjectSIQ::new(false, false, false, true, 0, true),
            None,
        ),
        SinglePointInfo::new(
            InfoObjAddr::new(0, 2),
            ObjectSIQ::new(false, false, false, true, 0, false),
            None,
        ),
    ];
    let asdu = single(
        false,
        CauseOfTransmission::new(false, false, Cause::Background),
        0x1234,
        infos.clone(),
    )
    .unwrap();
    let want_bytes: Vec<u8> = vec![
        1, 0x02, 0x02, 0x00, 0x34, 0x12, 0x01, 0x00, 0x00, 0x11, 0x02, 0x00, 0x00, 0x10,
    ];
    assert_eq!(asdu.to_bytes(), want_bytes);

    // Sequence layout, two objects.
    let asdu = single(
        true,
        CauseOfTransmission::new(false, false, Cause::Background),
        0x1234,
        infos,
    )
    .unwrap();
    let want_bytes: Vec<u8> = vec![
        1, 0x82, 0x02, 0x00, 0x34, 0x12, 0x01, 0x00, 0x00, 0x11, 0x10,
    ];
    assert_eq!(asdu.to_bytes(), want_bytes);
}

#[test]
fn single_point_sq_one_object_matches_individual() {
    // A one-object run lays out the same with and without the sequence flag.
    let infos = vec![SinglePointInfo::new(
        InfoObjAddr::new(0, 9),
        ObjectSIQ::new_with_value(true),
        None,
    )];
    let cot = CauseOfTransmission::new(false, false, Cause::Spontaneous);
    let a0 = single(false, cot, 1, infos.clone()).unwrap();
    let a1 = single(true, cot, 1, infos).unwrap();
    assert_eq!(a0.raw, a1.raw);
    assert_eq!(a0.get_single_point().unwrap(), a1.get_single_point().unwrap());
}

#[test]
fn double_point_round_trip() {
    let infos = vec![
        DoublePointInfo::new(InfoObjAddr::new(0, 10), ObjectDIQ::new(false, false, false, false, 0, 2), None),
        DoublePointInfo::new(InfoObjAddr::new(0, 11), ObjectDIQ::new(true, false, false, false, 0, 1), None),
    ];
    let cot = CauseOfTransmission::new(false, false, Cause::Spontaneous);
    let asdu = double(false, cot, 7, infos.clone()).unwrap();
    assert_eq!(asdu.identifier.type_id, TypeID::M_DP_NA_1);
    assert_eq!(asdu.get_double_point().unwrap(), infos);
}

#[test]
fn measured_value_normal_round_trip() {
    let qds = ObjectQDS::new(false, false, false, false, 0, false);
    let infos = vec![
        MeasuredValueNormalInfo::new(InfoObjAddr::new(0, 20), -12345, Some(qds), None),
        MeasuredValueNormalInfo::new(InfoObjAddr::new(0, 21), 32767, Some(qds), None),
    ];
    let cot = CauseOfTransmission::new(false, false, Cause::Periodic);
    let asdu = measured_value_normal(false, cot, 2, infos.clone()).unwrap();
    assert_eq!(asdu.identifier.type_id, TypeID::M_ME_NA_1);
    assert_eq!(asdu.get_measured_value_normal().unwrap(), infos);
}

#[test]
fn measured_value_scaled_round_trip() {
    let qds = ObjectQDS::new(false, true, false, false, 0, true);
    let infos = vec![MeasuredValueScaledInfo::new(InfoObjAddr::new(0, 30), -1, qds, None)];
    let cot = CauseOfTransmission::new(false, false, Cause::Request);
    let asdu = measured_value_scaled(cot, 2, infos.clone()).unwrap();
    assert_eq!(asdu.identifier.type_id, TypeID::M_ME_NB_1);
    assert_eq!(asdu.get_measured_value_scaled().unwrap(), infos);
}

#[test]
fn integrated_totals_round_trip() {
    let bcr = ObjectBCR { invalid: false, ca: true, cy: false, seq: 17, value: -100000 };
    let infos = vec![BinaryCounterReadingInfo::new(InfoObjAddr::new(0, 40), bcr, None)];
    let cot = CauseOfTransmission::new(false, false, Cause::Spontaneous);
    let asdu = iecp5::mproc::integrated_totals(cot, 2, infos.clone()).unwrap();
    assert_eq!(asdu.identifier.type_id, TypeID::M_IT_NA_1);
    assert_eq!(asdu.get_integrated_totals().unwrap(), infos);
}

#[test]
fn timed_single_point_fills_current_time() {
    // An element handed over without a time gets a well-formed current time.
    let infos = vec![SinglePointInfo::new(
        InfoObjAddr::new(0, 5),
        ObjectSIQ::new_with_value(true),
        None,
    )];
    let cot = CauseOfTransmission::new(false, false, Cause::Spontaneous);
    let asdu = iecp5::mproc::single_cp56time2a(cot, 1, infos).unwrap();
    assert_eq!(asdu.raw.len(), 3 + 1 + 7);
    let got = asdu.get_single_point().unwrap();
    assert_eq!(got.len(), 1);
    let t = got[0].time.expect("a current time was written");
    assert!(t.millisecond <= 59999);
    assert!(t.minute <= 59 && t.hour <= 23);
    assert!((1..=31).contains(&t.day) && (1..=12).contains(&t.month) && t.year <= 99);
}

#[test]
fn get_single_point_rejects_wrong_type() {
    let asdu = Asdu { identifier: ident(TypeID::C_IC_NA_1, 0x01), raw: vec![0, 0, 0, 20] };
    match asdu.get_single_point() {
        Err(iecp5::error::Error::ErrTypeIDNotMatch(TypeID::C_IC_NA_1)) => {}
        other => panic!("unexpected result: {other:?}"),
    }
}

#[test]
fn get_single_point_rejects_short_body() {
    let asdu = Asdu { identifier: ident(TypeID::M_SP_NA_1, 0x02), raw: vec![0x01, 0x00, 0x00, 0x11] };
    match asdu.get_single_point() {
        Err(iecp5::error::Error::ErrAsduTooShort) => {}
        other => panic!("unexpected result: {other:?}"),
    }
}
