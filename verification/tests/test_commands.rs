use iecp5::asdu::{Cause, CauseOfTransmission, TypeID};
use iecp5::cproc::{
    bits_string32_cmd, double_cmd, set_point_cmd_float, set_point_cmd_normal, set_point_cmd_scaled,
    single_cmd, BitsString32CommandInfo, DoubleCommandInfo, SetpointCommandFloatInfo,
    SetpointCommandNormalInfo, SetpointCommandScaledInfo, SingleCommandInfo,
};
use iecp5::csys::{
    clock_synchronization_cmd, counter_interrogation_cmd, delay_acquire_command, interrogation_cmd,
    read_cmd, reset_process_cmd, test_command, test_command_cp56time2a, ObjectQCC, ObjectQOI,
};
use iecp5::error::Error;
use iecp5::time::Time2a;

fn act() -> CauseOfTransmission {
    CauseOfTransmission::new(false, false, Cause::Activation)
}

#[test]
fn single_cmd_round_trip() {
    let cmd = SingleCommandInfo::new(0x0102, true, false);
    let asdu = single_cmd(TypeID::C_SC_NA_1, act(), 1, cmd).unwrap();
    assert_eq!(asdu.identifier.type_id, TypeID::C_SC_NA_1);
    assert_eq!(asdu.raw, vec![0x02, 0x01, 0x00, 0x80]);
    let got = asdu.get_single_cmd().unwrap();
    assert_eq!(got, cmd);
}

#[test]
fn single_cmd_timed_round_trip() {
    let t = Time2a { millisecond: 1000, minute: 1, hour: 2, day_of_week: 4, day: 3, month: 4, year: 21 };
    let mut cmd = SingleCommandInfo::new(7, false, true);
    cmd.time = Some(t);
    let asdu = single_cmd(TypeID::C_SC_TA_1, act(), 1, cmd).unwrap();
    assert_eq!(asdu.raw.len(), 11);
    let got = asdu.get_single_cmd().unwrap();
    assert_eq!(got, cmd);
}

#[test]
fn single_cmd_rejects_bad_cause_and_type() {
    let cmd = SingleCommandInfo::new(1, true, false);
    let cot = CauseOfTransmission::new(false, false, Cause::Spontaneous);
    match single_cmd(TypeID::C_SC_NA_1, cot, 1, cmd) {
        Err(Error::ErrCmdCause(_)) => {}
        other => panic!("unexpected result: {other:?}"),
    }
    match single_cmd(TypeID::M_SP_NA_1, act(), 1, cmd) {
        Err(Error::ErrTypeIDNotMatch(TypeID::M_SP_NA_1)) => {}
        other => panic!("unexpected result: {other:?}"),
    }
}

#[test]
fn double_cmd_round_trip() {
    let cmd = DoubleCommandInfo::new(0x2004, 2, false);
    let asdu = double_cmd(TypeID::C_DC_NA_1, act(), 3, cmd).unwrap();
    assert_eq!(asdu.raw, vec![0x04, 0x20, 0x00, 0x80]);
    assert_eq!(asdu.get_double_cmd().unwrap(), cmd);
}

#[test]
fn set_point_cmd_normal_round_trip() {
    let cmd = SetpointCommandNormalInfo::new(5, -2);
    let asdu = set_point_cmd_normal(TypeID::C_SE_NA_1, act(), 1, cmd).unwrap();
    assert_eq!(asdu.raw, vec![0x05, 0x00, 0x00, 0xfe, 0xff, 0x00]);
    assert_eq!(asdu.get_setpoint_normal_cmd().unwrap(), cmd);
}

#[test]
fn set_point_cmd_scaled_round_trip() {
    let cmd = SetpointCommandScaledInfo::new(6, 0x1234);
    let asdu = set_point_cmd_scaled(TypeID::C_SE_NB_1, act(), 1, cmd).unwrap();
    assert_eq!(asdu.raw, vec![0x06, 0x00, 0x00, 0x34, 0x12, 0x00]);
    assert_eq!(asdu.get_setpoint_scaled_cmd().unwrap(), cmd);
}

#[test]
fn set_point_cmd_float_round_trip() {
    let cmd = SetpointCommandFloatInfo::new(7, 1.5f32.to_bits());
    let asdu = set_point_cmd_float(TypeID::C_SE_NC_1, act(), 1, cmd).unwrap();
    let got = asdu.get_setpoint_float_cmd().unwrap();
    assert_eq!(got, cmd);
    assert_eq!(f32::from_bits(got.r), 1.5f32);
}

#[test]
fn bits_string32_cmd_round_trip() {
    let cmd = BitsString32CommandInfo::new(8, -559038737);
    let asdu = bits_string32_cmd(TypeID::C_BO_NA_1, act(), 1, cmd).unwrap();
    assert_eq!(asdu.get_bits_string32_cmd().unwrap(), cmd);
}

#[test]
fn interrogation_cmd_layout() {
    let asdu = interrogation_cmd(act(), 1, ObjectQOI::new(20)).unwrap();
    assert_eq!(asdu.identifier.type_id, TypeID::C_IC_NA_1);
    assert_eq!(asdu.identifier.variable_struct.number, 1);
    assert_eq!(asdu.raw, vec![0x00, 0x00, 0x00, 20]);
    let (ioa, qoi) = asdu.get_interrogation_cmd().unwrap();
    assert_eq!(ioa.addr, 0);
    assert_eq!(qoi.range, 20);
    // Any cause outside activation and deactivation is rejected.
    let cot = CauseOfTransmission::new(false, false, Cause::Periodic);
    match interrogation_cmd(cot, 1, ObjectQOI::new(20)) {
        Err(Error::ErrCmdCause(_)) => {}
        other => panic!("unexpected result: {other:?}"),
    }
}

#[test]
fn counter_interrogation_cmd_requires_activation() {
    let asdu = counter_interrogation_cmd(act(), 1, ObjectQCC::new(5)).unwrap();
    assert_eq!(asdu.identifier.cot.cause, Cause::Activation);
    let (ioa, qcc) = asdu.get_counter_interrogation_cmd().unwrap();
    assert_eq!(ioa.addr, 0);
    assert_eq!(qcc.qcc, 5);
    // Any other cause is rejected.
    let cot = CauseOfTransmission::new(false, false, Cause::Periodic);
    match counter_interrogation_cmd(cot, 1, ObjectQCC::new(5)) {
        Err(Error::ErrCmdCause(_)) => {}
        other => panic!("unexpected result: {other:?}"),
    }
}

#[test]
fn read_cmd_carries_the_address() {
    let cot = CauseOfTransmission::new(false, false, Cause::Request);
    let asdu = read_cmd(cot, 1, iecp5::asdu::InfoObjAddr::new(0, 0x0456)).unwrap();
    assert_eq!(asdu.identifier.type_id, TypeID::C_RD_NA_1);
    assert_eq!(asdu.identifier.cot.cause, Cause::Request);
    assert_eq!(asdu.raw, vec![0x56, 0x04, 0x00]);
    // A read command asks; any cause but Request is rejected.
    match read_cmd(act(), 1, iecp5::asdu::InfoObjAddr::new(0, 1)) {
        Err(Error::ErrCmdCause(_)) => {}
        other => panic!("unexpected result: {other:?}"),
    }
}

#[test]
fn clock_synchronization_cmd_layout() {
    let t = Time2a { millisecond: 59999, minute: 59, hour: 23, day_of_week: 7, day: 31, month: 12, year: 99 };
    let asdu = clock_synchronization_cmd(act(), 1, t).unwrap();
    assert_eq!(asdu.identifier.type_id, TypeID::C_CS_NA_1);
    assert_eq!(asdu.raw.len(), 10);
    assert_eq!(&asdu.raw[0..3], &[0, 0, 0]);
    let cot = CauseOfTransmission::new(false, false, Cause::Spontaneous);
    match clock_synchronization_cmd(cot, 1, t) {
        Err(Error::ErrCmdCause(_)) => {}
        other => panic!("unexpected result: {other:?}"),
    }
}

#[test]
fn test_command_carries_the_pattern() {
    let asdu = test_command(act(), 1).unwrap();
    assert_eq!(asdu.identifier.type_id, TypeID::C_TS_NA_1);
    assert_eq!(asdu.raw, vec![0x00, 0x00, 0x00, 0xaa, 0x55]);
    let cot = CauseOfTransmission::new(false, false, Cause::Spontaneous);
    match test_command(cot, 1) {
        Err(Error::ErrCmdCause(_)) => {}
        other => panic!("unexpected result: {other:?}"),
    }
}

#[test]
fn timed_test_command_layout() {
    let t = Time2a { millisecond: 1, minute: 2, hour: 3, day_of_week: 4, day: 5, month: 6, year: 7 };
    let asdu = test_command_cp56time2a(act(), 1, t).unwrap();
    assert_eq!(asdu.identifier.type_id, TypeID::C_TS_TA_1);
    assert_eq!(&asdu.raw[0..5], &[0x00, 0x00, 0x00, 0xaa, 0x55]);
    assert_eq!(asdu.raw.len(), 12);
    let cot = CauseOfTransmission::new(false, false, Cause::Request);
    match test_command_cp56time2a(cot, 1, t) {
        Err(Error::ErrCmdCause(_)) => {}
        other => panic!("unexpected result: {other:?}"),
    }
}

#[test]
fn reset_process_cmd_layout() {
    let asdu = reset_process_cmd(act(), 1, 1).unwrap();
    assert_eq!(asdu.identifier.type_id, TypeID::C_RP_NA_1);
    assert_eq!(asdu.raw, vec![0x00, 0x00, 0x00, 1]);
    let (ioa, qrp) = asdu.get_reset_process_cmd().unwrap();
    assert_eq!(ioa.addr, 0);
    assert_eq!(qrp.qrp, 1);
    let cot = CauseOfTransmission::new(false, false, Cause::Deactivation);
    match reset_process_cmd(cot, 1, 1) {
        Err(Error::ErrCmdCause(_)) => {}
        other => panic!("unexpected result: {other:?}"),
    }
}

#[test]
fn delay_acquire_command_layout() {
    let asdu = delay_acquire_command(act(), 1, 0x1234).unwrap();
    assert_eq!(asdu.identifier.type_id, TypeID::C_CD_NA_1);
    assert_eq!(asdu.raw, vec![0x00, 0x00, 0x00, 0x34, 0x12]);
    let cot = CauseOfTransmission::new(false, false, Cause::Request);
    match delay_acquire_command(cot, 1, 1) {
        Err(Error::ErrCmdCause(_)) => {}
        other => panic!("unexpected result: {other:?}"),
    }
}

#[test]
fn end_of_initialization_round_trip() {
    let cot = CauseOfTransmission::new(false, false, Cause::Initialized);
    let coi = iecp5::msys::ObjectCOI::new(2, true);
    let asdu = iecp5::msys::end_of_initialization(cot, 1, iecp5::asdu::InfoObjAddr::new(0, 0), coi)
        .unwrap();
    assert_eq!(asdu.identifier.type_id, TypeID::M_EI_NA_1);
    let (ioa, got) = asdu.get_end_of_initialization().unwrap();
    assert_eq!(ioa.addr, 0);
    assert_eq!(got, coi);
}
