use iecp5::asdu::{Cause, CauseOfTransmission, TypeID};
use iecp5::cproc::{double_cmd, single_cmd, DoubleCommandInfo, SingleCommandInfo};
use iecp5::station::ExampleServer;
use std::collections::HashMap;

fn act() -> CauseOfTransmission {
    CauseOfTransmission::new(false, false, Cause::Activation)
}

#[test]
fn commands_drive_known_points_only() {
    let mut siq: HashMap<u16, bool> = HashMap::new();
    siq.insert(100, false);
    siq.insert(111, true);
    let mut diq: HashMap<u16, u8> = HashMap::new();
    diq.insert(3000, 2);
    let mut station = ExampleServer::new(siq, diq);

    // A single command drives a known single point.
    let asdu = single_cmd(TypeID::C_SC_NA_1, act(), 1, SingleCommandInfo::new(100, true, false))
        .unwrap();
    station.call(&asdu).unwrap();
    assert_eq!(station.siq.get(&100), Some(&true));
    assert_eq!(station.siq.get(&111), Some(&true));

    // A double command drives a known double point.
    let asdu = double_cmd(TypeID::C_DC_NA_1, act(), 1, DoubleCommandInfo::new(3000, 1, false))
        .unwrap();
    station.call(&asdu).unwrap();
    assert_eq!(station.diq.get(&3000), Some(&1));

    // A command for an unknown address changes nothing.
    let asdu = single_cmd(TypeID::C_SC_NA_1, act(), 1, SingleCommandInfo::new(999, true, false))
        .unwrap();
    station.call(&asdu).unwrap();
    assert_eq!(station.siq.len(), 2);
    assert!(station.siq.get(&999).is_none());

    // Anything that is not a command changes nothing.
    let other = iecp5::csys::interrogation_cmd(act(), 1, iecp5::csys::ObjectQOI::new(20)).unwrap();
    station.call(&other).unwrap();
    assert_eq!(station.siq.len(), 2);
    assert_eq!(station.diq.len(), 1);
}
