use iecp5::apci::{
    new_sframe, new_uframe, ApciKind, U_STARTDT_ACTIVE, U_STARTDT_CONFIRM, U_STOPDT_CONFIRM,
    U_TESTFR_ACTIVE, U_TESTFR_CONFIRM,
};
use iecp5::asdu::{Asdu, Cause, CauseOfTransmission, TypeID};
use iecp5::codec::Codec;
use iecp5::csys::{interrogation_cmd, ObjectQOI};
use iecp5::session::{Request, ServerDispatch, Session, SessionRole, server_dispatch};

fn act() -> CauseOfTransmission {
    CauseOfTransmission::new(false, false, Cause::Activation)
}

fn some_asdu() -> Asdu {
    interrogation_cmd(act(), 1, ObjectQOI::new(20)).unwrap()
}

/// Startup handshake: the client's start activation goes out as the
/// standard's exact bytes, the server confirms, and both sides go active.
#[test]
fn startup_handshake() {
    let mut codec = Codec;
    let mut client = Session::new(SessionRole::Client, 0);
    let mut server = Session::new(SessionRole::Server, 0);

    let req = Request::U(iecp5::apci::UApci { function: U_STARTDT_ACTIVE });
    let apdu = client.handle_request(req, 5).expect("a U-frame goes out at once");
    let mut wire: Vec<u8> = Vec::new();
    codec.encode(apdu, &mut wire).unwrap();
    assert_eq!(wire, vec![0x68, 0x04, 0x07, 0x00, 0x00, 0x00]);

    let apdu = codec.decode(&mut wire).unwrap().unwrap();
    let out = server.on_frame(apdu, 6);
    assert!(!out.fatal);
    assert!(server.is_active);
    let con = out.frame.expect("the server confirms");
    let mut wire: Vec<u8> = Vec::new();
    codec.encode(con, &mut wire).unwrap();
    assert_eq!(wire, vec![0x68, 0x04, 0x0b, 0x00, 0x00, 0x00]);

    assert!(!client.is_active);
    let apdu = codec.decode(&mut wire).unwrap().unwrap();
    let out = client.on_frame(apdu, 7);
    assert!(!out.fatal);
    assert!(client.is_active);
    assert!(client.startdt_sent_since.is_none());
}

fn active_client() -> Session {
    let mut client = Session::new(SessionRole::Client, 0);
    let con = new_uframe(U_STARTDT_CONFIRM);
    let out = client.on_frame(con, 0);
    assert!(!out.fatal && client.is_active);
    client
}

/// Ack window: with twelve I-frames outstanding the thirteenth waits; an
/// S-frame acknowledging five of them releases it.
#[test]
fn ack_window_gates_transmission() {
    let mut client = active_client();
    for i in 0..12u16 {
        assert!(client.handle_request(Request::I(some_asdu()), 10).is_none());
        let apdu = client.poll_send(10).expect("the window is open");
        match ApciKind::from_apci(apdu.apci) {
            ApciKind::I(x) => assert_eq!(x.send_sn, i),
            _ => panic!(),
        }
    }
    // The thirteenth request queues but must not go out.
    assert!(client.handle_request(Request::I(some_asdu()), 11).is_none());
    assert!(client.poll_send(11).is_none());
    assert_eq!(client.pending.len(), 12);

    // An S-frame acknowledging everything below five releases five entries.
    let out = client.on_frame(new_sframe(5), 12);
    assert!(!out.fatal);
    assert_eq!(client.ack_sendsn, 5);
    assert_eq!(client.pending.len(), 7);
    let apdu = client.poll_send(12).expect("transmission resumes");
    match ApciKind::from_apci(apdu.apci) {
        ApciKind::I(x) => assert_eq!(x.send_sn, 12),
        _ => panic!(),
    }
    assert_eq!(client.pending.len(), 8);
}

/// Sequence numbers wrap: after 32766 and 32767 the next frame carries 0.
#[test]
fn send_sequence_number_wraps() {
    let mut client = active_client();
    client.send_sn = 32766;
    client.ack_sendsn = 32766;
    let mut seen: Vec<u16> = Vec::new();
    for _ in 0..3 {
        client.handle_request(Request::I(some_asdu()), 20);
        let apdu = client.poll_send(20).unwrap();
        match ApciKind::from_apci(apdu.apci) {
            ApciKind::I(x) => seen.push(x.send_sn),
            _ => panic!(),
        }
    }
    assert_eq!(seen, vec![32766, 32767, 0]);
}

/// Idle test: after t3 of silence a test frame goes out; with no answer
/// within t1 the session is fatal; an answer clears the timer.
#[test]
fn idle_test_discipline() {
    let mut s = Session::new(SessionRole::Client, 0);
    let out = s.on_tick(20_000);
    assert!(!out.fatal);
    assert_eq!(out.frames.len(), 1);
    match ApciKind::from_apci(out.frames[0].apci) {
        ApciKind::U(u) => assert_eq!(u.function, U_TESTFR_ACTIVE),
        _ => panic!(),
    }
    assert_eq!(s.test_sent_since, Some(20_000));

    // Fifteen more seconds of silence: fatal.
    let mut silent = Session::new(SessionRole::Client, 0);
    silent.on_tick(20_000);
    let out = silent.on_tick(35_000);
    assert!(out.fatal);

    // A confirmation clears the timer and the session lives on.
    let out = s.on_frame(new_uframe(U_TESTFR_CONFIRM), 21_000);
    assert!(!out.fatal);
    assert!(s.test_sent_since.is_none());
    let out = s.on_tick(35_000);
    assert!(!out.fatal);
}

/// A received I-frame must carry exactly the expected send sequence number.
#[test]
fn out_of_order_iframe_is_fatal() {
    let mut server = Session::new(SessionRole::Server, 0);
    server.on_frame(new_uframe(U_STARTDT_ACTIVE), 0);
    let apdu = iecp5::apci::new_iframe(some_asdu(), 3, 0);
    let out = server.on_frame(apdu, 1);
    assert!(out.fatal);
}

/// An acknowledgement of more than was ever sent is fatal.
#[test]
fn over_acknowledgement_is_fatal() {
    let mut client = active_client();
    let out = client.on_frame(new_sframe(2), 1);
    assert!(out.fatal);
}

/// A well-numbered I-frame is delivered and acknowledged in order.
#[test]
fn iframe_delivery_advances_receive_number() {
    let mut server = Session::new(SessionRole::Server, 0);
    server.on_frame(new_uframe(U_STARTDT_ACTIVE), 0);
    let apdu = iecp5::apci::new_iframe(some_asdu(), 0, 0);
    let out = server.on_frame(apdu, 100);
    assert!(!out.fatal);
    let delivered = out.deliver.expect("the ASDU is handed over");
    assert_eq!(delivered.identifier.type_id, TypeID::C_IC_NA_1);
    assert_eq!(server.rcv_sn, 1);
    assert_eq!(server.un_ack_rcv_since, Some(100));

    // The next tick past one idle interval acknowledges with an S-frame.
    let out = server.on_tick(300);
    assert!(!out.fatal);
    assert_eq!(out.frames.len(), 1);
    match ApciKind::from_apci(out.frames[0].apci) {
        ApciKind::S(sa) => assert_eq!(sa.rcv_sn, 1),
        _ => panic!(),
    }
    assert_eq!(server.ack_rcvsn, 1);
}

/// Stopping: a stop confirmation deactivates the client, and queued frames
/// are dropped rather than sent.
#[test]
fn stop_confirmation_deactivates() {
    let mut client = active_client();
    client.handle_request(Request::I(some_asdu()), 1);
    let out = client.on_frame(new_uframe(U_STOPDT_CONFIRM), 2);
    assert!(!out.fatal);
    assert!(!client.is_active);
    assert!(client.poll_send(3).is_none());
    assert!(client.poll_send(3).is_none());
    assert_eq!(client.pending.len(), 0);
}

/// The controlled station's dispatch of an interrogation command: a good
/// command reaches the interrogation handler; each violation mirrors the
/// command back with the telling cause.
#[test]
fn server_dispatch_validates_interrogation() {
    match server_dispatch(some_asdu()).unwrap() {
        ServerDispatch::Interrogation(asdu, qoi) => {
            assert_eq!(asdu.identifier.type_id, TypeID::C_IC_NA_1);
            assert_eq!(qoi.range, 20);
        }
        _ => panic!(),
    }

    // A wrong cause mirrors back UnknownCOT.
    let mut bad = some_asdu();
    bad.identifier.cot = CauseOfTransmission::new(false, false, Cause::Periodic);
    match server_dispatch(bad).unwrap() {
        ServerDispatch::Mirror(m) => assert_eq!(m.identifier.cot.cause, Cause::UnknownCOT),
        _ => panic!(),
    }

    // The invalid common address mirrors back UnknownCA.
    let mut bad = some_asdu();
    bad.identifier.common_addr = 0;
    match server_dispatch(bad).unwrap() {
        ServerDispatch::Mirror(m) => assert_eq!(m.identifier.cot.cause, Cause::UnknownCA),
        _ => panic!(),
    }

    // A non-zero object address mirrors back UnknownIOA.
    let mut bad = some_asdu();
    bad.raw[0] = 9;
    match server_dispatch(bad).unwrap() {
        ServerDispatch::Mirror(m) => assert_eq!(m.identifier.cot.cause, Cause::UnknownIOA),
        _ => panic!(),
    }

    // Any other type identification goes to the general handler.
    let cmd = iecp5::cproc::SingleCommandInfo::new(1, true, false);
    let other = iecp5::cproc::single_cmd(TypeID::C_SC_NA_1, act(), 1, cmd).unwrap();
    match server_dispatch(other).unwrap() {
        ServerDispatch::General(a) => assert_eq!(a.identifier.type_id, TypeID::C_SC_NA_1),
        _ => panic!(),
    }
}

/// Start and stop requests record the instant they went out, for the t1 rule.
#[test]
fn start_request_arms_the_t1_timer() {
    let mut client = Session::new(SessionRole::Client, 0);
    let req = Request::U(iecp5::apci::UApci { function: U_STARTDT_ACTIVE });
    client.handle_request(req, 1_000);
    assert_eq!(client.startdt_sent_since, Some(1_000));
    // No confirmation within t1: fatal.
    let out = client.on_tick(16_000);
    assert!(out.fatal);
}
