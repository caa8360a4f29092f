use iecp5::time::{
    cp16time2a_from_msec, cp24time2a, cp56time2a, decode_cp24time2a, decode_cp56time2a, Time2a,
};

#[test]
fn cp56_layout_and_round_trip() {
    let t = Time2a {
        millisecond: 513,
        minute: 3,
        hour: 4,
        day_of_week: 3,
        day: 5,
        month: 6,
        year: 19,
    };
    let bytes = cp56time2a(t);
    assert_eq!(bytes, vec![0x01, 0x02, 0x03, 0x04, 0x65, 0x06, 0x13]);
    let got = decode_cp56time2a(&bytes, 0).expect("the tag is valid");
    assert_eq!(got, t);
}

#[test]
fn cp56_invalid_bit_decodes_as_none() {
    // Bit 7 of the minute octet marks the tag invalid.
    let bytes: Vec<u8> = vec![0x01, 0x02, 0x83, 0x04, 0x65, 0x06, 0x13];
    assert!(decode_cp56time2a(&bytes, 0).is_none());
}

#[test]
fn cp24_carries_milliseconds_and_minute() {
    let t = Time2a {
        millisecond: 59999,
        minute: 59,
        hour: 1,
        day_of_week: 1,
        day: 1,
        month: 1,
        year: 0,
    };
    let bytes = cp24time2a(t);
    assert_eq!(bytes, vec![0x5f, 0xea, 59]);
    let got = decode_cp24time2a(&bytes, 0).expect("the tag is valid");
    assert_eq!(got.millisecond, 59999);
    assert_eq!(got.minute, 59);
    // The calendar fields come from the clock, within their ranges.
    assert!(got.hour <= 23 && (1..=31).contains(&got.day));
    assert!((1..=12).contains(&got.month) && got.year <= 99);

    let bytes: Vec<u8> = vec![0x00, 0x00, 0x80];
    assert!(decode_cp24time2a(&bytes, 0).is_none());
}

#[test]
fn cp16_is_the_millisecond_count() {
    assert_eq!(cp16time2a_from_msec(0x55aa), vec![0xaa, 0x55]);
    assert_eq!(cp16time2a_from_msec(0), vec![0, 0]);
}
