use netbattleship::flow::GameFlowError;
use netbattleship::net::{decode_msg, encode_msg, frame_msg, Msg};
use netbattleship::ship::Ship;

fn roundtrip(m: Msg) {
    let bytes = encode_msg(&m);
    assert_eq!(decode_msg(&bytes), Ok(m));
}

#[test]
fn roundtrip_every_variant() {
    roundtrip(Msg::Hello(0));
    roundtrip(Msg::Hello(1));
    roundtrip(Msg::Hello(10));
    roundtrip(Msg::Hello(0xdead_beef_0123_4567));
    roundtrip(Msg::Hello(u64::MAX));
    roundtrip(Msg::NotFinished);
    roundtrip(Msg::Finished);
    roundtrip(Msg::DidHit(true));
    roundtrip(Msg::DidHit(false));
    roundtrip(Msg::Fire(0, 0));
    roundtrip(Msg::Fire(3, 4));
    roundtrip(Msg::Fire(9, 9));
    roundtrip(Msg::Sunk(Ship::Empty));
    roundtrip(Msg::Sunk(Ship::Miss));
    roundtrip(Msg::Sunk(Ship::Hit));
    roundtrip(Msg::Sunk(Ship::Carrier));
    roundtrip(Msg::Sunk(Ship::Battleship));
    roundtrip(Msg::Sunk(Ship::Cruiser));
    roundtrip(Msg::Sunk(Ship::Submarine));
    roundtrip(Msg::Sunk(Ship::Destroyer));
}

#[test]
fn exact_records() {
    assert_eq!(encode_msg(&Msg::DidHit(true)), b"D1".to_vec());
    assert_eq!(encode_msg(&Msg::DidHit(false)), b"D0".to_vec());
    assert_eq!(encode_msg(&Msg::Fire(3, 4)), b"F34".to_vec());
    assert_eq!(encode_msg(&Msg::Finished), b"W".to_vec());
    assert_eq!(encode_msg(&Msg::NotFinished), b"N".to_vec());
    assert_eq!(encode_msg(&Msg::Sunk(Ship::Destroyer)), b"S7".to_vec());
    assert_eq!(encode_msg(&Msg::Sunk(Ship::Empty)), b"S0".to_vec());
    assert_eq!(encode_msg(&Msg::Hello(1)), b"H0000000000000001".to_vec());
    assert_eq!(
        encode_msg(&Msg::Hello(u64::MAX)),
        b"Hffffffffffffffff".to_vec()
    );
}

#[test]
fn frames_never_hold_an_inner_newline() {
    // A version payload of ten would be a raw newline byte in a binary
    // encoding; here every payload byte is ASCII text.
    for m in [
        Msg::Hello(10),
        Msg::Hello(u64::MAX),
        Msg::Fire(9, 9),
        Msg::Sunk(Ship::Carrier),
        Msg::DidHit(true),
        Msg::Finished,
        Msg::NotFinished,
    ] {
        let frame = frame_msg(&m);
        assert_eq!(*frame.last().unwrap(), b'\n');
        for &byte in &frame[..frame.len() - 1] {
            assert_ne!(byte, b'\n');
        }
    }
}

#[test]
fn malformed_records_are_rejected() {
    let cases: Vec<Vec<u8>> = vec![
        b"".to_vec(),
        b"Z".to_vec(),
        b"D".to_vec(),
        b"D5".to_vec(),
        b"D11".to_vec(),
        b"F9".to_vec(),
        b"Fxy".to_vec(),
        b"F3 ".to_vec(),
        b"S".to_vec(),
        b"S9".to_vec(),
        b"H123".to_vec(),
        b"H00000000000000zz".to_vec(),
        b"W1".to_vec(),
        b"N1".to_vec(),
        b"HFFFFFFFFFFFFFFFF".to_vec(), // upper-case digits are not emitted
    ];
    for c in cases {
        assert_eq!(decode_msg(&c), Err(GameFlowError::MalformedMessage));
    }
}

#[test]
fn decoded_fire_is_on_grid() {
    // One digit per coordinate: nothing off the ten-by-ten grid decodes.
    let m = decode_msg(&b"F99".to_vec()).unwrap();
    assert_eq!(m, Msg::Fire(9, 9));
    assert_eq!(
        decode_msg(&b"F:0".to_vec()),
        Err(GameFlowError::MalformedMessage)
    );
}
