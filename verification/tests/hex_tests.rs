use beat_saber_map::hex::{decode_hex, encode_hex};
use beat_saber_map::json::Json;
use beat_saber_map::Error;

#[test]
fn hex_serializes_correctly() {
    // The color travels inside a JSON document as a quoted string token.
    let rendered = Json::Str(encode_hex(0x001414FF)).to_pretty();
    assert_eq!(rendered, "\"#001414FF\"");
}

#[test]
fn hex_deserializes_correctly() {
    let doc = Json::parse_document("\"#288ED2FF\"").unwrap();
    let text = match doc {
        Json::Str(t) => t,
        _ => panic!("expected a string token"),
    };
    assert_eq!(decode_hex(&text).unwrap(), 0x288ED2FF);
}

#[test]
fn encode_pads_to_eight_digits() {
    assert_eq!(encode_hex(0), "#00000000");
    assert_eq!(encode_hex(0xFF), "#000000FF");
    assert_eq!(encode_hex(0xFFFFFFFF), "#FFFFFFFF");
}

#[test]
fn decode_round_trips_for_sample_values() {
    for x in [0u32, 1, 0xFF, 0xC81414FF, 0x30ACFFFF, u32::MAX] {
        assert_eq!(decode_hex(&encode_hex(x)).unwrap(), x);
    }
}

#[test]
fn decode_accepts_lower_case_and_no_hash() {
    assert_eq!(decode_hex("#c81414ff").unwrap(), 0xC81414FF);
    assert_eq!(decode_hex("288ed2ff").unwrap(), 0x288ED2FF);
    assert_eq!(decode_hex("#1").unwrap(), 1);
    assert_eq!(decode_hex("#000000000001").unwrap(), 1);
}

#[test]
fn decode_rejects_bad_text() {
    // Empty after stripping the hash, a stray character, a second hash, and
    // a value over 32 bits all fail, with the offending text attached.
    for bad in ["", "#", "#XYZ", "##01414FF", "#123456789"] {
        match decode_hex(bad) {
            Err(Error::Decode(m)) => assert_eq!(m, bad),
            other => panic!("expected a decode error for {bad:?}, got {other:?}"),
        }
    }
}
