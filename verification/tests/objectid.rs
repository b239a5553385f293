use signaling::json::JsonValue;
use signaling::objectid::ObjectId;

const HEX: &str = "5a1b2c3d4e5f60718293a4b5";

fn sample() -> ObjectId {
    ObjectId::with_bytes([0x5a, 0x1b, 0x2c, 0x3d, 0x4e, 0x5f, 0x60, 0x71, 0x82, 0x93, 0xa4, 0xb5])
}

#[test]
fn object_id_reads_lower_case_digits() {
    let id = ObjectId::with_string(HEX).unwrap();
    assert_eq!(id.bytes(), sample().bytes());
}

#[test]
fn object_id_reads_upper_case_digits() {
    let id = ObjectId::with_string("5A1B2C3D4E5F60718293A4B5").unwrap();
    assert_eq!(id.bytes(), sample().bytes());
}

#[test]
fn object_id_refuses_wrong_length() {
    assert!(ObjectId::with_string("5a1b2c3d4e5f60718293a4").is_err());
    assert!(ObjectId::with_string("5a1b2c3d4e5f60718293a4b5c").is_err());
    assert!(ObjectId::with_string("").is_err());
}

#[test]
fn object_id_refuses_non_hex_characters() {
    assert!(ObjectId::with_string("5a1b2c3d4e5f60718293a4bg").is_err());
    assert!(ObjectId::with_string("5a1b2c3d4e5f60718293a4 5").is_err());
    assert!(ObjectId::with_string("5a1b2c3d4e5f60718293a4é").is_err());
}

#[test]
fn object_id_writes_lower_case_hex() {
    let id = ObjectId::with_string("5A1B2C3D4E5F60718293A4B5").unwrap();
    assert_eq!(id.to_hex(), HEX);
    assert_eq!(id.to_string(), HEX);
}

#[test]
fn object_id_text_round_trip() {
    let id = sample();
    let back = ObjectId::with_string(&id.to_hex()).unwrap();
    assert!(back.same_as(&id));
}

#[test]
fn object_id_to_json_is_its_text() {
    assert_eq!(sample().to_json(), JsonValue::Str(HEX.to_string()));
}

#[test]
fn object_id_same_as_compares_bytes() {
    let a = sample();
    let mut bytes = a.bytes();
    assert!(a.same_as(&ObjectId::with_bytes(bytes)));
    bytes[11] = 0;
    assert!(!a.same_as(&ObjectId::with_bytes(bytes)));
}

#[test]
fn object_id_new_gives_distinct_identifiers() {
    let a = ObjectId::new().unwrap();
    let b = ObjectId::new().unwrap();
    assert!(!a.same_as(&b));
    assert_eq!(a.to_hex().len(), 24);
}
