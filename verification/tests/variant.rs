use amqp_core::types::{ByteStr, Str, Symbol, Variant, VariantMap, VecVariantMap};
use bytes::Bytes;

#[test]
fn bytes_eq() {
    let bytes1 = Variant::Binary(Bytes::from(&b"hello"[..]));
    let bytes2 = Variant::Binary(Bytes::from(&b"hello"[..]));
    let bytes3 = Variant::Binary(Bytes::from(&b"world"[..]));

    assert_eq!(bytes1, bytes2);
    assert!(bytes1 != bytes3);
}

#[test]
fn string_eq() {
    let a = Variant::String(Str::from_byte_str(ByteStr::from_str("hello")));
    let b = Variant::String(Str::from_byte_str(ByteStr::from_str("world!")));

    assert_eq!(Variant::String(Str::from_byte_str(ByteStr::from_str("hello"))), a);
    assert!(a != b);
}

#[test]
fn symbol_eq() {
    let a = Variant::Symbol(Symbol::from_str("hello"));
    let b = Variant::Symbol(Symbol::from_str("world!"));

    assert_eq!(Variant::Symbol(Symbol::from_str("hello")), a);
    assert!(a != b);
}

#[test]
fn binary_constructor_copies() {
    let v = Variant::binary(&b"hello"[..]);
    assert_eq!(v, Variant::Binary(Bytes::from(&b"hello"[..])));
    assert!(v != Variant::Binary(Bytes::from(&b"hell"[..])));
}

#[test]
fn uuid_constructor_holds_octets() {
    let data = [7u8; 16];
    let v = Variant::uuid(data);
    assert_eq!(v, Variant::Uuid(uuid::Uuid::from_bytes(data)));
    assert!(v != Variant::Uuid(uuid::Uuid::from_bytes([8u8; 16])));
}

#[test]
fn as_str_on_string_and_symbol() {
    assert_eq!(Variant::String(Str::from_str("ab")).as_str(), Some("ab"));
    assert_eq!(Variant::Symbol(Symbol::from_str("sym")).as_str(), Some("sym"));
    assert_eq!(Variant::Long(3).as_str(), None);
}

#[test]
fn as_long_readings() {
    assert_eq!(Variant::Ubyte(255).as_long(), Some(255));
    assert_eq!(Variant::Ushort(7).as_long(), Some(7));
    assert_eq!(Variant::Uint(70000).as_long(), Some(70000));
    assert_eq!(Variant::Ulong(5).as_long(), Some(5));
    assert_eq!(Variant::Ulong(u64::MAX).as_long(), Some(-1));
    assert_eq!(Variant::Byte(-3).as_long(), Some(-3));
    assert_eq!(Variant::Short(-300).as_long(), Some(-300));
    assert_eq!(Variant::Int(-70000).as_long(), Some(-70000));
    assert_eq!(Variant::Long(i64::MIN).as_long(), Some(i64::MIN));
    assert_eq!(Variant::Boolean(true).as_long(), None);
    assert_eq!(Variant::Null.as_long(), None);
}

#[test]
fn as_bytes_str_round_trip() {
    let v = Variant::String(Str::from_str("hey"));
    assert_eq!(v.as_bytes_str().unwrap().as_str(), "hey");
    assert!(Variant::Null.as_bytes_str().is_none());
}

#[test]
fn eq_str_matches_only_string_like() {
    assert!(Variant::String(Str::from_str("hi")).eq_str("hi"));
    assert!(!Variant::String(Str::from_str("hi")).eq_str("ho"));
    assert!(Variant::Symbol(Symbol::from_str("hi")).eq_str("hi"));
    assert!(!Variant::Long(3).eq_str("3"));
}

#[test]
fn variant_map_wraps_entries() {
    let m = VariantMap::new(vec![(Variant::Long(1), Variant::Boolean(true))]);
    assert_eq!(m.map.len(), 1);
    let d: VecVariantMap = Default::default();
    assert!(d.items().is_empty());
}
