use mongo_oplog::document::{Bson, Document, ObjectId, ValueAccessError};
use mongo_oplog::float_bits::FloatBits;

#[test]
fn insert_then_get() {
    let mut d = Document::new();
    assert_eq!(None, d.insert("a".to_string(), Bson::I32(1)));
    assert_eq!(Some(&Bson::I32(1)), d.get("a"));
    assert_eq!(None, d.get("b"));
    assert_eq!(1, d.len());
}

#[test]
fn insert_replaces_and_returns_old_value() {
    let mut d = Document::new();
    d.insert("a".to_string(), Bson::I32(1));
    d.insert("b".to_string(), Bson::I32(2));
    assert_eq!(Some(Bson::I32(1)), d.insert("a".to_string(), Bson::I64(3)));
    assert_eq!(2, d.len());
    assert_eq!(Ok(3), d.get_i64("a"));
    assert_eq!(Some(&Bson::I32(2)), d.get("b"));
}

#[test]
fn replaced_entry_moves_last() {
    let mut d = Document::new();
    d.insert("a".to_string(), Bson::I32(1));
    d.insert("b".to_string(), Bson::I32(2));
    d.insert("a".to_string(), Bson::I32(3));
    let mut e = Document::new();
    e.insert("b".to_string(), Bson::I32(2));
    e.insert("a".to_string(), Bson::I32(3));
    assert_eq!(e, d);
}

#[test]
fn typed_reads() {
    let mut d = Document::new();
    d.insert("ts".to_string(), Bson::TimeStamp(5));
    d.insert("h".to_string(), Bson::I64(6));
    d.insert("s".to_string(), Bson::String("x".to_string()));
    d.insert("arr".to_string(), Bson::Array(vec![Bson::Null]));
    d.insert("id".to_string(), Bson::ObjectId(ObjectId::with_bytes([7; 12])));
    let mut inner = Document::new();
    inner.insert("k".to_string(), Bson::Boolean(true));
    d.insert("doc".to_string(), Bson::Document(inner));

    assert_eq!(Ok(5), d.get_time_stamp("ts"));
    assert_eq!(Err(ValueAccessError::UnexpectedType), d.get_time_stamp("h"));
    assert_eq!(Err(ValueAccessError::NotPresent), d.get_time_stamp("nope"));
    assert_eq!(Ok(6), d.get_i64("h"));
    assert_eq!(Err(ValueAccessError::UnexpectedType), d.get_i64("ts"));
    assert_eq!(Ok("x"), d.get_str("s"));
    assert_eq!(Err(ValueAccessError::UnexpectedType), d.get_str("h"));
    assert_eq!(Ok(&vec![Bson::Null]), d.get_array("arr"));
    assert_eq!(Err(ValueAccessError::NotPresent), d.get_array("nope"));
    assert_eq!([7; 12], d.get_object_id("id").unwrap().bytes());
    assert_eq!(Err(ValueAccessError::UnexpectedType), d.get_object_id("s").map(|o| o.bytes()));
    assert_eq!(Some(&Bson::Boolean(true)), d.get_document("doc").unwrap().get("k"));
    assert_eq!(Err(ValueAccessError::UnexpectedType), d.get_document("arr").map(|x| x.len()));
    assert!(d.contains_key("doc"));
    assert!(!d.contains_key("missing"));
}

#[test]
fn deep_clone_is_equal() {
    let mut inner = Document::new();
    inner.insert("f".to_string(), Bson::FloatingPoint(FloatBits(1.5f64.to_bits())));
    inner.insert("bin".to_string(), Bson::Binary(0, vec![1, 2, 3]));
    let mut d = Document::new();
    d.insert("inner".to_string(), Bson::Document(inner));
    d.insert("list".to_string(), Bson::Array(vec![Bson::Symbol("s".to_string()), Bson::UtcDatetime(9)]));
    d.insert("code".to_string(), Bson::JavaScriptCodeWithScope("x".to_string(), Document::new()));
    d.insert("re".to_string(), Bson::RegExp("a+".to_string(), "i".to_string()));
    let c = d.clone();
    assert_eq!(d, c);
    let c2 = d.deep_clone();
    assert_eq!(d, c2);
}

#[test]
fn object_id_bytes_round_trip() {
    let bytes = [0x12, 0x34, 0x56, 0x78, 0x90, 0x12, 0x34, 0x56, 0x78, 0x90, 0x12, 0x34];
    assert_eq!(bytes, ObjectId::with_bytes(bytes).bytes());
}

#[test]
fn floats_compare_as_floats() {
    let pos = Bson::FloatingPoint(FloatBits(0.0f64.to_bits()));
    let neg = Bson::FloatingPoint(FloatBits((-0.0f64).to_bits()));
    assert_eq!(pos, neg);
    let nan = Bson::FloatingPoint(FloatBits(f64::NAN.to_bits()));
    assert_ne!(nan, nan.clone());
    let one = Bson::FloatingPoint(FloatBits(1.0f64.to_bits()));
    assert_eq!(one, Bson::FloatingPoint(FloatBits(1.0f64.to_bits())));
    assert_ne!(one, Bson::FloatingPoint(FloatBits(2.0f64.to_bits())));
    let inf = FloatBits(f64::INFINITY.to_bits());
    assert_eq!(inf, FloatBits(f64::INFINITY.to_bits()));
    assert_ne!(inf, FloatBits(f64::NEG_INFINITY.to_bits()));
}

#[test]
fn documents_with_signed_zeros_are_equal() {
    let mut a = Document::new();
    a.insert("x".to_string(), Bson::FloatingPoint(FloatBits(0.0f64.to_bits())));
    let mut b = Document::new();
    b.insert("x".to_string(), Bson::FloatingPoint(FloatBits((-0.0f64).to_bits())));
    assert_eq!(a, b);
}
