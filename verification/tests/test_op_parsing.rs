use mongo_oplog::document::{Bson, Document, ObjectId};
use mongo_oplog::errors::OpLogError;
use mongo_oplog::op::Op;

fn doc(entries: Vec<(&str, Bson)>) -> Document {
    let mut d = Document::new();
    for (k, v) in entries {
        d.insert(k.to_string(), v);
    }
    d
}

fn s(v: &str) -> Bson {
    Bson::String(v.to_string())
}

fn foo_fizz() -> Document {
    doc(vec![("foo", s("bar")), ("fizz", s("buzz"))])
}

/// The id that `ObjectId::with_string("123456789012345678901234")` gives.
fn example_id() -> ObjectId {
    ObjectId::with_bytes([0x12, 0x34, 0x56, 0x78, 0x90, 0x12, 0x34, 0x56, 0x78, 0x90, 0x12, 0x34])
}

#[test]
fn check_op_insert() {
    let insert = doc(vec![
        ("op", s("i")),
        ("ns", s("foo.bar")),
        ("h", Bson::I64(66i64)),
        ("ts", Bson::TimeStamp(0)),
        ("o", Bson::Document(foo_fizz())),
    ]);

    let op = Op::from_doc(&insert).expect("from_doc");

    match op {
        Op::Insert { ref ts, ref h, ref ns, ref o } => {
            assert_eq!("foo.bar", ns);
            assert_eq!(&66i64, h);
            assert_eq!(&0i64, ts);
            assert_eq!(&foo_fizz(), o);
        }
        _ => panic!("op did not match insert"),
    };
}

#[test]
fn check_op_update() {
    let insert = doc(vec![
        ("op", s("u")),
        ("ns", s("foo.bar")),
        ("h", Bson::I64(66i64)),
        ("ts", Bson::TimeStamp(0)),
        ("o", Bson::Document(foo_fizz())),
        ("o2", Bson::Document(doc(vec![("_id", Bson::I32(77i32))]))),
    ]);

    let op = Op::from_doc(&insert).expect("from_doc");

    match op {
        Op::Update { ref ts, ref h, ref ns, ref o, ref o2 } => {
            assert_eq!("foo.bar", ns);
            assert_eq!(&66i64, h);
            assert_eq!(&0i64, ts);
            assert_eq!(&foo_fizz(), o);
            assert_eq!(&doc(vec![("_id", Bson::I32(77i32))]), o2);
        }
        _ => panic!("op did not match update"),
    };
}

#[test]
fn check_op_noop() {
    let insert = doc(vec![("op", s("n")), ("h", Bson::I64(66i64)), ("ts", Bson::TimeStamp(0))]);

    let op = Op::from_doc(&insert).expect("from_doc");

    match op {
        Op::NoOp { ref ts, ref h } => {
            assert_eq!(&66i64, h);
            assert_eq!(&0i64, ts);
        }
        _ => panic!("op did not match NoOp"),
    };
}

#[test]
fn check_op_delete() {
    let id = example_id();
    let insert = doc(vec![
        ("op", s("d")),
        ("ns", s("foo.bar")),
        ("h", Bson::I64(66i64)),
        ("ts", Bson::TimeStamp(0)),
        ("o", Bson::Document(doc(vec![("_id", Bson::ObjectId(id))]))),
    ]);

    let op = Op::from_doc(&insert).expect("from_doc");

    match op {
        Op::Delete { ref ts, ref h, ref ns, ref _id } => {
            let expected_id = example_id();

            assert_eq!("foo.bar", ns);
            assert_eq!(&66i64, h);
            assert_eq!(&0i64, ts);
            assert_eq!(&expected_id, _id);
        }
        _ => panic!("op did not match insert"),
    };
}

#[test]
fn check_op_command() {
    let insert = doc(vec![
        ("op", s("c")),
        ("h", Bson::I64(66i64)),
        ("ts", Bson::TimeStamp(0)),
        ("ns", s("test.$cmd")),
    ]);

    let op = Op::from_doc(&insert).expect("from_doc");

    match op {
        Op::Command { ref ts, ref h, ref ns, ref apply_ops, .. } => {
            assert_eq!(&0i64, ts);
            assert_eq!(&66i64, h);
            assert_eq!("test.$cmd", ns);
            assert!(apply_ops.is_none(), "apply_ops.is_none()");
        }
        _ => panic!("op did not match command"),
    };
}

#[test]
fn check_op_command_apply_ops() {
    let ops: Vec<Bson> = vec![Bson::Document(doc(vec![
        ("op", s("n")),
        ("h", Bson::I64(66i64)),
        ("ts", Bson::TimeStamp(0)),
    ]))];
    let insert = doc(vec![
        ("op", s("c")),
        ("h", Bson::I64(66i64)),
        ("ts", Bson::TimeStamp(0)),
        ("ns", s("test.$cmd")),
        ("o", Bson::Document(doc(vec![("applyOps", Bson::Array(ops))]))),
    ]);

    let op = Op::from_doc(&insert).expect("from_doc");

    match op {
        Op::Command { ts, h, ns, mut apply_ops, .. } => {
            assert_eq!(0i64, ts);
            assert_eq!(66i64, h);
            assert_eq!("test.$cmd", ns);
            assert!(apply_ops.is_some(), "apply_ops.is_some()");

            let ops = apply_ops.take().unwrap();

            assert_eq!(ops.len(), 1, "ops_size");

            let first_op = &ops[0];

            match first_op {
                Op::NoOp { .. } => (),
                _ => panic!("expected NoOp"),
            }
        }
        _ => panic!("op did not match command"),
    };
}

#[test]
fn check_op_unknown() {
    let insert = doc(vec![("op", s("?"))]);

    Op::from_doc(&insert).err().expect("error expected");
}

#[test]
fn unknown_op_names_the_op() {
    let insert = doc(vec![("op", s("x")), ("ts", Bson::TimeStamp(1))]);
    match Op::from_doc(&insert) {
        Err(OpLogError::UnknownOpType { ref op_name, .. }) => assert_eq!("x", op_name),
        other => panic!("expected UnknownOpType, got {:?}", other),
    }
}

#[test]
fn missing_op_field_is_malformed() {
    let d = doc(vec![("ts", Bson::TimeStamp(1))]);
    match Op::from_doc(&d) {
        Err(OpLogError::MalformedOplogEntry { cause, .. }) => {
            assert_eq!("ValueAccessError: field is not present", cause)
        }
        other => panic!("expected MalformedOplogEntry, got {:?}", other),
    }
}

#[test]
fn op_field_of_wrong_kind_is_malformed() {
    let d = doc(vec![("op", Bson::I32(1))]);
    match Op::from_doc(&d) {
        Err(OpLogError::MalformedOplogEntry { cause, .. }) => {
            assert_eq!("ValueAccessError: field does not have the expected type", cause)
        }
        other => panic!("expected MalformedOplogEntry, got {:?}", other),
    }
}

#[test]
fn insert_without_ns_is_malformed() {
    let d = doc(vec![
        ("op", s("i")),
        ("h", Bson::I64(66)),
        ("ts", Bson::TimeStamp(5)),
        ("o", Bson::Document(foo_fizz())),
    ]);
    match Op::from_doc(&d) {
        Err(OpLogError::MalformedOplogEntry { cause, .. }) => {
            assert_eq!("ValueAccessError: field is not present", cause)
        }
        other => panic!("expected MalformedOplogEntry, got {:?}", other),
    }
}

#[test]
fn ts_must_be_a_timestamp() {
    let d = doc(vec![("op", s("n")), ("h", Bson::I64(66)), ("ts", Bson::I64(5))]);
    match Op::from_doc(&d) {
        Err(OpLogError::MalformedOplogEntry { cause, .. }) => {
            assert_eq!("ValueAccessError: field does not have the expected type", cause)
        }
        other => panic!("expected MalformedOplogEntry, got {:?}", other),
    }
}

#[test]
fn delete_without_object_id_is_malformed() {
    let d = doc(vec![
        ("op", s("d")),
        ("ns", s("a.b")),
        ("h", Bson::I64(1)),
        ("ts", Bson::TimeStamp(2)),
        ("o", Bson::Document(doc(vec![("_id", Bson::I32(3))]))),
    ]);
    match Op::from_doc(&d) {
        Err(OpLogError::MalformedOplogEntry { cause, .. }) => {
            assert_eq!("ValueAccessError: field does not have the expected type", cause)
        }
        other => panic!("expected MalformedOplogEntry, got {:?}", other),
    }
}

#[test]
fn update_without_o2_is_malformed() {
    let d = doc(vec![
        ("op", s("u")),
        ("ns", s("a.b")),
        ("h", Bson::I64(1)),
        ("ts", Bson::TimeStamp(2)),
        ("o", Bson::Document(foo_fizz())),
    ]);
    match Op::from_doc(&d) {
        Err(OpLogError::MalformedOplogEntry { cause, .. }) => {
            assert_eq!("ValueAccessError: field is not present", cause)
        }
        other => panic!("expected MalformedOplogEntry, got {:?}", other),
    }
}

#[test]
fn command_keeps_its_document() {
    let o = doc(vec![("create", s("coll"))]);
    let d = doc(vec![
        ("op", s("c")),
        ("ns", s("db.$cmd")),
        ("h", Bson::I64(7)),
        ("ts", Bson::TimeStamp(8)),
        ("o", Bson::Document(o)),
    ]);
    match Op::from_doc(&d).expect("from_doc") {
        Op::Command { ts, h, ns, o, apply_ops } => {
            assert_eq!(8, ts);
            assert_eq!(7, h);
            assert_eq!("db.$cmd", ns);
            assert_eq!(Some(doc(vec![("create", s("coll"))])), o);
            assert!(apply_ops.is_none());
        }
        other => panic!("expected Command, got {:?}", other),
    }
}

#[test]
fn apply_ops_element_that_is_not_a_document() {
    let d = doc(vec![
        ("op", s("c")),
        ("ns", s("db.$cmd")),
        ("h", Bson::I64(7)),
        ("ts", Bson::TimeStamp(8)),
        ("o", Bson::Document(doc(vec![("applyOps", Bson::Array(vec![Bson::I32(1)]))]))),
    ]);
    match Op::from_doc(&d) {
        Err(OpLogError::MalformedOplogEntry { cause, .. }) => {
            assert_eq!("\"bson is not document\"", cause)
        }
        other => panic!("expected MalformedOplogEntry, got {:?}", other),
    }
}

#[test]
fn apply_ops_that_is_not_an_array() {
    let d = doc(vec![
        ("op", s("c")),
        ("ns", s("db.$cmd")),
        ("h", Bson::I64(7)),
        ("ts", Bson::TimeStamp(8)),
        ("o", Bson::Document(doc(vec![("applyOps", s("no"))]))),
    ]);
    match Op::from_doc(&d) {
        Err(OpLogError::MalformedOplogEntry { cause, .. }) => {
            assert_eq!("ValueAccessError: field does not have the expected type", cause)
        }
        other => panic!("expected MalformedOplogEntry, got {:?}", other),
    }
}

#[test]
fn apply_ops_stops_at_first_bad_element() {
    let good = Bson::Document(doc(vec![("op", s("n")), ("h", Bson::I64(1)), ("ts", Bson::TimeStamp(1))]));
    let unknown = Bson::Document(doc(vec![("op", s("z"))]));
    let d = doc(vec![
        ("op", s("c")),
        ("ns", s("db.$cmd")),
        ("h", Bson::I64(7)),
        ("ts", Bson::TimeStamp(8)),
        ("o", Bson::Document(doc(vec![("applyOps", Bson::Array(vec![good, unknown, Bson::Null]))]))),
    ]);
    match Op::from_doc(&d) {
        Err(OpLogError::UnknownOpType { op_name, .. }) => assert_eq!("z", op_name),
        other => panic!("expected UnknownOpType, got {:?}", other),
    }
}

#[test]
fn nested_apply_ops_are_read_in_order() {
    let insert = Bson::Document(doc(vec![
        ("op", s("i")),
        ("ns", s("a.b")),
        ("h", Bson::I64(2)),
        ("ts", Bson::TimeStamp(3)),
        ("o", Bson::Document(foo_fizz())),
    ]));
    let noop = Bson::Document(doc(vec![("op", s("n")), ("h", Bson::I64(4)), ("ts", Bson::TimeStamp(5))]));
    let d = doc(vec![
        ("op", s("c")),
        ("ns", s("db.$cmd")),
        ("h", Bson::I64(7)),
        ("ts", Bson::TimeStamp(8)),
        ("o", Bson::Document(doc(vec![("applyOps", Bson::Array(vec![insert, noop]))]))),
    ]);
    match Op::from_doc(&d).expect("from_doc") {
        Op::Command { apply_ops: Some(ops), o, .. } => {
            assert!(o.is_none());
            assert_eq!(2, ops.len());
            assert_eq!(&2, ops[0].get_h());
            assert_eq!(Some(&"a.b".to_string()), ops[0].get_ns());
            assert_eq!(&5, ops[1].get_ts());
            assert_eq!(None, ops[1].get_ns());
        }
        other => panic!("expected Command with ops, got {:?}", other),
    }
}

#[test]
fn command_whose_o_is_not_a_document_does_not_finish() {
    let d = doc(vec![
        ("op", s("c")),
        ("ns", s("db.$cmd")),
        ("h", Bson::I64(7)),
        ("ts", Bson::TimeStamp(8)),
        ("o", Bson::I32(1)),
    ]);
    assert!(Op::try_from_doc(&d).is_none());
}

#[test]
fn try_from_doc_agrees_with_from_doc() {
    let d = doc(vec![("op", s("n")), ("h", Bson::I64(66)), ("ts", Bson::TimeStamp(9))]);
    match Op::try_from_doc(&d) {
        Some(Ok(Op::NoOp { ts, h })) => {
            assert_eq!(9, ts);
            assert_eq!(66, h);
        }
        other => panic!("expected NoOp, got {:?}", other),
    }
}

#[test]
fn getters_of_each_kind() {
    let op = Op::Delete { ts: 3, h: 4, ns: "x.y".to_string(), _id: example_id() };
    assert_eq!(&3, op.get_ts());
    assert_eq!(&4, op.get_h());
    assert_eq!(Some(&"x.y".to_string()), op.get_ns());
    let noop = Op::NoOp { ts: 5, h: 6 };
    assert_eq!(None, noop.get_ns());
}
