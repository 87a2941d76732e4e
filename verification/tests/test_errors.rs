use mongo_oplog::document::ValueAccessError;
use mongo_oplog::errors::{BacktraceCapture, OpLogError};

#[test]
fn malformed_description() {
    let e = OpLogError::from(ValueAccessError::NotPresent);
    assert_eq!("OpLogError::MalformedOplogEntry: ValueAccessError: field is not present", e.description_str());
    let e = OpLogError::new_malformed_oplog_entry("a cause".to_string());
    assert_eq!("OpLogError::MalformedOplogEntry: a cause", e.description_str());
    let e = OpLogError::from_value_access(ValueAccessError::UnexpectedType);
    assert_eq!(
        "OpLogError::MalformedOplogEntry: ValueAccessError: field does not have the expected type",
        e.description_str()
    );
    let e = OpLogError::from_non_document();
    assert_eq!("OpLogError::MalformedOplogEntry: \"bson is not document\"", e.description_str());
}

#[test]
fn unknown_op_description_quotes_the_name() {
    let e = OpLogError::from_unknown_op("q\"x");
    assert_eq!("OpLogError::UnknownOpType: \"q\\\"x\" ", e.description_str());
    match e {
        OpLogError::UnknownOpType { op_name, .. } => assert_eq!("q\"x", op_name),
        other => panic!("expected UnknownOpType, got {:?}", other),
    }
}

#[test]
fn mongo_error_description() {
    let e = OpLogError::from_mongo_error("connection refused".to_string());
    assert_eq!("OpLogError::MongoError: connection refused", e.description_str());
}

#[test]
fn unknown_description() {
    assert_eq!("OpLogError::Unknown", OpLogError::Unknown.description_str());
    assert_eq!("OpLogError", OpLogError::Unknown.description());
}

#[test]
fn backtrace_capture_records_traces() {
    let mut c = BacktraceCapture::new();
    c.add_trace();
    let text = format!("{:?}", c);
    assert!(text.starts_with("BacktraceCapture"));
}
