//! The errors of this crate.
use vstd::prelude::*;
use crate::document::ValueAccessError;

verus! {

#[verifier::external_type_specification]
#[verifier::external_body]
pub struct ExBacktrace(backtrace::Backtrace);

/// Captures and resolves a stack trace of the calling thread with
/// `backtrace::Backtrace::new`. What it holds depends on the machine and on
/// the call site, so nothing is stated of it.
#[verifier::external_body]
fn capture_backtrace() -> backtrace::Backtrace {
    backtrace::Backtrace::new()
}

/// The stack traces recorded for an error.
#[derive(Debug)]
pub struct BacktraceCapture {
    traces: Vec<backtrace::Backtrace>,
}

impl BacktraceCapture {
    /// The traces recorded so far, oldest first.
    pub closed spec fn traces(&self) -> Seq<backtrace::Backtrace> {
        self.traces@
    }

    /// How many traces have been recorded.
    pub open spec fn trace_count(&self) -> nat {
        self.traces().len()
    }

    /// A capture holding one trace, taken here.
    pub fn new() -> (r: BacktraceCapture)
        ensures
            r.trace_count() == 1,
    {
        let mut new_instance = BacktraceCapture { traces: Vec::with_capacity(1) };
        new_instance.add_trace();
        new_instance
    }

    /// Records one more trace, taken here, after the earlier ones.
    pub fn add_trace(&mut self)
        ensures
            final(self).trace_count() == old(self).trace_count() + 1,
            final(self).traces().subrange(0, old(self).trace_count() as int) == old(self).traces(),
    {
        let bt = capture_backtrace();
        self.traces.push(bt);
        proof {
            assert(self.traces@.subrange(0, old(self).traces@.len() as int) =~= old(self).traces@);
        }
    }
}

/// All errors will be one of `OpLogError`.
#[derive(Debug)]
#[allow(inconsistent_fields)]
pub enum OpLogError {
    /// An error in the mongo driver: includes connection issues. The cause is
    /// the `Debug` text of the driver's error.
    MongoError { stack: BacktraceCapture, cause: String },
    /// Found something in the oplog that cannot be parsed. The cause is the
    /// `Debug` text of what was wrong.
    MalformedOplogEntry { stack: BacktraceCapture, cause: String },
    /// Found an oplog entry with an `op` field that is unknown.
    UnknownOpType { stack: BacktraceCapture, op_name: String },
    /// Any other generic error.
    Unknown,
}

/// The mathematical value of an `OpLogError`: the kind and the details,
/// without the stack traces.
pub enum ErrorV {
    MongoError(Seq<char>),
    MalformedOplogEntry(Seq<char>),
    UnknownOpType(Seq<char>),
    Unknown,
}

impl View for OpLogError {
    type V = ErrorV;

    open spec fn view(&self) -> ErrorV {
        match *self {
            OpLogError::MongoError { cause, .. } => ErrorV::MongoError(cause@),
            OpLogError::MalformedOplogEntry { cause, .. } => ErrorV::MalformedOplogEntry(cause@),
            OpLogError::UnknownOpType { op_name, .. } => ErrorV::UnknownOpType(op_name@),
            OpLogError::Unknown => ErrorV::Unknown,
        }
    }
}

/// The stack traces that an error holds; `Unknown` holds none.
pub open spec fn error_trace_count(e: OpLogError) -> nat {
    match e {
        OpLogError::MongoError { stack, .. } => stack.trace_count(),
        OpLogError::MalformedOplogEntry { stack, .. } => stack.trace_count(),
        OpLogError::UnknownOpType { stack, .. } => stack.trace_count(),
        OpLogError::Unknown => 0,
    }
}

/// The text that `{:?}` formatting gives of a string: the string quoted, with
/// the characters that need it escaped.
pub uninterp spec fn str_debug_text(s: Seq<char>) -> Seq<char>;

/// Formats `s` with `{:?}` (std's `Debug` for `str`).
#[verifier::external_body]
fn debug_quote(s: &str) -> (r: String)
    ensures
        r@ == str_debug_text(s@),
{
    format!("{:?}", s)
}

/// How a failed typed read of a document entry is described, as the `bson`
/// crate's `ValueAccessError` describes itself.
pub open spec fn value_access_text(e: ValueAccessError) -> Seq<char> {
    match e {
        ValueAccessError::NotPresent => "ValueAccessError: field is not present"@,
        ValueAccessError::UnexpectedType => "ValueAccessError: field does not have the expected type"@,
    }
}

/// How an element of an `applyOps` array that is not a document is described.
pub open spec fn not_document_text() -> Seq<char> {
    str_debug_text("bson is not document"@)
}

/// The description of an error.
pub open spec fn description_text(e: ErrorV) -> Seq<char> {
    match e {
        ErrorV::MalformedOplogEntry(c) => "OpLogError::MalformedOplogEntry: "@ + c,
        ErrorV::MongoError(c) => "OpLogError::MongoError: "@ + c,
        ErrorV::UnknownOpType(n) => "OpLogError::UnknownOpType: "@ + str_debug_text(n) + " "@,
        ErrorV::Unknown => "OpLogError::Unknown"@,
    }
}

/// No spec value is what `from` returns: that error holds a stack trace
/// taken at the call. What `from` returns is stated by its own `ensures`.
impl vstd::std_specs::convert::FromSpecImpl<ValueAccessError> for OpLogError {
    open spec fn obeys_from_spec() -> bool {
        false
    }

    open spec fn from_spec(v: ValueAccessError) -> OpLogError {
        vstd::pervasive::arbitrary()
    }
}

impl From<ValueAccessError> for OpLogError {
    /// An error for a field of an entry that is missing or of another kind.
    fn from(e: ValueAccessError) -> (r: OpLogError)
        ensures
            r@ == ErrorV::MalformedOplogEntry(value_access_text(e)),
            r is MalformedOplogEntry,
            error_trace_count(r) == 1,
    {
        OpLogError::from_value_access(e)
    }
}

impl OpLogError {
    /// An error for an oplog entry that cannot be parsed. `cause` is the
    /// `Debug` text of what was wrong; the description shows it as it is.
    pub fn new_malformed_oplog_entry(cause: String) -> (r: OpLogError)
        ensures
            r@ == ErrorV::MalformedOplogEntry(cause@),
            r is MalformedOplogEntry,
            error_trace_count(r) == 1,
    {
        OpLogError::MalformedOplogEntry { stack: BacktraceCapture::new(), cause: cause }
    }

    /// An error for an entry whose `op` field is `op_name`, which is unknown.
    pub fn from_unknown_op(op_name: &str) -> (r: OpLogError)
        ensures
            r@ == ErrorV::UnknownOpType(op_name@),
            r is UnknownOpType,
            error_trace_count(r) == 1,
    {
        OpLogError::UnknownOpType { stack: BacktraceCapture::new(), op_name: op_name.to_owned() }
    }

    /// An error for a field of an entry that is missing or of another kind.
    pub fn from_value_access(e: ValueAccessError) -> (r: OpLogError)
        ensures
            r@ == ErrorV::MalformedOplogEntry(value_access_text(e)),
            r is MalformedOplogEntry,
            error_trace_count(r) == 1,
    {
        let cause = match e {
            ValueAccessError::NotPresent => "ValueAccessError: field is not present".to_owned(),
            ValueAccessError::UnexpectedType => "ValueAccessError: field does not have the expected type".to_owned(),
        };
        OpLogError::new_malformed_oplog_entry(cause)
    }

    /// An error for an element of an `applyOps` array that is not a document.
    pub fn from_non_document() -> (r: OpLogError)
        ensures
            r@ == ErrorV::MalformedOplogEntry(not_document_text()),
            r is MalformedOplogEntry,
            error_trace_count(r) == 1,
    {
        OpLogError::new_malformed_oplog_entry(debug_quote("bson is not document"))
    }

    /// An error of the mongo driver, given by the `Debug` text of the driver's
    /// error; the description shows it as it is.
    pub fn from_mongo_error(cause: String) -> (r: OpLogError)
        ensures
            r@ == ErrorV::MongoError(cause@),
            r is MongoError,
            error_trace_count(r) == 1,
    {
        OpLogError::MongoError { stack: BacktraceCapture::new(), cause: cause }
    }

    /// The short description of every error.
    pub fn description(&self) -> (r: &'static str)
        ensures
            r@ == "OpLogError"@,
    {
        "OpLogError"
    }

    /// A description of the error, naming its kind and its details.
    pub fn description_str(&self) -> (r: String)
        ensures
            r@ == description_text(self@),
    {
        match self {
            OpLogError::MalformedOplogEntry { cause, .. } => {
                let mut s = "OpLogError::MalformedOplogEntry: ".to_owned();
                s.append(cause.as_str());
                s
            },
            OpLogError::MongoError { cause, .. } => {
                let mut s = "OpLogError::MongoError: ".to_owned();
                s.append(cause.as_str());
                s
            },
            OpLogError::UnknownOpType { op_name, .. } => {
                let mut s = "OpLogError::UnknownOpType: ".to_owned();
                let q = debug_quote(op_name.as_str());
                s.append(q.as_str());
                s.append(" ");
                s
            },
            OpLogError::Unknown => "OpLogError::Unknown".to_owned(),
        }
    }
}

} // verus!
