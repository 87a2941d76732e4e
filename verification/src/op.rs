//! Oplog entries and how they are read from documents.
//!
//! see: https://docs.mongodb.com/v3.2/core/replica-set-oplog/
use vstd::prelude::*;
use crate::document::{
    access_document, access_i64, access_object_id, access_str, access_time_stamp, array_view,
    lemma_array_view, lemma_lookup_decreases, bson_view, lookup, Bson, BsonV, DocV, Document, ObjectId,
    ValueAccessError,
};
use crate::errors::{not_document_text, value_access_text, ErrorV, OpLogError};

verus! {

broadcast use {vstd::std_specs::vec::group_vec_axioms, vstd::seq::group_seq_axioms};

/// Represents an entry from the oplog.
#[derive(Debug)]
#[allow(inconsistent_fields)]
pub enum Op {
    Insert { ts: i64, h: i64, ns: String, o: Document },
    Update { ts: i64, h: i64, ns: String, o: Document, o2: Document },
    NoOp { ts: i64, h: i64 },
    Delete { ts: i64, h: i64, ns: String, _id: ObjectId },
    /// A command. When the command document `o` holds an `applyOps` array,
    /// `apply_ops` holds the operations read from it and `o` is `None`;
    /// otherwise `o` is the command document, when the entry has one.
    /// see: https://groups.google.com/forum/#!topic/mongodb-user/dTf5VEJJWvY
    Command { ts: i64, h: i64, ns: String, o: Option<Document>, apply_ops: Option<Vec<Op>> },
}

/// The mathematical value of an `Op`.
#[allow(inconsistent_fields)]
pub enum OpV {
    Insert { ts: i64, h: i64, ns: Seq<char>, o: DocV },
    Update { ts: i64, h: i64, ns: Seq<char>, o: DocV, o2: DocV },
    NoOp { ts: i64, h: i64 },
    Delete { ts: i64, h: i64, ns: Seq<char>, _id: ObjectId },
    Command { ts: i64, h: i64, ns: Seq<char>, o: Option<DocV>, apply_ops: Option<Seq<OpV>> },
}

pub open spec fn op_view(op: Op) -> OpV
    decreases op,
{
    match op {
        Op::Insert { ts, h, ns, o } => OpV::Insert { ts, h, ns: ns@, o: o@ },
        Op::Update { ts, h, ns, o, o2 } => OpV::Update { ts, h, ns: ns@, o: o@, o2: o2@ },
        Op::NoOp { ts, h } => OpV::NoOp { ts, h },
        Op::Delete { ts, h, ns, _id } => OpV::Delete { ts, h, ns: ns@, _id },
        Op::Command { ts, h, ns, o, apply_ops } => OpV::Command {
            ts,
            h,
            ns: ns@,
            o: match o {
                Some(d) => Some(d@),
                None => None,
            },
            apply_ops: match apply_ops {
                Some(v) => Some(ops_view(v@)),
                None => None,
            },
        },
    }
}

pub open spec fn ops_view(s: Seq<Op>) -> Seq<OpV>
    decreases s,
{
    if s.len() == 0 {
        Seq::empty()
    } else {
        ops_view(s.subrange(0, s.len() - 1)).push(op_view(s[s.len() - 1]))
    }
}

impl View for Op {
    type V = OpV;

    open spec fn view(&self) -> OpV {
        op_view(*self)
    }
}

pub proof fn lemma_ops_view(s: Seq<Op>)
    ensures
        ops_view(s).len() == s.len(),
        forall|i: int| 0 <= i < s.len() ==> #[trigger] ops_view(s)[i] == op_view(s[i]),
    decreases s.len(),
{
    if s.len() > 0 {
        lemma_ops_view(s.subrange(0, s.len() - 1));
    }
}

/// The mathematical value of the result of reading an entry.
pub open spec fn result_view(r: Result<Op, OpLogError>) -> Result<OpV, ErrorV> {
    match r {
        Ok(op) => Ok(op@),
        Err(e) => Err(e@),
    }
}

pub open spec fn op_ts(op: OpV) -> i64 {
    match op {
        OpV::Insert { ts, .. } => ts,
        OpV::Update { ts, .. } => ts,
        OpV::NoOp { ts, .. } => ts,
        OpV::Delete { ts, .. } => ts,
        OpV::Command { ts, .. } => ts,
    }
}

pub open spec fn op_h(op: OpV) -> i64 {
    match op {
        OpV::Insert { h, .. } => h,
        OpV::Update { h, .. } => h,
        OpV::NoOp { h, .. } => h,
        OpV::Delete { h, .. } => h,
        OpV::Command { h, .. } => h,
    }
}

/// The namespace of an operation; a no-op has none.
pub open spec fn op_ns(op: OpV) -> Option<Seq<char>> {
    match op {
        OpV::Insert { ns, .. } => Some(ns),
        OpV::Update { ns, .. } => Some(ns),
        OpV::NoOp { .. } => None,
        OpV::Delete { ns, .. } => Some(ns),
        OpV::Command { ns, .. } => Some(ns),
    }
}

/// The error for a field that is missing or of another kind.
pub open spec fn malformed(e: ValueAccessError) -> ErrorV {
    ErrorV::MalformedOplogEntry(value_access_text(e))
}

/// The `ts`, `h` and `ns` fields that most entries carry, read in that order.
pub open spec fn common_fields(d: DocV) -> Result<(i64, i64, Seq<char>), ErrorV> {
    match access_time_stamp(d, "ts"@) {
        Err(e) => Err(malformed(e)),
        Ok(ts) => match access_i64(d, "h"@) {
            Err(e) => Err(malformed(e)),
            Ok(h) => match access_str(d, "ns"@) {
                Err(e) => Err(malformed(e)),
                Ok(ns) => Ok((ts, h, ns)),
            },
        },
    }
}

pub open spec fn parse_update(d: DocV) -> Result<OpV, ErrorV> {
    match common_fields(d) {
        Err(e) => Err(e),
        Ok((ts, h, ns)) => match access_document(d, "o"@) {
            Err(e) => Err(malformed(e)),
            Ok(o) => match access_document(d, "o2"@) {
                Err(e) => Err(malformed(e)),
                Ok(o2) => Ok(OpV::Update { ts, h, ns, o, o2 }),
            },
        },
    }
}

pub open spec fn parse_insert(d: DocV) -> Result<OpV, ErrorV> {
    match common_fields(d) {
        Err(e) => Err(e),
        Ok((ts, h, ns)) => match access_document(d, "o"@) {
            Err(e) => Err(malformed(e)),
            Ok(o) => Ok(OpV::Insert { ts, h, ns, o }),
        },
    }
}

pub open spec fn parse_noop(d: DocV) -> Result<OpV, ErrorV> {
    match access_time_stamp(d, "ts"@) {
        Err(e) => Err(malformed(e)),
        Ok(ts) => match access_i64(d, "h"@) {
            Err(e) => Err(malformed(e)),
            Ok(h) => Ok(OpV::NoOp { ts, h }),
        },
    }
}

pub open spec fn parse_delete(d: DocV) -> Result<OpV, ErrorV> {
    match common_fields(d) {
        Err(e) => Err(e),
        Ok((ts, h, ns)) => match access_document(d, "o"@) {
            Err(e) => Err(malformed(e)),
            Ok(o) => match access_object_id(o, "_id"@) {
                Err(e) => Err(malformed(e)),
                Ok(id) => Ok(OpV::Delete { ts, h, ns, _id: id }),
            },
        },
    }
}

/// Reading a command entry. `None` where reading does not finish: a command
/// whose `o` field is not a document, at any depth.
pub open spec fn parse_command(d: DocV) -> Option<Result<OpV, ErrorV>>
    decreases d, 0int,
{
    match common_fields(d) {
        Err(e) => Some(Err(e)),
        Ok((ts, h, ns)) => match lookup(d, "o"@) {
            None => Some(Ok(OpV::Command { ts, h, ns, o: None, apply_ops: None })),
            Some(BsonV::Document(o)) => match lookup(o, "applyOps"@) {
                None => Some(Ok(OpV::Command { ts, h, ns, o: Some(o), apply_ops: None })),
                Some(BsonV::Array(a)) => {
                    proof {
                        lemma_lookup_decreases(d, "o"@);
                        lemma_lookup_decreases(o, "applyOps"@);
                    }
                    match parse_ops(a) {
                        None => None,
                        Some(Err(e)) => Some(Err(e)),
                        Some(Ok(ops)) => Some(
                            Ok(OpV::Command { ts, h, ns, o: None, apply_ops: Some(ops) }),
                        ),
                    }
                },
                Some(_) => Some(Err(malformed(ValueAccessError::UnexpectedType))),
            },
            Some(_) => None,
        },
    }
}

/// Reading the elements of an `applyOps` array in order, up to the first
/// element that cannot be read.
pub open spec fn parse_ops(a: Seq<BsonV>) -> Option<Result<Seq<OpV>, ErrorV>>
    decreases a, 0int,
{
    if a.len() == 0 {
        Some(Ok(Seq::empty()))
    } else {
        match parse_ops(a.subrange(0, a.len() - 1)) {
            None => None,
            Some(Err(e)) => Some(Err(e)),
            Some(Ok(ops)) => match parse_bson(a[a.len() - 1]) {
                None => None,
                Some(Err(e)) => Some(Err(e)),
                Some(Ok(op)) => Some(Ok(ops.push(op))),
            },
        }
    }
}

/// Reading one element of an `applyOps` array.
pub open spec fn parse_bson(b: BsonV) -> Option<Result<OpV, ErrorV>>
    decreases b, 0int,
{
    match b {
        BsonV::Document(d) => parse_op(d),
        _ => Some(Err(ErrorV::MalformedOplogEntry(not_document_text()))),
    }
}

/// Reading an oplog entry from a document: the `op` field names the kind of
/// entry. `None` where reading does not finish.
pub open spec fn parse_op(d: DocV) -> Option<Result<OpV, ErrorV>>
    decreases d, 1int,
{
    match access_str(d, "op"@) {
        Err(e) => Some(Err(malformed(e))),
        Ok(name) => if name == "u"@ {
            Some(parse_update(d))
        } else if name == "i"@ {
            Some(parse_insert(d))
        } else if name == "n"@ {
            Some(parse_noop(d))
        } else if name == "d"@ {
            Some(parse_delete(d))
        } else if name == "c"@ {
            parse_command(d)
        } else {
            Some(Err(ErrorV::UnknownOpType(name)))
        },
    }
}


/// The mathematical value of the result of reading an entry that may not finish.
pub open spec fn opt_result_view(r: Option<Result<Op, OpLogError>>) -> Option<Result<OpV, ErrorV>> {
    match r {
        Some(r) => Some(result_view(r)),
        None => None,
    }
}

/// Once an element of an `applyOps` array cannot be read, the elements
/// after it do not change the outcome.
proof fn lemma_parse_ops_stops(a: Seq<BsonV>, k: int)
    requires
        0 <= k <= a.len(),
        !(parse_ops(a.take(k)) matches Some(Ok(_))),
    ensures
        parse_ops(a) == parse_ops(a.take(k)),
    decreases a.len(),
{
    if k == a.len() {
        assert(a.take(k) =~= a);
    } else {
        let p = a.subrange(0, a.len() - 1);
        assert(p.take(k) =~= a.take(k));
        lemma_parse_ops_stops(p, k);
    }
}

/// Whether two strings have the same characters.
fn same_text(a: &str, b: &str) -> (r: bool)
    ensures
        r == (a@ == b@),
{
    a.to_owned().eq(&b.to_owned())
}

impl Op {
    /// The timestamp of the operation.
    pub fn get_ts(&self) -> (r: &i64)
        ensures
            *r == op_ts(self@),
    {
        match self {
            Op::Insert { ts, .. } => ts,
            Op::Update { ts, .. } => ts,
            Op::NoOp { ts, .. } => ts,
            Op::Delete { ts, .. } => ts,
            Op::Command { ts, .. } => ts,
        }
    }

    /// The namespace of the operation; a no-op has none.
    pub fn get_ns(&self) -> (r: Option<&String>)
        ensures
            match r {
                Some(ns) => op_ns(self@) == Some(ns@),
                None => op_ns(self@) is None,
            },
    {
        match self {
            Op::Insert { ns, .. } => Some(ns),
            Op::Update { ns, .. } => Some(ns),
            Op::NoOp { .. } => None,
            Op::Delete { ns, .. } => Some(ns),
            Op::Command { ns, .. } => Some(ns),
        }
    }

    /// The unique id (`h`) of the operation.
    pub fn get_h(&self) -> (r: &i64)
        ensures
            *r == op_h(self@),
    {
        match self {
            Op::Insert { h, .. } => h,
            Op::Update { h, .. } => h,
            Op::NoOp { h, .. } => h,
            Op::Delete { h, .. } => h,
            Op::Command { h, .. } => h,
        }
    }

    fn get_common(doc: &Document) -> (r: Result<(i64, i64, &str), OpLogError>)
        ensures
            match r {
                Ok((ts, h, ns)) => common_fields(doc@) == Ok::<(i64, i64, Seq<char>), ErrorV>(
                    (ts, h, ns@),
                ),
                Err(e) => common_fields(doc@) == Err::<(i64, i64, Seq<char>), ErrorV>(e@),
            },
    {
        let ts = match doc.get_time_stamp("ts") {
            Ok(v) => v,
            Err(e) => return Err(OpLogError::from_value_access(e)),
        };
        let h = match doc.get_i64("h") {
            Ok(v) => v,
            Err(e) => return Err(OpLogError::from_value_access(e)),
        };
        let ns = match doc.get_str("ns") {
            Ok(v) => v,
            Err(e) => return Err(OpLogError::from_value_access(e)),
        };
        Ok((ts, h, ns))
    }

    fn from_update(doc: &Document) -> (r: Result<Op, OpLogError>)
        ensures
            result_view(r) == parse_update(doc@),
    {
        let (ts, h, ns) = match Op::get_common(doc) {
            Ok(c) => c,
            Err(e) => return Err(e),
        };
        let o = match doc.get_document("o") {
            Ok(o) => o,
            Err(e) => return Err(OpLogError::from_value_access(e)),
        };
        let o2 = match doc.get_document("o2") {
            Ok(o2) => o2,
            Err(e) => return Err(OpLogError::from_value_access(e)),
        };
        Ok(Op::Update { ts: ts, h: h, ns: ns.to_owned(), o: o.deep_clone(), o2: o2.deep_clone() })
    }

    fn from_insert(doc: &Document) -> (r: Result<Op, OpLogError>)
        ensures
            result_view(r) == parse_insert(doc@),
    {
        let (ts, h, ns) = match Op::get_common(doc) {
            Ok(c) => c,
            Err(e) => return Err(e),
        };
        let o = match doc.get_document("o") {
            Ok(o) => o,
            Err(e) => return Err(OpLogError::from_value_access(e)),
        };
        Ok(Op::Insert { ts: ts, h: h, ns: ns.to_owned(), o: o.deep_clone() })
    }

    fn from_noop(doc: &Document) -> (r: Result<Op, OpLogError>)
        ensures
            result_view(r) == parse_noop(doc@),
    {
        let ts = match doc.get_time_stamp("ts") {
            Ok(v) => v,
            Err(e) => return Err(OpLogError::from_value_access(e)),
        };
        let h = match doc.get_i64("h") {
            Ok(v) => v,
            Err(e) => return Err(OpLogError::from_value_access(e)),
        };
        Ok(Op::NoOp { ts: ts, h: h })
    }

    fn from_delete(doc: &Document) -> (r: Result<Op, OpLogError>)
        ensures
            result_view(r) == parse_delete(doc@),
    {
        let (ts, h, ns) = match Op::get_common(doc) {
            Ok(c) => c,
            Err(e) => return Err(e),
        };
        let o = match doc.get_document("o") {
            Ok(o) => o,
            Err(e) => return Err(OpLogError::from_value_access(e)),
        };
        let _id = match o.get_object_id("_id") {
            Ok(id) => id,
            Err(e) => return Err(OpLogError::from_value_access(e)),
        };
        Ok(Op::Delete { ts: ts, h: h, ns: ns.to_owned(), _id: *_id })
    }

    fn from_command(doc: &Document) -> (r: Option<Result<Op, OpLogError>>)
        ensures
            opt_result_view(r) == parse_command(doc@),
        decreases doc, 0int,
    {
        let (ts, h, ns) = match Op::get_common(doc) {
            Ok(c) => c,
            Err(e) => return Some(Err(e)),
        };
        if !doc.contains_key("o") {
            return Some(Ok(Op::Command { ts: ts, h: h, ns: ns.to_owned(), o: None, apply_ops: None }));
        }
        // An `o` field that is not a document ends the reading here.
        let o = match doc.get_document("o") {
            Ok(o) => o,
            Err(_) => return None,
        };
        if !o.contains_key("applyOps") {
            return Some(
                Ok(
                    Op::Command {
                        ts: ts,
                        h: h,
                        ns: ns.to_owned(),
                        o: Some(o.deep_clone()),
                        apply_ops: None,
                    },
                ),
            );
        }
        let apply_ops = match o.get_array("applyOps") {
            Ok(a) => a,
            Err(e) => return Some(Err(OpLogError::from_value_access(e))),
        };
        let ghost a = array_view(apply_ops@);
        let n = apply_ops.len();
        let mut ops: Vec<Op> = Vec::new();
        let mut i: usize = 0;
        proof {
            lemma_array_view(apply_ops@);
            lemma_ops_view(ops@);
            assert(a.take(0) =~= Seq::<BsonV>::empty());
            assert(ops_view(ops@) =~= Seq::<OpV>::empty());
        }
        while i < n
            invariant
                n == apply_ops@.len(),
                a == array_view(apply_ops@),
                a.len() == n,
                forall|j: int| 0 <= j < n ==> #[trigger] a[j] == bson_view(apply_ops@[j]),
                i <= n,
                decreases_to!(*doc => *apply_ops),
                common_fields(doc@) == Ok::<(i64, i64, Seq<char>), ErrorV>((ts, h, ns@)),
                lookup(doc@, "o"@) == Some(BsonV::Document(o@)),
                lookup(o@, "applyOps"@) == Some(BsonV::Array(a)),
                parse_ops(a.take(i as int)) == Some(Ok::<Seq<OpV>, ErrorV>(ops_view(ops@))),
            decreases n - i,
        {
            assert(decreases_to!(*apply_ops => apply_ops[i as int]));
            let next = Op::from_bson(&apply_ops[i]);
            proof {
                assert(a.take(i + 1).subrange(0, i as int) =~= a.take(i as int));
                assert(a.take(i + 1)[i as int] == a[i as int]);
            }
            match next {
                None => {
                    proof {
                        lemma_parse_ops_stops(a, i + 1);
                    }
                    return None;
                },
                Some(Err(e)) => {
                    proof {
                        lemma_parse_ops_stops(a, i + 1);
                    }
                    return Some(Err(e));
                },
                Some(Ok(op)) => {
                    let ghost before = ops@;
                    ops.push(op);
                    proof {
                        lemma_ops_view(before);
                        lemma_ops_view(ops@);
                        assert(ops_view(ops@) =~= ops_view(before).push(op@));
                    }
                },
            }
            i += 1;
        }
        proof {
            assert(a.take(n as int) =~= a);
        }
        Some(
            Ok(
                Op::Command {
                    ts: ts,
                    h: h,
                    ns: ns.to_owned(),
                    o: None,
                    apply_ops: Some(ops),
                },
            ),
        )
    }

    fn from_bson(bson_doc: &Bson) -> (r: Option<Result<Op, OpLogError>>)
        ensures
            opt_result_view(r) == parse_bson(bson_doc@),
        decreases bson_doc, 0int,
    {
        match bson_doc {
            Bson::Document(doc) => Op::try_from_doc(doc),
            _ => Some(Err(OpLogError::from_non_document())),
        }
    }

    /// Converts a document into an oplog entry, or says, by `None`, that the
    /// document holds a command whose `o` field is not a document, where
    /// reading stops.
    pub fn try_from_doc(doc: &Document) -> (r: Option<Result<Op, OpLogError>>)
        ensures
            opt_result_view(r) == parse_op(doc@),
        decreases doc, 1int,
    {
        let op_name = match doc.get_str("op") {
            Ok(n) => n,
            Err(e) => return Some(Err(OpLogError::from_value_access(e))),
        };
        if same_text(op_name, "u") {
            Some(Op::from_update(doc))
        } else if same_text(op_name, "i") {
            Some(Op::from_insert(doc))
        } else if same_text(op_name, "n") {
            Some(Op::from_noop(doc))
        } else if same_text(op_name, "d") {
            Some(Op::from_delete(doc))
        } else if same_text(op_name, "c") {
            Op::from_command(doc)
        } else {
            Some(Err(OpLogError::from_unknown_op(op_name)))
        }
    }

    /// Converts a document into an oplog entry.
    pub fn from_doc(doc: &Document) -> (r: Result<Op, OpLogError>)
        requires
            parse_op(doc@) is Some,
        ensures
            Some(result_view(r)) == parse_op(doc@),
    {
        match Op::try_from_doc(doc) {
            Some(r) => r,
            None => Err(OpLogError::Unknown),
        }
    }
}


/// The letter of the `op` field that names each kind of operation.
pub open spec fn op_code(op: OpV) -> Seq<char> {
    match op {
        OpV::Insert { .. } => "i"@,
        OpV::Update { .. } => "u"@,
        OpV::NoOp { .. } => "n"@,
        OpV::Delete { .. } => "d"@,
        OpV::Command { .. } => "c"@,
    }
}

/// An entry that is read is of the kind that its `op` field names, and
/// carries the document's `ts`, `h` and (where it has one) `ns` fields.
pub proof fn lemma_read_op_fields(d: DocV)
    ensures
        parse_op(d) matches Some(Ok(op)) ==> {
            &&& access_str(d, "op"@) == Ok::<Seq<char>, ValueAccessError>(op_code(op))
            &&& access_time_stamp(d, "ts"@) == Ok::<i64, ValueAccessError>(op_ts(op))
            &&& access_i64(d, "h"@) == Ok::<i64, ValueAccessError>(op_h(op))
            &&& (op_ns(op) matches Some(ns) ==> access_str(d, "ns"@) == Ok::<Seq<char>, ValueAccessError>(ns))
        },
{
}

/// An entry whose `op` field is missing or not a string is malformed, with
/// the reason that reading the field gave.
pub proof fn lemma_read_op_without_name(d: DocV)
    requires
        access_str(d, "op"@) is Err,
    ensures
        parse_op(d) == Some(Err::<OpV, ErrorV>(malformed(access_str(d, "op"@)->Err_0))),
{
}

/// An entry whose `op` field is a string other than `u`, `i`, `n`, `d` and
/// `c` is refused as an unknown operation of that name.
pub proof fn lemma_read_unknown_op(d: DocV, name: Seq<char>)
    requires
        access_str(d, "op"@) == Ok::<Seq<char>, ValueAccessError>(name),
        name != "u"@,
        name != "i"@,
        name != "n"@,
        name != "d"@,
        name != "c"@,
    ensures
        parse_op(d) == Some(Err::<OpV, ErrorV>(ErrorV::UnknownOpType(name))),
{
}

/// Reading stops without an outcome only on a command entry that has an
/// `o` field (its own, or that of a command in its `applyOps`).
pub proof fn lemma_read_stops_only_on_commands(d: DocV)
    ensures
        parse_op(d) is None ==> {
            &&& access_str(d, "op"@) == Ok::<Seq<char>, ValueAccessError>("c"@)
            &&& common_fields(d) is Ok
            &&& lookup(d, "o"@) is Some
        },
{
}

/// The operations read from an array are read from its elements, one for
/// each, in order.
pub proof fn lemma_read_ops_elements(a: Seq<BsonV>)
    ensures
        parse_ops(a) matches Some(Ok(ops)) ==> {
            &&& ops.len() == a.len()
            &&& forall|i: int| 0 <= i < a.len() ==> #[trigger] parse_bson(a[i]) == Some(Ok::<OpV, ErrorV>(ops[i]))
        },
    decreases a.len(),
{
    if a.len() > 0 {
        let p = a.subrange(0, a.len() - 1);
        lemma_read_ops_elements(p);
        if let Some(Ok(ops)) = parse_ops(a) {
            if let Some(Ok(prev)) = parse_ops(p) {
                assert forall|i: int| 0 <= i < a.len() implies #[trigger] parse_bson(a[i]) == Some(Ok::<OpV, ErrorV>(ops[i])) by {
                    if i < a.len() - 1 {
                        assert(a[i] == p[i]);
                    }
                }
            }
        }
    }
}

/// The `apply_ops` of a command that is read are the entries read from the
/// elements of its `o.applyOps` array, one for each, in order.
pub proof fn lemma_read_apply_ops(d: DocV)
    ensures
        parse_op(d) matches Some(Ok(OpV::Command { apply_ops: Some(ops), .. })) ==> {
            &&& lookup(d, "o"@) matches Some(BsonV::Document(o))
            &&& lookup(o, "applyOps"@) matches Some(BsonV::Array(a))
            &&& ops.len() == a.len()
            &&& forall|i: int| 0 <= i < a.len() ==> #[trigger] parse_bson(a[i]) == Some(Ok::<OpV, ErrorV>(ops[i]))
        },
{
    if let Some(BsonV::Document(o)) = lookup(d, "o"@) {
        if let Some(BsonV::Array(a)) = lookup(o, "applyOps"@) {
            lemma_read_ops_elements(a);
        }
    }
}

/// An element of an `applyOps` array that is a document is read exactly as
/// a whole entry is read.
pub proof fn lemma_read_element_as_entry(d: DocV)
    ensures
        parse_bson(BsonV::Document(d)) == parse_op(d),
{
}

/// The `ts`, `h` and `ns` fields are read as a timestamp, a 64-bit integer
/// and a string; a field that is missing or of another kind makes the entry
/// malformed, with the first such field, in that order, naming the reason.
pub proof fn lemma_common_fields(d: DocV, ts: i64, h: i64, ns: Seq<char>)
    ensures
        (common_fields(d) == Ok::<(i64, i64, Seq<char>), ErrorV>((ts, h, ns))) <==> (
            access_time_stamp(d, "ts"@) == Ok::<i64, ValueAccessError>(ts)
            && access_i64(d, "h"@) == Ok::<i64, ValueAccessError>(h)
            && access_str(d, "ns"@) == Ok::<Seq<char>, ValueAccessError>(ns)),
        (access_time_stamp(d, "ts"@) is Ok && (lookup(d, "h"@) matches Some(BsonV::I32(_))))
            ==> common_fields(d) == Err::<(i64, i64, Seq<char>), ErrorV>(malformed(ValueAccessError::UnexpectedType)),
{
}


proof fn lemma_op_letters_distinct()
    ensures
        "u"@ != "i"@,
        "u"@ != "n"@,
        "u"@ != "d"@,
        "u"@ != "c"@,
        "i"@ != "n"@,
        "i"@ != "d"@,
        "i"@ != "c"@,
        "n"@ != "d"@,
        "n"@ != "c"@,
        "d"@ != "c"@,
{
    reveal_strlit("u");
    reveal_strlit("i");
    reveal_strlit("n");
    reveal_strlit("d");
    reveal_strlit("c");
    assert("u"@[0] != "i"@[0]);
    assert("u"@[0] != "n"@[0]);
    assert("u"@[0] != "d"@[0]);
    assert("u"@[0] != "c"@[0]);
    assert("i"@[0] != "n"@[0]);
    assert("i"@[0] != "d"@[0]);
    assert("i"@[0] != "c"@[0]);
    assert("n"@[0] != "d"@[0]);
    assert("n"@[0] != "c"@[0]);
    assert("d"@[0] != "c"@[0]);
}

/// Everything an entry that is read carries was stored in its document,
/// unchanged: the `op` letter, `ts`, `h` and `ns` as they are stored, an
/// insert's `o`, an update's `o` and `o2`, a delete's `o._id`, and a
/// command's `o` (or its absence).
pub proof fn lemma_read_op_keeps_stored_values(d: DocV)
    ensures
        parse_op(d) matches Some(Ok(op)) ==> {
            &&& lookup(d, "op"@) == Some(BsonV::String(op_code(op)))
            &&& lookup(d, "ts"@) == Some(BsonV::TimeStamp(op_ts(op)))
            &&& lookup(d, "h"@) == Some(BsonV::I64(op_h(op)))
            &&& (op_ns(op) matches Some(ns) ==> lookup(d, "ns"@) == Some(BsonV::String(ns)))
            &&& (op matches OpV::Insert { o, .. } ==> lookup(d, "o"@) == Some(BsonV::Document(o)))
            &&& (op matches OpV::Update { o, o2, .. } ==> (lookup(d, "o"@) == Some(BsonV::Document(o))
                && lookup(d, "o2"@) == Some(BsonV::Document(o2))))
            &&& (op matches OpV::Delete { _id, .. } ==> (lookup(d, "o"@) matches Some(BsonV::Document(o))
                && lookup(o, "_id"@) == Some(BsonV::ObjectId(_id))))
            &&& (op matches OpV::Command { o: Some(c), .. } ==> (lookup(d, "o"@) == Some(BsonV::Document(c))
                && lookup(c, "applyOps"@) is None))
            &&& (op matches OpV::Command { o: None, apply_ops: None, .. } ==> lookup(d, "o"@) is None)
        },
{
    lemma_op_letters_distinct();
}

/// An entry with `op` "i", a timestamp `ts`, an `h`, an `ns` and an `o`
/// document is read as the insert of exactly that document.
pub proof fn lemma_read_insert(d: DocV, ts: i64, h: i64, ns: Seq<char>, o: DocV)
    requires
        lookup(d, "op"@) == Some(BsonV::String("i"@)),
        lookup(d, "ts"@) == Some(BsonV::TimeStamp(ts)),
        lookup(d, "h"@) == Some(BsonV::I64(h)),
        lookup(d, "ns"@) == Some(BsonV::String(ns)),
        lookup(d, "o"@) == Some(BsonV::Document(o)),
    ensures
        parse_op(d) == Some(Ok::<OpV, ErrorV>(OpV::Insert { ts, h, ns, o })),
{
    lemma_op_letters_distinct();
}

/// An entry with `op` "u", a timestamp `ts`, an `h`, an `ns`, and `o` and
/// `o2` documents is read as the update carrying exactly those documents.
pub proof fn lemma_read_update(d: DocV, ts: i64, h: i64, ns: Seq<char>, o: DocV, o2: DocV)
    requires
        lookup(d, "op"@) == Some(BsonV::String("u"@)),
        lookup(d, "ts"@) == Some(BsonV::TimeStamp(ts)),
        lookup(d, "h"@) == Some(BsonV::I64(h)),
        lookup(d, "ns"@) == Some(BsonV::String(ns)),
        lookup(d, "o"@) == Some(BsonV::Document(o)),
        lookup(d, "o2"@) == Some(BsonV::Document(o2)),
    ensures
        parse_op(d) == Some(Ok::<OpV, ErrorV>(OpV::Update { ts, h, ns, o, o2 })),
{
    lemma_op_letters_distinct();
}

/// An entry with `op` "n", a timestamp `ts` and an `h` is read as the no-op
/// with exactly those values, whatever else it holds.
pub proof fn lemma_read_noop(d: DocV, ts: i64, h: i64)
    requires
        lookup(d, "op"@) == Some(BsonV::String("n"@)),
        lookup(d, "ts"@) == Some(BsonV::TimeStamp(ts)),
        lookup(d, "h"@) == Some(BsonV::I64(h)),
    ensures
        parse_op(d) == Some(Ok::<OpV, ErrorV>(OpV::NoOp { ts, h })),
{
    lemma_op_letters_distinct();
}

/// An entry with `op` "d", a timestamp `ts`, an `h`, an `ns` and an `o`
/// document whose `_id` is an object id is read as the delete of that id,
/// whatever other fields `o` holds.
pub proof fn lemma_read_delete(d: DocV, ts: i64, h: i64, ns: Seq<char>, o: DocV, id: ObjectId)
    requires
        lookup(d, "op"@) == Some(BsonV::String("d"@)),
        lookup(d, "ts"@) == Some(BsonV::TimeStamp(ts)),
        lookup(d, "h"@) == Some(BsonV::I64(h)),
        lookup(d, "ns"@) == Some(BsonV::String(ns)),
        lookup(d, "o"@) == Some(BsonV::Document(o)),
        lookup(o, "_id"@) == Some(BsonV::ObjectId(id)),
    ensures
        parse_op(d) == Some(Ok::<OpV, ErrorV>(OpV::Delete { ts, h, ns, _id: id })),
{
    lemma_op_letters_distinct();
}

/// A command entry (`op` "c" with a timestamp `ts`, an `h` and an `ns`) is
/// read as a command with exactly those values: without an `o` field it
/// carries no document, and with an `o` document that has no `applyOps`
/// entry it carries that document unchanged.
pub proof fn lemma_read_command(d: DocV, ts: i64, h: i64, ns: Seq<char>, o: DocV)
    requires
        lookup(d, "op"@) == Some(BsonV::String("c"@)),
        lookup(d, "ts"@) == Some(BsonV::TimeStamp(ts)),
        lookup(d, "h"@) == Some(BsonV::I64(h)),
        lookup(d, "ns"@) == Some(BsonV::String(ns)),
    ensures
        lookup(d, "o"@) is None ==> parse_op(d) == Some(
            Ok::<OpV, ErrorV>(OpV::Command { ts, h, ns, o: None, apply_ops: None }),
        ),
        (lookup(d, "o"@) == Some(BsonV::Document(o)) && lookup(o, "applyOps"@) is None)
            ==> parse_op(d) == Some(Ok::<OpV, ErrorV>(OpV::Command { ts, h, ns, o: Some(o), apply_ops: None })),
{
    lemma_op_letters_distinct();
}

/// An array whose every element reads as an entry reads as those entries,
/// in order.
proof fn lemma_read_ops_from_elements(a: Seq<BsonV>, ops: Seq<OpV>)
    requires
        ops.len() == a.len(),
        forall|i: int| 0 <= i < a.len() ==> #[trigger] parse_bson(a[i]) == Some(Ok::<OpV, ErrorV>(ops[i])),
    ensures
        parse_ops(a) == Some(Ok::<Seq<OpV>, ErrorV>(ops)),
    decreases a.len(),
{
    if a.len() > 0 {
        let p = a.subrange(0, a.len() - 1);
        let q = ops.subrange(0, ops.len() - 1);
        assert forall|i: int| 0 <= i < p.len() implies #[trigger] parse_bson(p[i]) == Some(Ok::<OpV, ErrorV>(q[i])) by {
            assert(p[i] == a[i] && q[i] == ops[i]);
        }
        lemma_read_ops_from_elements(p, q);
        assert(parse_bson(a[a.len() - 1]) == Some(Ok::<OpV, ErrorV>(ops[ops.len() - 1])));
        assert(q.push(ops[ops.len() - 1]) =~= ops);
    } else {
        assert(ops =~= Seq::<OpV>::empty());
    }
}

/// A command entry whose `o` document holds an `applyOps` array, every
/// element of which reads as an entry, is read as a command carrying those
/// entries, in order, and no document.
pub proof fn lemma_read_command_apply_ops(
    d: DocV,
    ts: i64,
    h: i64,
    ns: Seq<char>,
    o: DocV,
    a: Seq<BsonV>,
    ops: Seq<OpV>,
)
    requires
        lookup(d, "op"@) == Some(BsonV::String("c"@)),
        lookup(d, "ts"@) == Some(BsonV::TimeStamp(ts)),
        lookup(d, "h"@) == Some(BsonV::I64(h)),
        lookup(d, "ns"@) == Some(BsonV::String(ns)),
        lookup(d, "o"@) == Some(BsonV::Document(o)),
        lookup(o, "applyOps"@) == Some(BsonV::Array(a)),
        ops.len() == a.len(),
        forall|i: int| 0 <= i < a.len() ==> #[trigger] parse_bson(a[i]) == Some(Ok::<OpV, ErrorV>(ops[i])),
    ensures
        parse_op(d) == Some(Ok::<OpV, ErrorV>(OpV::Command { ts, h, ns, o: None, apply_ops: Some(ops) })),
{
    lemma_op_letters_distinct();
    lemma_read_ops_from_elements(a, ops);
}

} // verus!
