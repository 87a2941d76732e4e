//! Transformations applied to oplog operations.
use vstd::prelude::*;
use crate::op::{op_h, op_ns, op_ts, Op, OpV};

verus! {

#[verifier::external_type_specification]
#[verifier::external_body]
pub struct ExRegex(regex::Regex);

/// Whether the compiled regular expression `re` matches somewhere in
/// `haystack` (`regex::Regex::is_match`).
pub uninterp spec fn regex_matches(re: regex::Regex, haystack: Seq<char>) -> bool;

/// Runs `regex::Regex::is_match` of `re` on `haystack`.
#[verifier::external_body]
fn regex_is_match_on(re: &regex::Regex, haystack: &str) -> (r: bool)
    ensures
        r == regex_matches(*re, haystack@),
{
    re.is_match(haystack)
}

/// A transformation of oplog operations.
pub trait OpTransform {
    fn transform(&self, op: Op) -> Op;
}

/// Keeps the operations whose namespace the allowed pattern matches and turns
/// every other operation into a no-op with the same `ts` and `h`.
pub struct NsFilterTransform {
    allowed_pattern: regex::Regex,
}

/// What the namespace filter with the regular expression `re` makes of `op`.
pub open spec fn ns_filter(re: regex::Regex, op: OpV) -> OpV {
    match op_ns(op) {
        Some(ns) => if regex_matches(re, ns) {
            op
        } else {
            OpV::NoOp { ts: op_ts(op), h: op_h(op) }
        },
        None => OpV::NoOp { ts: op_ts(op), h: op_h(op) },
    }
}

impl NsFilterTransform {
    /// The regular expression that namespaces are matched against.
    pub closed spec fn allowed_pattern(&self) -> regex::Regex {
        self.allowed_pattern
    }

    /// A filter that keeps the operations whose namespace `patten` matches.
    pub fn new(patten: regex::Regex) -> (r: NsFilterTransform)
        ensures
            r.allowed_pattern() == patten,
    {
        NsFilterTransform { allowed_pattern: patten }
    }
}

impl OpTransform for NsFilterTransform {
    fn transform(&self, op: Op) -> (r: Op)
        ensures
            r@ == ns_filter(self.allowed_pattern(), op@),
    {
        let is_match = match op.get_ns() {
            Some(ns) => regex_is_match_on(&self.allowed_pattern, ns.as_str()),
            None => false,
        };
        if is_match {
            return op;
        }
        Op::NoOp { ts: *op.get_ts(), h: *op.get_h() }
    }
}

/// Filtering twice by one regular expression is filtering once.
pub proof fn lemma_ns_filter_idempotent(re: regex::Regex, op: OpV)
    ensures
        ns_filter(re, ns_filter(re, op)) == ns_filter(re, op),
{
}

/// Filtering keeps the timestamp and the id of every operation.
pub proof fn lemma_ns_filter_keeps_ts_h(re: regex::Regex, op: OpV)
    ensures
        op_ts(ns_filter(re, op)) == op_ts(op),
        op_h(ns_filter(re, op)) == op_h(op),
{
}

/// An operation is kept exactly when it is a no-op or has a namespace that
/// the regular expression matches; otherwise it becomes a no-op.
pub proof fn lemma_ns_filter_keeps_iff_match(re: regex::Regex, op: OpV)
    ensures
        (ns_filter(re, op) == op) <==> (op is NoOp || (op_ns(op) matches Some(ns) && regex_matches(re, ns))),
        ns_filter(re, op) != op ==> ns_filter(re, op) is NoOp,
{
}

} // verus!
