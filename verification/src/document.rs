//! A model of BSON values and ordered BSON documents.
//!
//! A `Document` keeps its entries in insertion order, as the ordered
//! documents of the `bson` crate do; looking a key up finds its first entry.
//! The reader of oplog entries works on this model, whose values can be
//! stated and reasoned about; the documents that the mongo driver hands out
//! are converted into it where they are received.
use vstd::prelude::*;
use crate::float_bits::FloatBits;

verus! {

broadcast use {vstd::std_specs::vec::group_vec_axioms, vstd::seq::group_seq_axioms};

/// A 12-byte MongoDB object id.
#[derive(Clone, Copy, PartialEq, Eq, Debug)]
pub struct ObjectId {
    id: [u8; 12],
}

/// One BSON value. A floating point number is held by its IEEE-754 bit
/// pattern (and compares as a floating point number), a UTC date-time by its milliseconds since the epoch, and binary
/// data by its subtype byte and its bytes.
#[derive(Debug, PartialEq)]
pub enum Bson {
    FloatingPoint(FloatBits),
    String(String),
    Array(Vec<Bson>),
    Document(Document),
    Boolean(bool),
    Null,
    RegExp(String, String),
    JavaScriptCode(String),
    JavaScriptCodeWithScope(String, Document),
    I32(i32),
    I64(i64),
    TimeStamp(i64),
    Binary(u8, Vec<u8>),
    ObjectId(ObjectId),
    UtcDatetime(i64),
    Symbol(String),
}

/// An ordered BSON document: a sequence of (key, value) entries.
#[derive(Debug, PartialEq)]
pub struct Document {
    entries: Vec<(String, Bson)>,
}

/// The mathematical value of a `Document`: its entries in order.
pub type DocV = Seq<(Seq<char>, BsonV)>;

/// The mathematical value of a `Bson`.
pub enum BsonV {
    FloatingPoint(u64),
    String(Seq<char>),
    Array(Seq<BsonV>),
    Document(Seq<(Seq<char>, BsonV)>),
    Boolean(bool),
    Null,
    RegExp(Seq<char>, Seq<char>),
    JavaScriptCode(Seq<char>),
    JavaScriptCodeWithScope(Seq<char>, Seq<(Seq<char>, BsonV)>),
    I32(i32),
    I64(i64),
    TimeStamp(i64),
    Binary(u8, Seq<u8>),
    ObjectId(ObjectId),
    UtcDatetime(i64),
    Symbol(Seq<char>),
}

pub open spec fn bson_view(b: Bson) -> BsonV
    decreases b,
{
    match b {
        Bson::FloatingPoint(x) => BsonV::FloatingPoint(x.0),
        Bson::String(s) => BsonV::String(s@),
        Bson::Array(v) => BsonV::Array(array_view(v@)),
        Bson::Document(d) => BsonV::Document(doc_view(d)),
        Bson::Boolean(x) => BsonV::Boolean(x),
        Bson::Null => BsonV::Null,
        Bson::RegExp(p, o) => BsonV::RegExp(p@, o@),
        Bson::JavaScriptCode(c) => BsonV::JavaScriptCode(c@),
        Bson::JavaScriptCodeWithScope(c, d) => BsonV::JavaScriptCodeWithScope(c@, doc_view(d)),
        Bson::I32(x) => BsonV::I32(x),
        Bson::I64(x) => BsonV::I64(x),
        Bson::TimeStamp(x) => BsonV::TimeStamp(x),
        Bson::Binary(t, bytes) => BsonV::Binary(t, bytes@),
        Bson::ObjectId(x) => BsonV::ObjectId(x),
        Bson::UtcDatetime(x) => BsonV::UtcDatetime(x),
        Bson::Symbol(s) => BsonV::Symbol(s@),
    }
}

pub open spec fn array_view(s: Seq<Bson>) -> Seq<BsonV>
    decreases s,
{
    if s.len() == 0 {
        Seq::empty()
    } else {
        array_view(s.subrange(0, s.len() - 1)).push(bson_view(s[s.len() - 1]))
    }
}

pub open spec fn entries_view(s: Seq<(String, Bson)>) -> DocV
    decreases s,
{
    if s.len() == 0 {
        Seq::empty()
    } else {
        entries_view(s.subrange(0, s.len() - 1)).push(
            (s[s.len() - 1].0@, bson_view(s[s.len() - 1].1)),
        )
    }
}

pub closed spec fn doc_view(d: Document) -> DocV
    decreases d,
{
    entries_view(d.entries@)
}


impl View for Bson {
    type V = BsonV;

    open spec fn view(&self) -> BsonV {
        bson_view(*self)
    }
}

impl View for Document {
    type V = DocV;

    open spec fn view(&self) -> DocV {
        doc_view(*self)
    }
}

pub proof fn lemma_array_view(s: Seq<Bson>)
    ensures
        array_view(s).len() == s.len(),
        forall|i: int| 0 <= i < s.len() ==> #[trigger] array_view(s)[i] == bson_view(s[i]),
    decreases s.len(),
{
    if s.len() > 0 {
        lemma_array_view(s.subrange(0, s.len() - 1));
    }
}

pub proof fn lemma_entries_view(s: Seq<(String, Bson)>)
    ensures
        entries_view(s).len() == s.len(),
        forall|i: int|
            0 <= i < s.len() ==> #[trigger] entries_view(s)[i] == (s[i].0@, bson_view(s[i].1)),
    decreases s.len(),
{
    if s.len() > 0 {
        lemma_entries_view(s.subrange(0, s.len() - 1));
    }
}

/// The value of the first entry of `d` whose key is `k`.
pub open spec fn lookup(d: DocV, k: Seq<char>) -> Option<BsonV>
    decreases d.len(),
{
    if d.len() == 0 {
        None
    } else if d[0].0 == k {
        Some(d[0].1)
    } else {
        lookup(d.drop_first(), k)
    }
}

/// Why a typed read of a document entry failed.
#[derive(Debug, Clone, Copy, PartialEq, Eq)]
pub enum ValueAccessError {
    /// No entry has the key.
    NotPresent,
    /// The entry with the key holds a value of another kind.
    UnexpectedType,
}

/// `d` with the first entry whose key is `k` taken out (unchanged when there is none).
pub open spec fn remove_key(d: DocV, k: Seq<char>) -> DocV
    decreases d.len(),
{
    if d.len() == 0 {
        d
    } else if d[0].0 == k {
        d.drop_first()
    } else {
        seq![d[0]] + remove_key(d.drop_first(), k)
    }
}

/// What inserting `(k, v)` makes of `d`: an entry with the same key is taken
/// out, and the new entry goes last.
pub open spec fn insert_entry(d: DocV, k: Seq<char>, v: BsonV) -> DocV {
    remove_key(d, k).push((k, v))
}

/// No two entries of `d` share a key.
pub open spec fn keys_unique(d: DocV) -> bool {
    forall|i: int, j: int| 0 <= i < j < d.len() ==> #[trigger] d[i].0 != #[trigger] d[j].0
}

pub open spec fn access_time_stamp(d: DocV, k: Seq<char>) -> Result<i64, ValueAccessError> {
    match lookup(d, k) {
        Some(BsonV::TimeStamp(v)) => Ok(v),
        Some(_) => Err(ValueAccessError::UnexpectedType),
        None => Err(ValueAccessError::NotPresent),
    }
}

pub open spec fn access_i64(d: DocV, k: Seq<char>) -> Result<i64, ValueAccessError> {
    match lookup(d, k) {
        Some(BsonV::I64(v)) => Ok(v),
        Some(_) => Err(ValueAccessError::UnexpectedType),
        None => Err(ValueAccessError::NotPresent),
    }
}

pub open spec fn access_str(d: DocV, k: Seq<char>) -> Result<Seq<char>, ValueAccessError> {
    match lookup(d, k) {
        Some(BsonV::String(v)) => Ok(v),
        Some(_) => Err(ValueAccessError::UnexpectedType),
        None => Err(ValueAccessError::NotPresent),
    }
}

pub open spec fn access_document(d: DocV, k: Seq<char>) -> Result<DocV, ValueAccessError> {
    match lookup(d, k) {
        Some(BsonV::Document(v)) => Ok(v),
        Some(_) => Err(ValueAccessError::UnexpectedType),
        None => Err(ValueAccessError::NotPresent),
    }
}

pub open spec fn access_array(d: DocV, k: Seq<char>) -> Result<Seq<BsonV>, ValueAccessError> {
    match lookup(d, k) {
        Some(BsonV::Array(v)) => Ok(v),
        Some(_) => Err(ValueAccessError::UnexpectedType),
        None => Err(ValueAccessError::NotPresent),
    }
}

pub open spec fn access_object_id(d: DocV, k: Seq<char>) -> Result<ObjectId, ValueAccessError> {
    match lookup(d, k) {
        Some(BsonV::ObjectId(v)) => Ok(v),
        Some(_) => Err(ValueAccessError::UnexpectedType),
        None => Err(ValueAccessError::NotPresent),
    }
}

proof fn lemma_first_key(d: DocV, k: Seq<char>, i: int)
    requires
        0 <= i < d.len(),
        d[i].0 == k,
        forall|j: int| 0 <= j < i ==> #[trigger] d[j].0 != k,
    ensures
        lookup(d, k) == Some(d[i].1),
        remove_key(d, k) == d.remove(i),
    decreases i,
{
    if i > 0 {
        let t = d.drop_first();
        assert forall|j: int| 0 <= j < i - 1 implies #[trigger] t[j].0 != k by {
            assert(t[j] == d[j + 1]);
        }
        lemma_first_key(t, k, i - 1);
        assert(d[0].0 != k);
        assert(remove_key(d, k) =~= d.remove(i));
    } else {
        assert(d.drop_first() =~= d.remove(0));
    }
}

proof fn lemma_absent_key(d: DocV, k: Seq<char>)
    requires
        forall|j: int| 0 <= j < d.len() ==> #[trigger] d[j].0 != k,
    ensures
        lookup(d, k) is None,
        remove_key(d, k) == d,
    decreases d.len(),
{
    if d.len() > 0 {
        let t = d.drop_first();
        assert forall|j: int| 0 <= j < t.len() implies #[trigger] t[j].0 != k by {
            assert(t[j] == d[j + 1]);
        }
        lemma_absent_key(t, k);
        assert(d[0].0 != k);
        assert(remove_key(d, k) =~= d);
    }
}

impl ObjectId {
    /// The twelve bytes of the id.
    pub closed spec fn spec_bytes(&self) -> [u8; 12] {
        self.id
    }

    /// Makes an id from its twelve bytes.
    pub fn with_bytes(bytes: [u8; 12]) -> (r: ObjectId)
        ensures
            r.spec_bytes() == bytes,
    {
        ObjectId { id: bytes }
    }

    /// The twelve bytes of the id.
    pub fn bytes(&self) -> (r: [u8; 12])
        ensures
            r == self.spec_bytes(),
    {
        self.id
    }
}

impl Document {
    /// An empty document.
    pub fn new() -> (r: Document)
        ensures
            r@ == Seq::<(Seq<char>, BsonV)>::empty(),
            keys_unique(r@),
    {
        let r = Document { entries: Vec::new() };
        proof {
            lemma_entries_view(r.entries@);
            assert(r@ =~= Seq::<(Seq<char>, BsonV)>::empty());
        }
        r
    }

    /// The number of entries.
    pub fn len(&self) -> (r: usize)
        ensures
            r == self@.len(),
    {
        proof {
            lemma_entries_view(self.entries@);
        }
        self.entries.len()
    }

    /// The index of the first entry whose key is `key`.
    fn find(&self, key: &str) -> (r: Option<usize>)
        ensures
            self@ == entries_view(self.entries@),
            self@.len() == self.entries@.len(),
            match r {
                Some(i) => {
                    &&& i < self@.len()
                    &&& lookup(self@, key@) == Some(self@[i as int].1)
                    &&& remove_key(self@, key@) == self@.remove(i as int)
                    &&& self@[i as int].1 == bson_view(self.entries@[i as int].1)
                },
                None => lookup(self@, key@) is None && remove_key(self@, key@) == self@,
            },
    {
        let k = key.to_owned();
        let n = self.entries.len();
        let mut i: usize = 0;
        proof {
            lemma_entries_view(self.entries@);
        }
        while i < n
            invariant
                n == self.entries@.len(),
                n == self@.len(),
                i <= n,
                k@ == key@,
                self@ == entries_view(self.entries@),
                forall|j: int|
                    0 <= j < n ==> #[trigger] self@[j] == (
                        self.entries@[j].0@,
                        bson_view(self.entries@[j].1),
                    ),
                forall|j: int| 0 <= j < i ==> #[trigger] self@[j].0 != key@,
            decreases n - i,
        {
            if self.entries[i].0.eq(&k) {
                proof {
                    lemma_first_key(self@, key@, i as int);
                }
                return Some(i);
            }
            i += 1;
        }
        proof {
            lemma_absent_key(self@, key@);
        }
        None
    }

    /// Gets the value of the entry with key `key`.
    pub fn get(&self, key: &str) -> (r: Option<&Bson>)
        ensures
            match r {
                Some(b) => lookup(self@, key@) == Some(b@) && decreases_to!(*self => *b),
                None => lookup(self@, key@) is None,
            },
    {
        match self.find(key) {
            Some(i) => {
                assert(decreases_to!(*self => self.entries[i as int].1));
                Some(&self.entries[i].1)
            },
            None => None,
        }
    }

    /// Whether an entry has key `key`.
    pub fn contains_key(&self, key: &str) -> (r: bool)
        ensures
            r == lookup(self@, key@) is Some,
    {
        self.find(key).is_some()
    }

    /// Sets `key` to `val`. An entry that had the key is taken out and its
    /// value returned; the new entry goes last.
    pub fn insert(&mut self, key: String, val: Bson) -> (r: Option<Bson>)
        ensures
            final(self)@ == insert_entry(old(self)@, key@, val@),
            keys_unique(old(self)@) ==> keys_unique(final(self)@) && lookup(final(self)@, key@) == Some(val@),
            match r {
                Some(b) => lookup(old(self)@, key@) == Some(b@),
                None => lookup(old(self)@, key@) is None,
            },
    {
        let found = self.find(key.as_str());
        let ghost old_entries = self.entries@;
        let ghost old_view = self@;
        let r = match found {
            Some(i) => {
                let (_, old_val) = self.entries.remove(i);
                proof {
                    lemma_entries_view(old_entries);
                    lemma_entries_view(self.entries@);
                    assert(self@ == entries_view(self.entries@));
                    assert(self.entries@ == old_entries.remove(i as int));
                    assert(self@ =~= old_view.remove(i as int));
                }
                Some(old_val)
            },
            None => None,
        };
        let ghost mid = self@;
        let ghost mid_entries = self.entries@;
        proof {
            lemma_entries_view(mid_entries);
        }
        self.entries.push((key, val));
        proof {
            lemma_entries_view(self.entries@);
            assert(self@ == entries_view(self.entries@));
            assert(self.entries@ == mid_entries.push((key, val)));
            assert(self@ =~= mid.push((key@, val@)));
            if keys_unique(old_view) {
                lemma_insert_keeps_keys_unique(old_view, key@, val@);
                lemma_insert_then_lookup(old_view, key@, val@);
            }
        }
        r
    }

    /// Gets the time stamp at `key`.
    pub fn get_time_stamp(&self, key: &str) -> (r: Result<i64, ValueAccessError>)
        ensures
            r == access_time_stamp(self@, key@),
            lookup(self@, key@) matches Some(BsonV::TimeStamp(v)) ==> r == Ok::<i64, ValueAccessError>(v),
    {
        match self.get(key) {
            Some(Bson::TimeStamp(v)) => Ok(*v),
            Some(_) => Err(ValueAccessError::UnexpectedType),
            None => Err(ValueAccessError::NotPresent),
        }
    }

    /// Gets the 64-bit integer at `key`.
    pub fn get_i64(&self, key: &str) -> (r: Result<i64, ValueAccessError>)
        ensures
            r == access_i64(self@, key@),
            lookup(self@, key@) matches Some(BsonV::I64(v)) ==> r == Ok::<i64, ValueAccessError>(v),
    {
        match self.get(key) {
            Some(Bson::I64(v)) => Ok(*v),
            Some(_) => Err(ValueAccessError::UnexpectedType),
            None => Err(ValueAccessError::NotPresent),
        }
    }

    /// Gets the string at `key`.
    pub fn get_str(&self, key: &str) -> (r: Result<&str, ValueAccessError>)
        ensures
            match r {
                Ok(s) => access_str(self@, key@) == Ok::<Seq<char>, ValueAccessError>(s@)
                    && lookup(self@, key@) == Some(BsonV::String(s@)),
                Err(e) => access_str(self@, key@) == Err::<Seq<char>, ValueAccessError>(e),
            },
    {
        match self.get(key) {
            Some(Bson::String(v)) => Ok(v.as_str()),
            Some(_) => Err(ValueAccessError::UnexpectedType),
            None => Err(ValueAccessError::NotPresent),
        }
    }

    /// Gets the embedded document at `key`.
    pub fn get_document(&self, key: &str) -> (r: Result<&Document, ValueAccessError>)
        ensures
            match r {
                Ok(d) => access_document(self@, key@) == Ok::<DocV, ValueAccessError>(d@)
                    && lookup(self@, key@) == Some(BsonV::Document(d@))
                    && decreases_to!(*self => *d),
                Err(e) => access_document(self@, key@) == Err::<DocV, ValueAccessError>(e),
            },
    {
        match self.get(key) {
            Some(Bson::Document(v)) => Ok(v),
            Some(_) => Err(ValueAccessError::UnexpectedType),
            None => Err(ValueAccessError::NotPresent),
        }
    }

    /// Gets the array at `key`.
    pub fn get_array(&self, key: &str) -> (r: Result<&Vec<Bson>, ValueAccessError>)
        ensures
            match r {
                Ok(a) => access_array(self@, key@) == Ok::<Seq<BsonV>, ValueAccessError>(array_view(a@))
                    && lookup(self@, key@) == Some(BsonV::Array(array_view(a@)))
                    && decreases_to!(*self => *a),
                Err(e) => access_array(self@, key@) == Err::<Seq<BsonV>, ValueAccessError>(e),
            },
    {
        match self.get(key) {
            Some(Bson::Array(v)) => Ok(v),
            Some(_) => Err(ValueAccessError::UnexpectedType),
            None => Err(ValueAccessError::NotPresent),
        }
    }

    /// Gets the object id at `key`.
    pub fn get_object_id(&self, key: &str) -> (r: Result<&ObjectId, ValueAccessError>)
        ensures
            match r {
                Ok(o) => access_object_id(self@, key@) == Ok::<ObjectId, ValueAccessError>(*o)
                    && lookup(self@, key@) == Some(BsonV::ObjectId(*o)),
                Err(e) => access_object_id(self@, key@) == Err::<ObjectId, ValueAccessError>(e),
            },
    {
        match self.get(key) {
            Some(Bson::ObjectId(v)) => Ok(v),
            Some(_) => Err(ValueAccessError::UnexpectedType),
            None => Err(ValueAccessError::NotPresent),
        }
    }
}


impl Bson {
    /// A copy of the value, nested documents and arrays included.
    pub fn deep_clone(&self) -> (r: Bson)
        ensures
            r@ == self@,
        decreases self,
    {
        match self {
            Bson::FloatingPoint(x) => Bson::FloatingPoint(*x),
            Bson::String(s) => Bson::String(s.clone()),
            Bson::Array(v) => Bson::Array(clone_array(v)),
            Bson::Document(d) => Bson::Document(d.deep_clone()),
            Bson::Boolean(x) => Bson::Boolean(*x),
            Bson::Null => Bson::Null,
            Bson::RegExp(p, o) => Bson::RegExp(p.clone(), o.clone()),
            Bson::JavaScriptCode(c) => Bson::JavaScriptCode(c.clone()),
            Bson::JavaScriptCodeWithScope(c, d) => Bson::JavaScriptCodeWithScope(c.clone(), d.deep_clone()),
            Bson::I32(x) => Bson::I32(*x),
            Bson::I64(x) => Bson::I64(*x),
            Bson::TimeStamp(x) => Bson::TimeStamp(*x),
            Bson::Binary(t, bytes) => Bson::Binary(*t, bytes.clone()),
            Bson::ObjectId(x) => Bson::ObjectId(*x),
            Bson::UtcDatetime(x) => Bson::UtcDatetime(*x),
            Bson::Symbol(s) => Bson::Symbol(s.clone()),
        }
    }
}

/// A copy of an array of values.
fn clone_array(v: &Vec<Bson>) -> (r: Vec<Bson>)
    ensures
        array_view(r@) == array_view(v@),
    decreases v,
{
    let mut r: Vec<Bson> = Vec::new();
    let n = v.len();
    let mut i: usize = 0;
    proof {
        lemma_array_view(v@);
    }
    while i < n
        invariant
            n == v@.len(),
            i <= n,
            r@.len() == i,
            forall|j: int| 0 <= j < i ==> #[trigger] bson_view(r@[j]) == bson_view(v@[j]),
        decreases n - i,
    {
        assert(decreases_to!(*v => v[i as int]));
        let c = v[i].deep_clone();
        r.push(c);
        i += 1;
    }
    proof {
        lemma_array_view(r@);
        lemma_array_view(v@);
        assert(array_view(r@) =~= array_view(v@));
    }
    r
}

impl Document {
    /// A copy of the document, nested values included.
    pub fn deep_clone(&self) -> (r: Document)
        ensures
            r@ == self@,
        decreases self,
    {
        let mut entries: Vec<(String, Bson)> = Vec::new();
        let n = self.entries.len();
        let mut i: usize = 0;
        proof {
            lemma_entries_view(self.entries@);
        }
        while i < n
            invariant
                n == self.entries@.len(),
                i <= n,
                entries@.len() == i,
                forall|j: int|
                    0 <= j < i ==> #[trigger] entries@[j].0@ == self.entries@[j].0@
                        && bson_view(entries@[j].1) == bson_view(self.entries@[j].1),
            decreases n - i,
        {
            assert(decreases_to!(*self => self.entries[i as int].1));
            let k = self.entries[i].0.clone();
            let v = self.entries[i].1.deep_clone();
            entries.push((k, v));
            i += 1;
        }
        let r = Document { entries };
        proof {
            lemma_entries_view(r.entries@);
            lemma_entries_view(self.entries@);
            assert(r@ =~= self@);
        }
        r
    }
}

impl Clone for Bson {
    fn clone(&self) -> (r: Bson)
        ensures
            r@ == self@,
    {
        self.deep_clone()
    }
}

impl Clone for Document {
    fn clone(&self) -> (r: Document)
        ensures
            r@ == self@,
    {
        self.deep_clone()
    }
}


/// A value found in a document lies inside it.
pub proof fn lemma_lookup_decreases(d: DocV, k: Seq<char>)
    ensures
        lookup(d, k) matches Some(v) ==> decreases_to!(d => v),
    decreases d.len(),
{
    if d.len() > 0 {
        if d[0].0 == k {
            assert(decreases_to!(d => d[0]));
        } else {
            lemma_lookup_decreases(d.drop_first(), k);
            assert(decreases_to!(d => d.drop_first()));
        }
    }
}


/// `i` is the index of the first entry of `d` with key `k`.
pub open spec fn is_first_key(d: DocV, k: Seq<char>, i: int) -> bool {
    &&& 0 <= i < d.len()
    &&& d[i].0 == k
    &&& forall|j: int| 0 <= j < i ==> #[trigger] d[j].0 != k
}

proof fn lemma_lookup_cases(d: DocV, k: Seq<char>)
    ensures
        lookup(d, k) is None ==> forall|j: int| 0 <= j < d.len() ==> #[trigger] d[j].0 != k,
        lookup(d, k) is Some ==> exists|i: int| is_first_key(d, k, i),
    decreases d.len(),
{
    if d.len() > 0 {
        let t = d.drop_first();
        lemma_lookup_cases(t, k);
        if d[0].0 == k {
            assert(is_first_key(d, k, 0));
        } else if lookup(t, k) is Some {
            let i = choose|i: int| is_first_key(t, k, i);
            assert forall|j: int| 0 <= j < i + 1 implies #[trigger] d[j].0 != k by {
                if j > 0 {
                    assert(d[j] == t[j - 1]);
                }
            }
            assert(d[i + 1] == t[i]);
            assert(is_first_key(d, k, i + 1));
        } else {
            assert forall|j: int| 0 <= j < d.len() implies #[trigger] d[j].0 != k by {
                if j > 0 {
                    assert(d[j] == t[j - 1]);
                }
            }
        }
    }
}

/// Reading a key back after inserting it gives the inserted value.
pub proof fn lemma_insert_then_lookup(d: DocV, k: Seq<char>, v: BsonV)
    requires
        keys_unique(d),
    ensures
        lookup(insert_entry(d, k, v), k) == Some(v),
{
    lemma_lookup_cases(d, k);
    let r = remove_key(d, k);
    if lookup(d, k) is Some {
        let i = choose|i: int| is_first_key(d, k, i);
        lemma_first_key(d, k, i);
        assert forall|j: int| 0 <= j < r.len() implies #[trigger] r[j].0 != k by {
            if j < i {
                assert(r[j] == d[j]);
            } else {
                assert(r[j] == d[j + 1]);
            }
        }
    } else {
        lemma_absent_key(d, k);
    }
    let n = r.push((k, v));
    assert forall|j: int| 0 <= j < r.len() implies #[trigger] n[j].0 != k by {
        assert(n[j] == r[j]);
    }
    lemma_first_key(n, k, r.len() as int);
}

/// Inserting a key leaves what every other key reads unchanged.
pub proof fn lemma_insert_keeps_other_keys(d: DocV, k: Seq<char>, v: BsonV, other: Seq<char>)
    requires
        other != k,
    ensures
        lookup(insert_entry(d, k, v), other) == lookup(d, other),
{
    lemma_lookup_cases(d, k);
    lemma_lookup_cases(d, other);
    let r = remove_key(d, k);
    let n = r.push((k, v));
    if lookup(d, k) is Some {
        let i = choose|i: int| is_first_key(d, k, i);
        lemma_first_key(d, k, i);
        if lookup(d, other) is Some {
            let m = choose|m: int| is_first_key(d, other, m);
            lemma_first_key(d, other, m);
            let mm = if m < i { m } else { m - 1 };
            assert(m != i);
            assert forall|j: int| 0 <= j < mm implies #[trigger] n[j].0 != other by {
                if j < i {
                    assert(n[j] == d[j]);
                } else {
                    assert(n[j] == d[j + 1]);
                }
            }
            assert(n[mm] == d[m]);
            lemma_first_key(n, other, mm);
        } else {
            assert forall|j: int| 0 <= j < n.len() implies #[trigger] n[j].0 != other by {
                if j == r.len() {
                } else if j < i {
                    assert(n[j] == d[j]);
                } else {
                    assert(n[j] == d[j + 1]);
                }
            }
            lemma_absent_key(n, other);
        }
    } else {
        lemma_absent_key(d, k);
        if lookup(d, other) is Some {
            let m = choose|m: int| is_first_key(d, other, m);
            lemma_first_key(d, other, m);
            assert forall|j: int| 0 <= j < m implies #[trigger] n[j].0 != other by {
                assert(n[j] == d[j]);
            }
            assert(n[m] == d[m]);
            lemma_first_key(n, other, m);
        } else {
            assert forall|j: int| 0 <= j < n.len() implies #[trigger] n[j].0 != other by {
                if j < d.len() {
                    assert(n[j] == d[j]);
                }
            }
            lemma_absent_key(n, other);
        }
    }
}

/// Inserting keeps the keys of a document distinct; the document grows by
/// one entry exactly when the key was not there.
pub proof fn lemma_insert_keeps_keys_unique(d: DocV, k: Seq<char>, v: BsonV)
    requires
        keys_unique(d),
    ensures
        keys_unique(insert_entry(d, k, v)),
        insert_entry(d, k, v).len() == if lookup(d, k) is Some { d.len() } else { d.len() + 1 },
{
    lemma_lookup_cases(d, k);
    let r = remove_key(d, k);
    let n = r.push((k, v));
    if lookup(d, k) is Some {
        let i = choose|i: int| is_first_key(d, k, i);
        lemma_first_key(d, k, i);
        assert forall|a: int, b: int| 0 <= a < b < n.len() implies #[trigger] n[a].0 != #[trigger] n[b].0 by {
            let da = if a < i { a } else { a + 1 };
            assert(n[a] == d[da]);
            if b < r.len() {
                let db = if b < i { b } else { b + 1 };
                assert(n[b] == d[db]);
            } else {
                assert(d[da].0 != d[i].0);
            }
        }
    } else {
        lemma_absent_key(d, k);
        assert forall|a: int, b: int| 0 <= a < b < n.len() implies #[trigger] n[a].0 != #[trigger] n[b].0 by {
            assert(n[a] == d[a]);
            if b < d.len() {
                assert(n[b] == d[b]);
            }
        }
    }
}


/// A typed read gives back exactly the value stored under the key when it is
/// of the kind asked for; a missing key gives `NotPresent`, and a value of
/// another kind gives `UnexpectedType`.
pub proof fn lemma_typed_reads(d: DocV, k: Seq<char>)
    ensures
        lookup(d, k) matches Some(BsonV::TimeStamp(v)) ==> access_time_stamp(d, k) == Ok::<i64, ValueAccessError>(v),
        lookup(d, k) matches Some(BsonV::I64(v)) ==> access_i64(d, k) == Ok::<i64, ValueAccessError>(v),
        lookup(d, k) matches Some(BsonV::String(v)) ==> access_str(d, k) == Ok::<Seq<char>, ValueAccessError>(v),
        lookup(d, k) matches Some(BsonV::Document(v)) ==> access_document(d, k) == Ok::<DocV, ValueAccessError>(v),
        lookup(d, k) matches Some(BsonV::Array(v)) ==> access_array(d, k) == Ok::<Seq<BsonV>, ValueAccessError>(v),
        lookup(d, k) matches Some(BsonV::ObjectId(v)) ==> access_object_id(d, k) == Ok::<ObjectId, ValueAccessError>(v),
        lookup(d, k) is None ==> {
            &&& access_time_stamp(d, k) == Err::<i64, ValueAccessError>(ValueAccessError::NotPresent)
            &&& access_i64(d, k) == Err::<i64, ValueAccessError>(ValueAccessError::NotPresent)
            &&& access_str(d, k) == Err::<Seq<char>, ValueAccessError>(ValueAccessError::NotPresent)
            &&& access_document(d, k) == Err::<DocV, ValueAccessError>(ValueAccessError::NotPresent)
            &&& access_array(d, k) == Err::<Seq<BsonV>, ValueAccessError>(ValueAccessError::NotPresent)
            &&& access_object_id(d, k) == Err::<ObjectId, ValueAccessError>(ValueAccessError::NotPresent)
        },
        access_time_stamp(d, k) matches Ok(v) ==> lookup(d, k) == Some(BsonV::TimeStamp(v)),
        access_i64(d, k) matches Ok(v) ==> lookup(d, k) == Some(BsonV::I64(v)),
        access_str(d, k) matches Ok(v) ==> lookup(d, k) == Some(BsonV::String(v)),
        access_document(d, k) matches Ok(v) ==> lookup(d, k) == Some(BsonV::Document(v)),
        access_array(d, k) matches Ok(v) ==> lookup(d, k) == Some(BsonV::Array(v)),
        access_object_id(d, k) matches Ok(v) ==> lookup(d, k) == Some(BsonV::ObjectId(v)),
{
}

} // verus!
