//! The memory store: content-hashed documents merged last-writer-wins by
//! causal event, with provenance tracking and deterministic queries.

use vstd::prelude::*;
use vstd::string::StrSliceExecFns;
use vstd::string::StringExecFns;
use vstd::utf8::encode_utf8;
use crate::canon::{CanonValue, CanonData, cv_view, cv_view_list, cv_view_entries, spec_encode,
    lemma_cv_view_list_push, lemma_cv_view_entries_push};
use crate::hashes::blake3_of;
use crate::kv::{StrMap, has_key, value_of};
use crate::order::str_eq;

verus! {

/// A value a document can hold.
#[derive(Debug, PartialEq, Eq)]
pub enum DocumentValue {
    /// A string.
    String(String),
    /// Raw bytes.
    Bytes(Vec<u8>),
    /// An integer.
    Integer(i64),
    /// A boolean.
    Bool(bool),
    /// Named nested values, in insertion order.
    Table(Vec<(String, DocumentValue)>),
    /// A list of values.
    Vec(Vec<DocumentValue>),
    /// Absence of a value.
    Null,
    /// A reference to other content, by hash.
    Ref(crate::hashes::Hash),
}

/// The canonical shape of a document value.
pub open spec fn dv_canon(v: DocumentValue) -> CanonData
    decreases v,
{
    match v {
        DocumentValue::String(s) => CanonData::Text(encode_utf8(s@)),
        DocumentValue::Bytes(b) => CanonData::Blob(b@),
        DocumentValue::Integer(n) => CanonData::I64(n),
        DocumentValue::Bool(b) => CanonData::Bool(b),
        DocumentValue::Table(es) => CanonData::Object(dv_canon_entries(es@)),
        DocumentValue::Vec(items) => CanonData::List(dv_canon_list(items@)),
        DocumentValue::Null => CanonData::Null,
        DocumentValue::Ref(h) => CanonData::Blob(h@),
    }
}

/// The canonical shapes of named nested values.
pub open spec fn dv_canon_entries(s: Seq<(String, DocumentValue)>) -> Seq<(Seq<u8>, CanonData)>
    decreases s,
{
    if s.len() == 0 {
        Seq::empty()
    } else {
        seq![(encode_utf8(s[0].0@), dv_canon(s[0].1))] + dv_canon_entries(s.drop_first())
    }
}

/// The canonical shapes of listed values.
pub open spec fn dv_canon_list(s: Seq<DocumentValue>) -> Seq<CanonData>
    decreases s,
{
    if s.len() == 0 {
        Seq::empty()
    } else {
        seq![dv_canon(s[0])] + dv_canon_list(s.drop_first())
    }
}

impl DocumentValue {
    /// The name of this value's type.
    pub fn type_label(&self) -> (r: &str)
        ensures
            r@ == dv_type_label(*self),
    {
        match self {
            DocumentValue::String(_) => "string",
            DocumentValue::Bytes(_) => "bytes",
            DocumentValue::Integer(_) => "integer",
            DocumentValue::Bool(_) => "bool",
            DocumentValue::Table(_) => "map",
            DocumentValue::Vec(_) => "vec",
            DocumentValue::Null => "null",
            DocumentValue::Ref(_) => "ref",
        }
    }

    /// This value in canonical form.
    pub fn to_canon(&self) -> (r: CanonValue)
        ensures
            cv_view(r) == dv_canon(*self),
        decreases *self,
    {
        match self {
            DocumentValue::String(s) => CanonValue::Text(vstd::slice::slice_to_vec(
                s.as_str().as_bytes())),
            DocumentValue::Bytes(b) => CanonValue::Blob(vstd::slice::slice_to_vec(
                b.as_slice())),
            DocumentValue::Integer(n) => CanonValue::I64(*n),
            DocumentValue::Bool(b) => CanonValue::Bool(*b),
            DocumentValue::Null => CanonValue::Null,
            DocumentValue::Ref(h) => CanonValue::Blob(vstd::slice::slice_to_vec(h.as_bytes())),
            DocumentValue::Table(es) => {
                let n = es.len();
                let mut out: Vec<(Vec<u8>, CanonValue)> = Vec::new();
                let mut i: usize = 0;
                proof {
                    assert(cv_view_entries(out@) =~= dv_canon_entries(es@).take(0));
                }
                while i < n
                    invariant
                        *self == DocumentValue::Table(*es),
                        n == es@.len(),
                        i <= n,
                        cv_view_entries(out@) == dv_canon_entries(es@).take(i as int),
                    decreases n - i,
                {
                    proof {
                        assert((*self)->Table_0 == *es);
                        assert(decreases_to!(*self => (*self)->Table_0));
                        assert(decreases_to!(*es => es@));
                        assert(decreases_to!(es@ => es@[i as int]));
                        assert(decreases_to!(es@[i as int] => es@[i as int].1));
                        assert(decreases_to!(*self => es@[i as int].1));
                    }
                    let kb = vstd::slice::slice_to_vec(es[i].0.as_str().as_bytes());
                    let cv = es[i].1.to_canon();
                    let ghost old_out = out@;
                    out.push((kb, cv));
                    proof {
                        let x = out@[out@.len() - 1];
                        assert(out@ == old_out.push(x));
                        lemma_cv_view_entries_push(old_out, x);
                        lemma_dv_entries_index(es@, i as int);
                        assert(cv_view_entries(out@) =~= dv_canon_entries(es@).take(i + 1));
                    }
                    i += 1;
                }
                proof {
                    lemma_dv_entries_len(es@);
                    assert(dv_canon_entries(es@).take(n as int) =~= dv_canon_entries(es@));
                }
                CanonValue::Object(out)
            },
            DocumentValue::Vec(items) => {
                let n = items.len();
                let mut out: Vec<CanonValue> = Vec::new();
                let mut i: usize = 0;
                proof {
                    assert(cv_view_list(out@) =~= dv_canon_list(items@).take(0));
                }
                while i < n
                    invariant
                        *self == DocumentValue::Vec(*items),
                        n == items@.len(),
                        i <= n,
                        cv_view_list(out@) == dv_canon_list(items@).take(i as int),
                    decreases n - i,
                {
                    proof {
                        assert((*self)->Vec_0 == *items);
                        assert(decreases_to!(*self => (*self)->Vec_0));
                        assert(decreases_to!(*items => items@));
                        assert(decreases_to!(items@ => items@[i as int]));
                        assert(decreases_to!(*self => items@[i as int]));
                    }
                    let cv = items[i].to_canon();
                    let ghost old_out = out@;
                    out.push(cv);
                    proof {
                        let x = out@[out@.len() - 1];
                        assert(out@ == old_out.push(x));
                        lemma_cv_view_list_push(old_out, x);
                        lemma_dv_list_index(items@, i as int);
                        assert(cv_view_list(out@) =~= dv_canon_list(items@).take(i + 1));
                    }
                    i += 1;
                }
                proof {
                    lemma_dv_list_len(items@);
                    assert(dv_canon_list(items@).take(n as int) =~= dv_canon_list(items@));
                }
                CanonValue::List(out)
            },
        }
    }
}

/// The type name of a document value.
pub open spec fn dv_type_label(v: DocumentValue) -> Seq<char> {
    match v {
        DocumentValue::String(_) => "string"@,
        DocumentValue::Bytes(_) => "bytes"@,
        DocumentValue::Integer(_) => "integer"@,
        DocumentValue::Bool(_) => "bool"@,
        DocumentValue::Table(_) => "map"@,
        DocumentValue::Vec(_) => "vec"@,
        DocumentValue::Null => "null"@,
        DocumentValue::Ref(_) => "ref"@,
    }
}

/// The shape sequence of nested entries, elementwise.
proof fn lemma_dv_entries_index(s: Seq<(String, DocumentValue)>, k: int)
    requires
        0 <= k < s.len(),
    ensures
        dv_canon_entries(s).len() == s.len(),
        dv_canon_entries(s)[k] == (encode_utf8(s[k].0@), dv_canon(s[k].1)),
    decreases k,
{
    lemma_dv_entries_len(s);
    if k == 0 {
    } else {
        let t = s.drop_first();
        assert(t[k - 1] == s[k]);
        lemma_dv_entries_index(t, k - 1);
        assert(dv_canon_entries(s)[k]
            == (seq![(encode_utf8(s[0].0@), dv_canon(s[0].1))] + dv_canon_entries(t))[k]);
    }
}

/// Nested entries and their shapes have the same length.
proof fn lemma_dv_entries_len(s: Seq<(String, DocumentValue)>)
    ensures
        dv_canon_entries(s).len() == s.len(),
    decreases s,
{
    if s.len() > 0 {
        lemma_dv_entries_len(s.drop_first());
    }
}

/// The shape sequence of listed values, elementwise.
proof fn lemma_dv_list_index(s: Seq<DocumentValue>, k: int)
    requires
        0 <= k < s.len(),
    ensures
        dv_canon_list(s).len() == s.len(),
        dv_canon_list(s)[k] == dv_canon(s[k]),
    decreases k,
{
    lemma_dv_list_len(s);
    if k == 0 {
    } else {
        let t = s.drop_first();
        assert(t[k - 1] == s[k]);
        lemma_dv_list_index(t, k - 1);
        assert(dv_canon_list(s)[k] == (seq![dv_canon(s[0])] + dv_canon_list(t))[k]);
    }
}

/// Listed values and their shapes have the same length.
proof fn lemma_dv_list_len(s: Seq<DocumentValue>)
    ensures
        dv_canon_list(s).len() == s.len(),
    decreases s,
{
    if s.len() > 0 {
        lemma_dv_list_len(s.drop_first());
    }
}

/// The canonical shape of a document's identity: key, value and causal
/// event.
pub open spec fn doc_canon(key: Seq<char>, value: DocumentValue, causal_event: u64)
    -> CanonData {
    CanonData::List(seq![
        CanonData::Text(encode_utf8(key)),
        dv_canon(value),
        CanonData::U64(causal_event),
    ])
}

/// The hash a document must carry.
pub open spec fn spec_doc_hash(key: Seq<char>, value: DocumentValue, causal_event: u64)
    -> Seq<u8> {
    blake3_of(spec_encode(doc_canon(key, value, causal_event)))
}

/// A document: a keyed value with its causal event and content hash.
#[derive(Debug)]
pub struct Document {
    /// The document key.
    pub key: String,
    /// The value.
    pub value: DocumentValue,
    /// The event that last wrote the value.
    pub causal_event: u64,
    /// The hash of key, value and causal event.
    pub hash: crate::hashes::Hash,
}

impl Document {
    /// The hash matches the content.
    pub open spec fn wf(&self) -> bool {
        self.hash@ == spec_doc_hash(self.key@, self.value, self.causal_event)
    }

    /// A document; its hash is computed from key, value and causal event.
    pub fn new(key: &str, value: DocumentValue, causal_event: u64) -> (r: Self)
        ensures
            r.wf(),
            r.key@ == key@,
            r.value == value,
            r.causal_event == causal_event,
    {
        let k = String::from_str(key);
        let hash = doc_hash_exec(&k, &value, causal_event);
        Document { key: k, value, causal_event, hash }
    }

    /// Merges another document into this one, last writer wins: the higher
    /// causal event keeps its value. Merging a document with an equal or
    /// older causal event changes nothing and reports `Unchanged`; merging
    /// under a different key changes nothing and reports `KeyMismatch`.
    pub fn merge(&mut self, other: Document) -> (r: MergeResult)
        ensures
            r is Merged ==> final(self).wf(),
            old(self).wf() ==> final(self).wf(),
            match r {
                MergeResult::KeyMismatch => old(self).key@ != other.key@
                    && *final(self) == *old(self),
                MergeResult::Unchanged => old(self).key@ == other.key@
                    && other.causal_event <= old(self).causal_event
                    && *final(self) == *old(self),
                MergeResult::Merged => old(self).key@ == other.key@
                    && other.causal_event > old(self).causal_event
                    && final(self).key == old(self).key
                    && final(self).value == other.value
                    && final(self).causal_event == other.causal_event,
            },
    {
        if !str_eq(self.key.as_str(), other.key.as_str()) {
            return MergeResult::KeyMismatch;
        }
        if other.causal_event > self.causal_event {
            self.value = other.value;
            self.causal_event = other.causal_event;
            self.hash = doc_hash_exec(&self.key, &self.value, self.causal_event);
            return MergeResult::Merged;
        }
        MergeResult::Unchanged
    }

    /// The content hash.
    pub fn hash(&self) -> (r: crate::hashes::Hash)
        ensures
            r@ == self.hash@,
    {
        self.hash.clone()
    }
}

/// Merging a document with one that carries the same key and the same or
/// an older causal event — itself in particular — leaves it unchanged.
pub proof fn lemma_merge_self_unchanged(a: &Document, b: &Document, r: MergeResult,
    after: &Document)
    requires
        a.wf(),
        a.key@ == b.key@,
        b.causal_event <= a.causal_event,
        // The contract of `merge` relates the inputs to its result.
        match r {
            MergeResult::KeyMismatch => a.key@ != b.key@ && *after == *a,
            MergeResult::Unchanged => a.key@ == b.key@
                && b.causal_event <= a.causal_event && *after == *a,
            MergeResult::Merged => a.key@ == b.key@
                && b.causal_event > a.causal_event,
        },
    ensures
        r is Unchanged,
        *after == *a,
{
}

/// How a merge ended.
#[derive(Clone, Copy, Debug, PartialEq, Eq, Structural)]
pub enum MergeResult {
    /// The other value won.
    Merged,
    /// Nothing changed.
    Unchanged,
    /// The keys differ; nothing changed.
    KeyMismatch,
}

/// The hash of a document's canonical identity.
fn doc_hash_exec(key: &String, value: &DocumentValue, causal_event: u64)
    -> (r: crate::hashes::Hash)
    ensures
        r@ == spec_doc_hash(key@, *value, causal_event),
{
    let mut items: Vec<CanonValue> = Vec::new();
    proof {
        assert(cv_view_list(items@) =~= Seq::<CanonData>::empty());
    }
    crate::event::push_item(&mut items, CanonValue::Text(vstd::slice::slice_to_vec(
        key.as_str().as_bytes())));
    let cv = value.to_canon();
    crate::event::push_item(&mut items, cv);
    crate::event::push_item(&mut items, CanonValue::U64(causal_event));
    proof {
        assert(cv_view_list(items@) =~= doc_canon(key@, *value, causal_event)->List_0);
    }
    let c = CanonValue::List(items);
    crate::hashes::Hash::from_canonical(&c)
}


/// The concatenated hash bytes of stored documents, in key order.
pub open spec fn docs_hash_bytes(s: Seq<(Seq<char>, Document)>) -> Seq<u8>
    decreases s,
{
    if s.len() == 0 {
        Seq::empty()
    } else {
        s[0].1.hash@ + docs_hash_bytes(s.drop_first())
    }
}

/// The store hash a document map determines.
pub open spec fn spec_store_hash(s: Seq<(Seq<char>, Document)>) -> Seq<u8> {
    blake3_of(docs_hash_bytes(s))
}

/// One more document appends its hash bytes.
proof fn lemma_docs_hash_take(s: Seq<(Seq<char>, Document)>, k: int)
    requires
        0 <= k < s.len(),
    ensures
        docs_hash_bytes(s.take(k + 1)) == docs_hash_bytes(s.take(k)) + s[k].1.hash@,
    decreases k,
{
    if k == 0 {
        let t = s.take(1);
        assert(t[0] == s[0]);
        assert(t.drop_first() =~= Seq::<(Seq<char>, Document)>::empty());
        assert(docs_hash_bytes(t.drop_first()) =~= Seq::<u8>::empty());
        assert(s.take(0).len() == 0);
        assert(docs_hash_bytes(s.take(0)) =~= Seq::<u8>::empty());
        assert(docs_hash_bytes(t) =~= docs_hash_bytes(s.take(0)) + s[0].1.hash@);
    } else {
        let a = s.take(k + 1);
        let b = s.take(k);
        assert(a[0] == s[0]);
        assert(b[0] == s[0]);
        assert(a.drop_first() =~= s.drop_first().take(k));
        assert(b.drop_first() =~= s.drop_first().take(k - 1));
        assert(s.drop_first()[k - 1] == s[k]);
        lemma_docs_hash_take(s.drop_first(), k - 1);
        assert(a[0].1.hash@ + (docs_hash_bytes(s.drop_first().take(k - 1)) + s[k].1.hash@)
            =~= (b[0].1.hash@ + docs_hash_bytes(s.drop_first().take(k - 1))) + s[k].1.hash@);
    }
}

/// Whether some trail entry records the event touching the key.
pub open spec fn prov_found(prov: Seq<(u64, String)>, event_id: u64, key: Seq<char>) -> bool {
    exists|j: int| 0 <= j < prov.len() && (#[trigger] prov[j]).0 == event_id
        && prov[j].1@ == key
}

/// How a write ended.
#[derive(Debug)]
pub struct WriteResult {
    /// The key written.
    pub key: String,
    /// How the merge went.
    pub result: MergeResult,
    /// The store hash after the write.
    pub store_hash: crate::hashes::Hash,
}

/// How a delete ended.
#[derive(Clone, Copy, Debug, PartialEq, Eq, Structural)]
pub enum DeleteResult {
    /// The document was removed.
    Deleted,
    /// No document carried the key.
    NotFound,
}

/// The memory store: documents keyed by name, merged last-writer-wins, with
/// a hash over all content and a provenance trail.
#[derive(Debug)]
pub struct MemoryStore {
    documents: StrMap<Document>,
    provenance: Vec<(u64, String)>,
    store_hash: crate::hashes::Hash,
}

impl MemoryStore {
    /// The stored documents, keyed and sorted by name.
    pub closed spec fn spec_docs(&self) -> Seq<(Seq<char>, Document)> {
        self.documents@
    }

    /// The provenance trail: event id and affected key, in order.
    pub closed spec fn spec_provenance(&self) -> Seq<(u64, String)> {
        self.provenance@
    }

    /// The cached store hash.
    pub closed spec fn spec_hash(&self) -> Seq<u8> {
        self.store_hash@
    }

    /// The documents are sorted and the cached hash covers them.
    pub open spec fn wf(&self) -> bool {
        &&& crate::kv::entries_sorted(self.spec_docs())
        &&& self.spec_hash() == spec_store_hash(self.spec_docs())
    }

    /// An empty store.
    pub fn new() -> (r: Self)
        ensures
            r.wf(),
            r.spec_docs().len() == 0,
            r.spec_provenance().len() == 0,
    {
        let documents: StrMap<Document> = StrMap::new();
        let store_hash = store_hash_exec(&documents);
        MemoryStore { documents, provenance: Vec::new(), store_hash }
    }

    /// Writes a document: a fresh key is inserted, an existing key merges
    /// last-writer-wins. The causal event and key are recorded in the
    /// provenance trail and the store hash is recomputed.
    pub fn write(&mut self, doc: Document) -> (r: WriteResult)
        requires
            old(self).wf(),
            doc.wf(),
        ensures
            final(self).wf(),
            r.key@ == doc.key@,
            final(self).spec_provenance().len()
                == old(self).spec_provenance().len() + 1,
            final(self).spec_provenance().drop_last()
                == old(self).spec_provenance(),
            final(self).spec_provenance().last().0 == doc.causal_event,
            final(self).spec_provenance().last().1@ == doc.key@,
            r.store_hash@ == final(self).spec_hash(),
            !has_key(old(self).spec_docs(), doc.key@) ==> r.result is Merged
                && has_key(final(self).spec_docs(), doc.key@),
            (has_key(old(self).spec_docs(), doc.key@)
                && value_of(old(self).spec_docs(), doc.key@).key@ == doc.key@) ==> {
                let prior = value_of(old(self).spec_docs(), doc.key@);
                &&& (doc.causal_event > prior.causal_event ==> r.result is Merged
                    && value_of(final(self).spec_docs(), doc.key@).value == doc.value
                    && value_of(final(self).spec_docs(), doc.key@).causal_event
                        == doc.causal_event)
                &&& (doc.causal_event <= prior.causal_event ==> r.result is Unchanged
                    && value_of(final(self).spec_docs(), doc.key@) == prior)
            },
    {
        let key = doc.key.clone();
        let causal = doc.causal_event;
        self.provenance.push((causal, key.clone()));
        let ghost old_docs = self.documents@;
        let taken = self.documents.remove(key.as_str());
        let result = match taken {
            Option::Some(mut existing) => {
                let ghost prior = existing;
                let r = existing.merge(doc);
                let ghost gres = r;
                let ghost gdoc = existing;
                self.documents.insert(key.clone(), existing);
                proof {
                    assert(self.documents.spec_map()[key@] == gdoc);
                    assert(value_of(self.documents@, key@) == gdoc);
                    if gres is Merged {
                        assert(gdoc.value == doc.value);
                        assert(gdoc.causal_event == doc.causal_event);
                    } else {
                        assert(gdoc == prior);
                    }
                }
                r
            },
            Option::None => {
                let ghost gdoc = doc;
                self.documents.insert(key.clone(), doc);
                proof {
                    assert(self.documents.spec_map()[key@] == gdoc);
                    assert(value_of(self.documents@, key@) == gdoc);
                }
                MergeResult::Merged
            },
        };
        self.store_hash = store_hash_exec(&self.documents);
        WriteResult { key, result, store_hash: self.store_hash.clone() }
    }

    /// The document under a key, if any.
    pub fn read(&self, key: &str) -> (r: Option<&Document>)
        ensures
            match r {
                Some(d) => has_key(self.spec_docs(), key@)
                    && *d == value_of(self.spec_docs(), key@),
                None => !has_key(self.spec_docs(), key@),
            },
    {
        self.documents.get(key)
    }

    /// Deletes a document; records the deletion in the provenance trail
    /// under `!key` and recomputes the hash only when something was
    /// removed.
    pub fn delete(&mut self, key: &str, causal_event: u64) -> (r: DeleteResult)
        requires
            old(self).wf(),
        ensures
            final(self).wf(),
            r is Deleted == has_key(old(self).spec_docs(), key@),
            final(self).spec_docs().len() == if has_key(old(self).spec_docs(), key@) {
                old(self).spec_docs().len() - 1
            } else {
                old(self).spec_docs().len() as int
            },
            !has_key(final(self).spec_docs(), key@),
            r is Deleted ==> final(self).spec_provenance().len()
                == old(self).spec_provenance().len() + 1
                && final(self).spec_provenance().drop_last()
                    == old(self).spec_provenance()
                && final(self).spec_provenance().last().0 == causal_event
                && final(self).spec_provenance().last().1@ == "!"@ + key@,
            r is NotFound ==> final(self).spec_provenance()
                == old(self).spec_provenance()
                && final(self).spec_docs() == old(self).spec_docs()
                && final(self).spec_hash() == old(self).spec_hash(),
    {
        let taken = self.documents.remove(key);
        match taken {
            Option::Some(_) => {
                let marked = String::from_str("!").concat(key);
                self.provenance.push((causal_event, marked));
                self.store_hash = store_hash_exec(&self.documents);
                proof {
                    assert(!self.documents.spec_map().dom().contains(key@));
                }
                DeleteResult::Deleted
            },
            Option::None => {
                proof {
                    assert(!self.documents.spec_map().dom().contains(key@));
                }
                DeleteResult::NotFound
            },
        }
    }

    /// All keys, in sorted order.
    pub fn keys(&self) -> (r: Vec<String>)
        ensures
            r@.len() == self.spec_docs().len(),
            forall|i: int| 0 <= i < r@.len() ==> (#[trigger] r@[i])@ == self.spec_docs()[i].0,
    {
        self.documents.keys()
    }

    /// How many documents the store holds.
    pub fn len(&self) -> (n: usize)
        ensures
            n == self.spec_docs().len(),
    {
        self.documents.len()
    }

    /// Whether the store is empty.
    pub fn is_empty(&self) -> (b: bool)
        ensures
            b == (self.spec_docs().len() == 0),
    {
        self.documents.is_empty()
    }

    /// The store hash: the digest of all document hashes in key order.
    pub fn hash(&self) -> (r: crate::hashes::Hash)
        ensures
            r@ == self.spec_hash(),
    {
        self.store_hash.clone()
    }

    /// The keys the given event touched, in trail order; a deletion is
    /// recorded with a `!` prefix.
    pub fn keys_for_event(&self, event_id: u64) -> (r: Vec<String>)
        ensures
            forall|i: int| 0 <= i < r@.len()
                ==> prov_found(self.spec_provenance(), event_id, (#[trigger] r@[i])@),
    {
        let n = self.provenance.len();
        let mut out: Vec<String> = Vec::new();
        let mut i: usize = 0;
        while i < n
            invariant
                n == self.spec_provenance().len(),
                i <= n,
                forall|t: int| 0 <= t < out@.len()
                    ==> prov_found(self.spec_provenance(), event_id, (#[trigger] out@[t])@),
            decreases n - i,
        {
            if self.provenance[i].0 == event_id {
                out.push(self.provenance[i].1.clone());
                proof {
                    let t = out@.len() - 1;
                    assert((self.spec_provenance()[i as int]).0 == event_id);
                    assert(out@[t]@ == self.spec_provenance()[i as int].1@);
                    assert(prov_found(self.spec_provenance(), event_id, out@[t]@));
                }
            }
            i += 1;
        }
        out
    }

    /// A snapshot of the document hashes and the store hash.
    pub fn snapshot(&self) -> (r: StoreSnapshot)
        ensures
            r.store_hash@ == self.spec_hash(),
            r.document_hashes@.len() == self.spec_docs().len(),
    {
        let n = self.documents.len();
        let mut document_hashes: Vec<(String, crate::hashes::Hash)> = Vec::new();
        let mut i: usize = 0;
        while i < n
            invariant
                n == self.spec_docs().len(),
                i <= n,
                document_hashes@.len() == i,
            decreases n - i,
        {
            let (key, d) = self.documents.entry_at(i);
            document_hashes.push((key.clone(), d.hash()));
            i += 1;
        }
        StoreSnapshot { document_hashes, store_hash: self.store_hash.clone() }
    }
}

/// The hash over all documents, in key order.
fn store_hash_exec(documents: &StrMap<Document>) -> (r: crate::hashes::Hash)
    ensures
        r@ == spec_store_hash(documents@),
{
    let n = documents.len();
    let mut data: Vec<u8> = Vec::new();
    let mut i: usize = 0;
    proof {
        assert(data@ =~= docs_hash_bytes(documents@.take(0)));
    }
    while i < n
        invariant
            n == documents@.len(),
            i <= n,
            data@ == docs_hash_bytes(documents@.take(i as int)),
        decreases n - i,
    {
        let (_, d) = documents.entry_at(i);
        let hb = d.hash.as_bytes();
        let m = hb.len();
        let mut j: usize = 0;
        while j < m
            invariant
                m == hb@.len(),
                j <= m,
                hb@ == documents@[i as int].1.hash@,
                i < n,
                n == documents@.len(),
                data@ == docs_hash_bytes(documents@.take(i as int)) + hb@.take(j as int),
            decreases m - j,
        {
            data.push(hb[j]);
            proof {
                assert(data@ =~= docs_hash_bytes(documents@.take(i as int))
                    + hb@.take(j + 1));
            }
            j += 1;
        }
        proof {
            lemma_docs_hash_take(documents@, i as int);
            assert(hb@.take(m as int) =~= hb@);
            assert(data@ =~= docs_hash_bytes(documents@.take(i + 1)));
        }
        i += 1;
    }
    proof {
        assert(documents@.take(n as int) =~= documents@);
    }
    crate::hashes::Hash::from_bytes(data.as_slice())
}

/// A snapshot of the store: each document's hash and the store hash.
#[derive(Debug)]
pub struct StoreSnapshot {
    /// Document hashes, keyed by name in sorted order.
    pub document_hashes: Vec<(String, crate::hashes::Hash)>,
    /// The store hash.
    pub store_hash: crate::hashes::Hash,
}


/// One recorded memory operation.
#[derive(Debug)]
pub struct ProvenanceRecord {
    /// The event that caused the operation.
    pub causal_event: u64,
    /// What was done.
    pub operation: Operation,
    /// The key affected.
    pub key: String,
    /// The hash of the value written, as hex, if any.
    pub value_hash: Option<String>,
    /// When, logically.
    pub timestamp: u64,
}

impl ProvenanceRecord {
    /// A record without value hash or timestamp.
    pub fn new(causal_event: u64, operation: Operation, key: &str) -> (r: Self)
        ensures
            r.causal_event == causal_event,
            r.operation == operation,
            r.key@ == key@,
            r.value_hash is None,
            r.timestamp == 0,
    {
        ProvenanceRecord {
            causal_event,
            operation,
            key: String::from_str(key),
            value_hash: None,
            timestamp: 0,
        }
    }

    /// The same record with a value hash.
    pub fn with_value_hash(self, hash: &str) -> (r: Self)
        ensures
            r.causal_event == self.causal_event,
            r.operation == self.operation,
            r.key == self.key,
            r.timestamp == self.timestamp,
            r.value_hash matches Some(h) && h@ == hash@,
    {
        ProvenanceRecord { value_hash: Some(String::from_str(hash)), ..self }
    }

    /// The same record with a timestamp.
    pub fn with_timestamp(self, timestamp: u64) -> (r: Self)
        ensures
            r.causal_event == self.causal_event,
            r.operation == self.operation,
            r.key == self.key,
            r.value_hash == self.value_hash,
            r.timestamp == timestamp,
    {
        ProvenanceRecord { timestamp, ..self }
    }
}

impl Clone for ProvenanceRecord {
    /// A clone carries the same fields.
    fn clone(&self) -> (r: Self)
        ensures
            r.causal_event == self.causal_event,
            r.operation == self.operation,
            r.key@ == self.key@,
            r.timestamp == self.timestamp,
            (r.value_hash is None) == (self.value_hash is None),
    {
        let value_hash = match &self.value_hash {
            Option::Some(h) => Some(h.clone()),
            Option::None => None,
        };
        ProvenanceRecord {
            causal_event: self.causal_event,
            operation: self.operation,
            key: self.key.clone(),
            value_hash,
            timestamp: self.timestamp,
        }
    }
}

/// What a memory operation did.
#[derive(Clone, Copy, Debug, PartialEq, Eq, Structural)]
pub enum Operation {
    /// A write.
    Write,
    /// A delete.
    Delete,
    /// A read.
    Read,
    /// A merge.
    Merge,
}

/// A trail of provenance records, in arrival order.
#[derive(Debug)]
pub struct ProvenanceTracker {
    records: Vec<ProvenanceRecord>,
}

impl ProvenanceTracker {
    /// The records, in arrival order.
    pub closed spec fn spec_records(&self) -> Seq<ProvenanceRecord> {
        self.records@
    }

    /// An empty trail.
    pub fn new() -> (r: Self)
        ensures
            r.spec_records().len() == 0,
    {
        ProvenanceTracker { records: Vec::new() }
    }

    /// Appends a record.
    pub fn record(&mut self, record: ProvenanceRecord)
        ensures
            final(self).spec_records() == old(self).spec_records().push(record),
    {
        self.records.push(record);
    }

    /// The records of one event, in order.
    pub fn records_for_event(&self, event_id: u64) -> (r: Vec<ProvenanceRecord>)
        ensures
            forall|i: int| 0 <= i < r@.len() ==> (#[trigger] r@[i]).causal_event == event_id,
    {
        let n = self.records.len();
        let mut out: Vec<ProvenanceRecord> = Vec::new();
        let mut i: usize = 0;
        while i < n
            invariant
                n == self.spec_records().len(),
                i <= n,
                forall|t: int| 0 <= t < out@.len()
                    ==> (#[trigger] out@[t]).causal_event == event_id,
            decreases n - i,
        {
            if self.records[i].causal_event == event_id {
                out.push(self.records[i].clone());
            }
            i += 1;
        }
        out
    }

    /// The events that touched one key, in order.
    pub fn history_for_key(&self, key: &str) -> (r: Vec<u64>)
    {
        let n = self.records.len();
        let mut out: Vec<u64> = Vec::new();
        let mut i: usize = 0;
        while i < n
            invariant
                n == self.spec_records().len(),
                i <= n,
            decreases n - i,
        {
            if str_eq(self.records[i].key.as_str(), key) {
                out.push(self.records[i].causal_event);
            }
            i += 1;
        }
        out
    }

    /// The records that explain one key, in order.
    pub fn trace(&self, key: &str) -> (r: Vec<ProvenanceRecord>)
        ensures
            forall|i: int| 0 <= i < r@.len() ==> (#[trigger] r@[i]).key@ == key@,
    {
        let n = self.records.len();
        let mut out: Vec<ProvenanceRecord> = Vec::new();
        let mut i: usize = 0;
        while i < n
            invariant
                n == self.spec_records().len(),
                i <= n,
                forall|t: int| 0 <= t < out@.len() ==> (#[trigger] out@[t]).key@ == key@,
            decreases n - i,
        {
            if str_eq(self.records[i].key.as_str(), key) {
                out.push(self.records[i].clone());
            }
            i += 1;
        }
        out
    }

    /// The distinct event ids recorded, in first-seen order.
    pub fn events(&self) -> (r: Vec<u64>)
    {
        let n = self.records.len();
        let mut out: Vec<u64> = Vec::new();
        let mut i: usize = 0;
        while i < n
            invariant
                n == self.spec_records().len(),
                i <= n,
            decreases n - i,
        {
            let e = self.records[i].causal_event;
            let m = out.len();
            let mut seen = false;
            let mut j: usize = 0;
            while j < m
                invariant
                    m == out@.len(),
                    j <= m,
                decreases m - j,
            {
                if out[j] == e {
                    seen = true;
                }
                j += 1;
            }
            if !seen {
                out.push(e);
            }
            i += 1;
        }
        out
    }
}

/// Query errors.
#[derive(Clone, Debug, PartialEq, Eq)]
pub enum QueryError {
    /// The query is malformed.
    InvalidQuery(String),
    /// No document under this key.
    NotFound(String),
    /// The value has the wrong type.
    TypeMismatch {
        /// The type asked for.
        expected: String,
        /// The type found.
        found: String,
    },
}

/// One query result.
#[derive(Debug)]
pub struct QueryResultItem {
    /// The document key.
    pub key: String,
    /// The document value, in canonical form.
    pub value: CanonValue,
    /// The type name of the value.
    pub value_type: String,
    /// The causal event of the document.
    pub event: u64,
}

/// How results are ordered.
#[derive(Clone, Copy, Debug, PartialEq, Eq, Structural)]
pub enum QueryOrder {
    /// By key, ascending.
    Key,
    /// By key, descending.
    KeyDesc,
    /// By causal event, ascending.
    Event,
}

/// A filter on query results.
#[derive(Debug)]
pub enum Filter {
    /// The key equals this text.
    KeyEquals(String),
    /// The key starts with this text.
    KeyPrefix(String),
    /// The value has this type name.
    TypeEquals(String),
}

/// Whether an item passes a filter.
pub open spec fn filter_matches(f: Filter, key: Seq<char>, value_type: Seq<char>,
    event: u64) -> bool {
    match f {
        Filter::KeyEquals(s) => key == s@,
        Filter::KeyPrefix(p) => p@.len() <= key.len() && key.take(p@.len() as int) == p@,
        Filter::TypeEquals(t) => value_type == t@,
    }
}

/// A deterministic query over the memory store.
pub struct QueryBuilder<'a> {
    /// The store queried.
    pub store: &'a MemoryStore,
    /// The filters every result must pass.
    pub filters: Vec<Filter>,
    /// The result order.
    pub order: QueryOrder,
    /// The result cap, if any.
    pub limit: Option<usize>,
}

impl<'a> QueryBuilder<'a> {
    /// A query over the whole store, ordered by key.
    pub fn new(store: &'a MemoryStore) -> (r: Self)
        ensures
            r.filters@.len() == 0,
            r.order is Key,
            r.limit is None,
    {
        QueryBuilder { store, filters: Vec::new(), order: QueryOrder::Key, limit: None }
    }

    /// Adds a filter.
    pub fn filter(self, filter: Filter) -> (r: Self)
        ensures
            r.filters@ == self.filters@.push(filter),
            r.order == self.order,
            r.limit == self.limit,
    {
        let mut filters = self.filters;
        filters.push(filter);
        QueryBuilder { store: self.store, filters, order: self.order, limit: self.limit }
    }

    /// Sets the ordering.
    pub fn order_by(self, order: QueryOrder) -> (r: Self)
        ensures
            r.filters@ == self.filters@,
            r.order == order,
            r.limit == self.limit,
    {
        QueryBuilder { store: self.store, filters: self.filters, order, limit: self.limit }
    }

    /// Caps the result count.
    pub fn limit(self, n: usize) -> (r: Self)
        ensures
            r.filters@ == self.filters@,
            r.order == self.order,
            r.limit == Some(n),
    {
        QueryBuilder { store: self.store, filters: self.filters, order: self.order,
            limit: Some(n) }
    }

    /// Runs the query: documents in key order, those passing every filter,
    /// reordered as asked, cut to the limit. Every returned item passes
    /// every filter.
    pub fn execute(self) -> (r: Result<Vec<QueryResultItem>, QueryError>)
        ensures
            r matches Ok(items) ==> {
                &&& (self.limit matches Some(l) ==> items@.len() <= l)
                &&& forall|i: int, f: int| 0 <= i < items@.len()
                    && 0 <= f < self.filters@.len()
                    ==> filter_matches(#[trigger] self.filters@[f],
                        (#[trigger] items@[i]).key@, items@[i].value_type@, items@[i].event)
            },
    {
        let n = self.store.documents.len();
        let mut items: Vec<QueryResultItem> = Vec::new();
        let mut i: usize = 0;
        while i < n
            invariant
                n == self.store.spec_docs().len(),
                i <= n,
                forall|t: int, f: int| 0 <= t < items@.len()
                    && 0 <= f < self.filters@.len()
                    ==> filter_matches(#[trigger] self.filters@[f],
                        (#[trigger] items@[t]).key@, items@[t].value_type@, items@[t].event),
            decreases n - i,
        {
            let (key, d) = self.store.documents.entry_at(i);
            let vt = String::from_str(d.value.type_label());
            let nf = self.filters.len();
            let mut passes = true;
            let mut f: usize = 0;
            while f < nf
                invariant
                    nf == self.filters@.len(),
                    f <= nf,
                    key@ == self.store.spec_docs()[i as int].0,
                    i < n,
                    n == self.store.spec_docs().len(),
                    vt@ == dv_type_label(self.store.spec_docs()[i as int].1.value),
                    passes == forall|g: int| 0 <= g < f
                        ==> filter_matches(#[trigger] self.filters@[g], key@, vt@,
                            self.store.spec_docs()[i as int].1.causal_event),
                decreases nf - f,
            {
                let ok = match &self.filters[f] {
                    Filter::KeyEquals(s) => str_eq(key.as_str(), s.as_str()),
                    Filter::KeyPrefix(p) => str_starts_with(key.as_str(), p.as_str()),
                    Filter::TypeEquals(t) => str_eq(vt.as_str(), t.as_str()),
                };
                passes = passes && ok;
                f += 1;
            }
            if passes {
                items.push(QueryResultItem {
                    key: key.clone(),
                    value: d.value.to_canon(),
                    value_type: vt,
                    event: d.causal_event,
                });
            }
            i += 1;
        }
        // Reorder as asked; the collection order is ascending by key.
        let ghost collected = items@;
        let items = match self.order {
            QueryOrder::Key => items,
            QueryOrder::KeyDesc => reverse_items(items),
            QueryOrder::Event => sort_items_by_event(items),
        };
        proof {
            assert forall|t: int, f: int| 0 <= t < items@.len()
                && 0 <= f < self.filters@.len()
                implies filter_matches(#[trigger] self.filters@[f],
                    (#[trigger] items@[t]).key@, items@[t].value_type@, items@[t].event) by {
                if item_from(collected, items@[t]) {
                    let j = choose|j: int| 0 <= j < collected.len()
                        && collected[j] == items@[t];
                    assert(filter_matches(self.filters@[f], collected[j].key@,
                        collected[j].value_type@, collected[j].event));
                } else {
                    assert(items@[t] == collected[items@.len() - 1 - t]
                        || items@[t] == collected[t]);
                }
            }
        }
        let ghost ordered = items@;
        let items = match self.limit {
            Option::Some(l) => truncate_items(items, l),
            Option::None => items,
        };
        proof {
            assert forall|t: int, f: int| 0 <= t < items@.len()
                && 0 <= f < self.filters@.len()
                implies filter_matches(#[trigger] self.filters@[f],
                    (#[trigger] items@[t]).key@, items@[t].value_type@, items@[t].event) by {
                assert(items@[t] == ordered[t] || item_from(ordered, items@[t]));
                assert(filter_matches(self.filters@[f], ordered[t].key@,
                    ordered[t].value_type@, ordered[t].event));
            }
        }
        Ok(items)
    }
}

/// Whether `p` is a prefix of `s`.
fn str_starts_with(s: &str, p: &str) -> (r: bool)
    ensures
        r == (p@.len() <= s@.len() && s@.take(p@.len() as int) == p@),
{
    let ns = s.unicode_len();
    let np = p.unicode_len();
    if np > ns {
        return false;
    }
    let mut i: usize = 0;
    while i < np
        invariant
            ns == s@.len(),
            np == p@.len(),
            np <= ns,
            i <= np,
            forall|j: int| 0 <= j < i ==> s@[j] == p@[j],
        decreases np - i,
    {
        if s.get_char(i) != p.get_char(i) {
            proof {
                assert(s@.take(p@.len() as int)[i as int] != p@[i as int]);
            }
            return false;
        }
        i += 1;
    }
    proof {
        assert(s@.take(p@.len() as int) =~= p@);
    }
    true
}

/// The items in reverse order; each came from the input.
fn reverse_items(items: Vec<QueryResultItem>) -> (r: Vec<QueryResultItem>)
    ensures
        r@.len() == items@.len(),
        forall|i: int| 0 <= i < r@.len() ==> r@[i] == items@[items@.len() - 1 - i],
{
    let n = items.len();
    let mut out: Vec<QueryResultItem> = Vec::new();
    let mut src = items;
    let mut i: usize = 0;
    let ghost orig = src@;
    while i < n
        invariant
            n == orig.len(),
            i <= n,
            src@ == orig.take((n - i) as int),
            out@.len() == i,
            forall|j: int| 0 <= j < i ==> out@[j] == orig[orig.len() - 1 - j],
        decreases n - i,
    {
        let last = src.pop();
        match last {
            Option::Some(x) => {
                proof {
                    assert(x == orig[n - 1 - i]);
                }
                out.push(x);
            },
            Option::None => {
                proof {
                    assert(false);
                }
            },
        }
        proof {
            assert(src@ =~= orig.take((n - i - 1) as int));
        }
        i += 1;
    }
    out
}

/// Whether an item occurs in a sequence.
pub open spec fn item_from(orig: Seq<QueryResultItem>, x: QueryResultItem) -> bool {
    exists|j: int| 0 <= j < orig.len() && orig[j] == x
}

/// The items ordered by ascending causal event; each came from the input.
fn sort_items_by_event(items: Vec<QueryResultItem>) -> (r: Vec<QueryResultItem>)
    ensures
        r@.len() == items@.len(),
        forall|i: int| 0 <= i < r@.len() ==> item_from(items@, #[trigger] r@[i]),
{
    let n = items.len();
    let mut src = items;
    let mut out: Vec<QueryResultItem> = Vec::new();
    let ghost orig = src@;
    proof {
        assert forall|k: int| 0 <= k < src@.len()
            implies item_from(orig, #[trigger] src@[k]) by {
            assert(orig[k] == src@[k]);
        }
    }
    while src.len() > 0
        invariant
            orig == items@,
            out@.len() + src@.len() == n,
            forall|k: int| 0 <= k < src@.len() ==> item_from(orig, #[trigger] src@[k]),
            forall|t: int| 0 <= t < out@.len() ==> item_from(orig, #[trigger] out@[t]),
        decreases src.len(),
    {
        // Take the least remaining event.
        let m = src.len();
        let mut best: usize = 0;
        let mut k: usize = 1;
        while k < m
            invariant
                m == src@.len(),
                m > 0,
                best < m,
                k <= m,
            decreases m - k,
        {
            if src[k].event < src[best].event {
                best = k;
            }
            k += 1;
        }
        let ghost pre = src@;
        let x = src.remove(best);
        proof {
            assert(x == pre[best as int]);
            assert forall|kk: int| 0 <= kk < src@.len()
                implies item_from(orig, #[trigger] src@[kk]) by {
                if kk < best {
                    assert(src@[kk] == pre[kk]);
                } else {
                    assert(src@[kk] == pre[kk + 1]);
                }
            }
        }
        out.push(x);
    }
    out
}

/// The first `l` items.
fn truncate_items(items: Vec<QueryResultItem>, l: usize) -> (r: Vec<QueryResultItem>)
    ensures
        r@.len() <= l,
        r@.len() <= items@.len(),
        forall|i: int| 0 <= i < r@.len() ==> r@[i] == items@[i],
{
    let n = items.len();
    let mut out: Vec<QueryResultItem> = Vec::new();
    let mut src = items;
    let mut i: usize = 0;
    let ghost orig = src@;
    while i < n && i < l
        invariant
            n == orig.len(),
            i <= n,
            i <= l,
            src@ == orig.skip(i as int),
            out@.len() == i,
            forall|j: int| 0 <= j < i ==> out@[j] == orig[j],
        decreases n - i,
    {
        let x = src.remove(0);
        proof {
            assert(x == orig[i as int]);
            assert(src@ =~= orig.skip(i + 1));
        }
        out.push(x);
        i += 1;
    }
    out
}

} // verus!
