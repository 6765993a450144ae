//! Canonical value encoding.
//!
//! Every value that is hashed or persisted is first brought into a
//! [`CanonValue`] tree and then encoded by a fixed, self-delimiting byte
//! form: a tag byte, big-endian 64-bit lengths and counts, and object
//! entries in the order the tree holds them (the crate builds object entries
//! sorted by key, see [`crate::kv`]). Equal trees give equal bytes, so equal
//! values give equal hashes whatever process or insertion order produced
//! them.
//!
//! [`CanonData`] is the mathematical shape of such a tree; a [`CanonValue`]
//! is its executable carrier, related by [`cv_view`].

use vstd::prelude::*;

verus! {

/// A value in canonical form.
///
/// Text holds the UTF-8 bytes of a string; object entries pair a UTF-8 key
/// with a value and are kept sorted by the producing container.
#[derive(Debug, PartialEq, Eq)]
pub enum CanonValue {
    /// Absence of a value.
    Null,
    /// A boolean.
    Bool(bool),
    /// An unsigned integer.
    U64(u64),
    /// A signed integer.
    I64(i64),
    /// A string, as its UTF-8 bytes.
    Text(Vec<u8>),
    /// Raw bytes.
    Blob(Vec<u8>),
    /// An ordered list.
    List(Vec<CanonValue>),
    /// Key-value entries, keys as UTF-8 bytes.
    Object(Vec<(Vec<u8>, CanonValue)>),
}

/// The mathematical shape of a canonical value.
pub enum CanonData {
    /// Absence of a value.
    Null,
    /// A boolean.
    Bool(bool),
    /// An unsigned integer.
    U64(u64),
    /// A signed integer.
    I64(i64),
    /// A string, as its UTF-8 bytes.
    Text(Seq<u8>),
    /// Raw bytes.
    Blob(Seq<u8>),
    /// An ordered list.
    List(Seq<CanonData>),
    /// Key-value entries, keys as UTF-8 bytes.
    Object(Seq<(Seq<u8>, CanonData)>),
}

/// The shape a canonical value stands for.
pub open spec fn cv_view(v: CanonValue) -> CanonData
    decreases v,
{
    match v {
        CanonValue::Null => CanonData::Null,
        CanonValue::Bool(b) => CanonData::Bool(b),
        CanonValue::U64(n) => CanonData::U64(n),
        CanonValue::I64(n) => CanonData::I64(n),
        CanonValue::Text(t) => CanonData::Text(t@),
        CanonValue::Blob(b) => CanonData::Blob(b@),
        CanonValue::List(items) => CanonData::List(cv_view_list(items@)),
        CanonValue::Object(es) => CanonData::Object(cv_view_entries(es@)),
    }
}

/// The shapes of the elements of a list.
pub open spec fn cv_view_list(s: Seq<CanonValue>) -> Seq<CanonData>
    decreases s,
{
    if s.len() == 0 {
        Seq::empty()
    } else {
        seq![cv_view(s[0])] + cv_view_list(s.drop_first())
    }
}

/// The shapes of object entries.
pub open spec fn cv_view_entries(s: Seq<(Vec<u8>, CanonValue)>) -> Seq<(Seq<u8>, CanonData)>
    decreases s,
{
    if s.len() == 0 {
        Seq::empty()
    } else {
        seq![(s[0].0@, cv_view(s[0].1))] + cv_view_entries(s.drop_first())
    }
}

/// A list and its element shapes have the same length.
pub proof fn lemma_cv_view_list_len(s: Seq<CanonValue>)
    ensures
        cv_view_list(s).len() == s.len(),
    decreases s,
{
    if s.len() > 0 {
        lemma_cv_view_list_len(s.drop_first());
    }
}

/// Entries and their shapes have the same length.
pub proof fn lemma_cv_view_entries_len(s: Seq<(Vec<u8>, CanonValue)>)
    ensures
        cv_view_entries(s).len() == s.len(),
    decreases s,
{
    if s.len() > 0 {
        lemma_cv_view_entries_len(s.drop_first());
    }
}

/// The eight bytes of `n`, most significant first.
pub open spec fn be_bytes(n: u64) -> Seq<u8> {
    seq![
        (n >> 56) as u8,
        (n >> 48) as u8,
        (n >> 40) as u8,
        (n >> 32) as u8,
        (n >> 24) as u8,
        (n >> 16) as u8,
        (n >> 8) as u8,
        n as u8,
    ]
}

/// The canonical bytes of a value shape.
pub open spec fn spec_encode(v: CanonData) -> Seq<u8>
    decreases v,
{
    match v {
        CanonData::Null => seq![0u8],
        CanonData::Bool(b) => seq![1u8, if b { 1u8 } else { 0u8 }],
        CanonData::U64(n) => seq![2u8] + be_bytes(n),
        CanonData::I64(n) => seq![3u8] + be_bytes(n as u64),
        CanonData::Text(t) => seq![4u8] + be_bytes(t.len() as u64) + t,
        CanonData::Blob(b) => seq![5u8] + be_bytes(b.len() as u64) + b,
        CanonData::List(items) => seq![6u8] + be_bytes(items.len() as u64)
            + spec_encode_list(items),
        CanonData::Object(es) => seq![7u8] + be_bytes(es.len() as u64)
            + spec_encode_entries(es),
    }
}

/// The canonical bytes of list elements, in order.
pub open spec fn spec_encode_list(s: Seq<CanonData>) -> Seq<u8>
    decreases s,
{
    if s.len() == 0 {
        Seq::empty()
    } else {
        spec_encode(s[0]) + spec_encode_list(s.drop_first())
    }
}

/// The canonical bytes of object entries, in order: each key length-prefixed,
/// then the value.
pub open spec fn spec_encode_entries(s: Seq<(Seq<u8>, CanonData)>) -> Seq<u8>
    decreases s,
{
    if s.len() == 0 {
        Seq::empty()
    } else {
        be_bytes(s[0].0.len() as u64) + s[0].0 + spec_encode(s[0].1)
            + spec_encode_entries(s.drop_first())
    }
}

/// Encoding a concatenation of lists concatenates the encodings.
pub proof fn lemma_encode_list_concat(a: Seq<CanonData>, b: Seq<CanonData>)
    ensures
        spec_encode_list(a + b) == spec_encode_list(a) + spec_encode_list(b),
    decreases a,
{
    if a.len() == 0 {
        assert(a + b =~= b);
        assert(spec_encode_list(a) =~= Seq::empty());
        assert(spec_encode_list(a) + spec_encode_list(b) =~= spec_encode_list(b));
    } else {
        assert((a + b)[0] == a[0]);
        assert((a + b).drop_first() =~= a.drop_first() + b);
        lemma_encode_list_concat(a.drop_first(), b);
        assert(spec_encode(a[0]) + (spec_encode_list(a.drop_first()) + spec_encode_list(b))
            =~= (spec_encode(a[0]) + spec_encode_list(a.drop_first())) + spec_encode_list(b));
    }
}

/// The same, for object entries.
pub proof fn lemma_encode_entries_concat(a: Seq<(Seq<u8>, CanonData)>, b: Seq<(Seq<u8>, CanonData)>)
    ensures
        spec_encode_entries(a + b) == spec_encode_entries(a) + spec_encode_entries(b),
    decreases a,
{
    if a.len() == 0 {
        assert(a + b =~= b);
        assert(spec_encode_entries(a) =~= Seq::empty());
        assert(spec_encode_entries(a) + spec_encode_entries(b) =~= spec_encode_entries(b));
    } else {
        assert((a + b)[0] == a[0]);
        assert((a + b).drop_first() =~= a.drop_first() + b);
        lemma_encode_entries_concat(a.drop_first(), b);
        let h = be_bytes(a[0].0.len() as u64) + a[0].0 + spec_encode(a[0].1);
        assert(h + (spec_encode_entries(a.drop_first()) + spec_encode_entries(b))
            =~= (h + spec_encode_entries(a.drop_first())) + spec_encode_entries(b));
    }
}

/// One more element of the underlying list appends one view.
pub proof fn lemma_cv_view_list_take(s: Seq<CanonValue>, k: int)
    requires
        0 <= k < s.len(),
    ensures
        cv_view_list(s.take(k + 1)) == cv_view_list(s.take(k)) + seq![cv_view(s[k])],
    decreases k,
{
    if k == 0 {
        let t = s.take(1);
        assert(t[0] == s[0]);
        assert(t.drop_first() =~= Seq::<CanonValue>::empty());
        assert(cv_view_list(t.drop_first()) =~= Seq::<CanonData>::empty());
        assert(cv_view_list(t) =~= seq![cv_view(t[0])]);
        assert(s.take(0).len() == 0);
        assert(cv_view_list(s.take(0)) =~= Seq::<CanonData>::empty());
        assert(cv_view_list(t) =~= cv_view_list(s.take(0)) + seq![cv_view(s[0])]);
    } else {
        let a = s.take(k + 1);
        let b = s.take(k);
        assert(a.len() == k + 1);
        assert(b.len() == k);
        assert(a[0] == s[0]);
        assert(b[0] == s[0]);
        assert(a.drop_first() =~= s.drop_first().take(k));
        assert(b.drop_first() =~= s.drop_first().take(k - 1));
        assert(s.drop_first()[k - 1] == s[k]);
        lemma_cv_view_list_take(s.drop_first(), k - 1);
        assert(seq![cv_view(a[0])] + (cv_view_list(s.drop_first().take(k - 1))
                + seq![cv_view(s[k])])
            =~= (seq![cv_view(b[0])] + cv_view_list(s.drop_first().take(k - 1)))
                + seq![cv_view(s[k])]);
    }
}

/// The same, for object entries.
pub proof fn lemma_cv_view_entries_take(s: Seq<(Vec<u8>, CanonValue)>, k: int)
    requires
        0 <= k < s.len(),
    ensures
        cv_view_entries(s.take(k + 1)) == cv_view_entries(s.take(k))
            + seq![(s[k].0@, cv_view(s[k].1))],
    decreases k,
{
    if k == 0 {
        let t = s.take(1);
        assert(t[0] == s[0]);
        assert(t.drop_first() =~= Seq::<(Vec<u8>, CanonValue)>::empty());
        assert(cv_view_entries(t.drop_first()) =~= Seq::<(Seq<u8>, CanonData)>::empty());
        assert(cv_view_entries(t) =~= seq![(t[0].0@, cv_view(t[0].1))]);
        assert(s.take(0).len() == 0);
        assert(cv_view_entries(s.take(0)) =~= Seq::<(Seq<u8>, CanonData)>::empty());
        assert(cv_view_entries(t) =~= cv_view_entries(s.take(0))
            + seq![(s[0].0@, cv_view(s[0].1))]);
    } else {
        let a = s.take(k + 1);
        let b = s.take(k);
        assert(a[0] == s[0]);
        assert(b[0] == s[0]);
        assert(a.drop_first() =~= s.drop_first().take(k));
        assert(b.drop_first() =~= s.drop_first().take(k - 1));
        assert(s.drop_first()[k - 1] == s[k]);
        lemma_cv_view_entries_take(s.drop_first(), k - 1);
        assert(seq![(a[0].0@, cv_view(a[0].1))] + (cv_view_entries(s.drop_first().take(k - 1))
                + seq![(s[k].0@, cv_view(s[k].1))])
            =~= (seq![(b[0].0@, cv_view(b[0].1))] + cv_view_entries(s.drop_first().take(k - 1)))
                + seq![(s[k].0@, cv_view(s[k].1))]);
    }
}

/// Pushing a value appends its shape to the list view.
pub proof fn lemma_cv_view_list_push(s: Seq<CanonValue>, x: CanonValue)
    ensures
        cv_view_list(s.push(x)) == cv_view_list(s) + seq![cv_view(x)],
{
    let t = s.push(x);
    assert(t[t.len() - 1] == x);
    assert(t.take(t.len() as int) =~= t);
    assert(t.take(t.len() - 1) =~= s);
    lemma_cv_view_list_take(t, t.len() - 1);
}

/// Pushing an entry appends its shape to the entries view.
pub proof fn lemma_cv_view_entries_push(s: Seq<(Vec<u8>, CanonValue)>, x: (Vec<u8>, CanonValue))
    ensures
        cv_view_entries(s.push(x)) == cv_view_entries(s) + seq![(x.0@, cv_view(x.1))],
{
    let t = s.push(x);
    assert(t[t.len() - 1] == x);
    assert(t.take(t.len() as int) =~= t);
    assert(t.take(t.len() - 1) =~= s);
    lemma_cv_view_entries_take(t, t.len() - 1);
}

/// The empty list has the empty view.
pub proof fn lemma_cv_view_list_empty()
    ensures
        cv_view_list(Seq::<CanonValue>::empty()) == Seq::<CanonData>::empty(),
{
}

/// The empty entry sequence has the empty view.
pub proof fn lemma_cv_view_entries_empty()
    ensures
        cv_view_entries(Seq::<(Vec<u8>, CanonValue)>::empty()) == Seq::<(Seq<u8>, CanonData)>::empty(),
{
}

/// Encoding one more list element appends its bytes.
pub proof fn lemma_encode_list_take(s: Seq<CanonValue>, k: int)
    requires
        0 <= k < s.len(),
    ensures
        spec_encode_list(cv_view_list(s.take(k + 1)))
            == spec_encode_list(cv_view_list(s.take(k))) + spec_encode(cv_view(s[k])),
{
    lemma_cv_view_list_take(s, k);
    lemma_encode_list_concat(cv_view_list(s.take(k)), seq![cv_view(s[k])]);
    let single = seq![cv_view(s[k])];
    assert(single.drop_first() =~= Seq::<CanonData>::empty());
    assert(spec_encode_list(Seq::<CanonData>::empty()) == Seq::<u8>::empty());
    assert(spec_encode_list(single) == spec_encode(single[0])
        + spec_encode_list(single.drop_first()));
    assert(spec_encode_list(single) =~= spec_encode(cv_view(s[k])));
}

/// Encoding one more object entry appends its bytes.
pub proof fn lemma_encode_entries_take(s: Seq<(Vec<u8>, CanonValue)>, k: int)
    requires
        0 <= k < s.len(),
    ensures
        spec_encode_entries(cv_view_entries(s.take(k + 1)))
            == spec_encode_entries(cv_view_entries(s.take(k)))
                + be_bytes(s[k].0@.len() as u64) + s[k].0@ + spec_encode(cv_view(s[k].1)),
{
    lemma_cv_view_entries_take(s, k);
    lemma_encode_entries_concat(cv_view_entries(s.take(k)), seq![(s[k].0@, cv_view(s[k].1))]);
    let e = seq![(s[k].0@, cv_view(s[k].1))];
    assert(e.drop_first() =~= Seq::<(Seq<u8>, CanonData)>::empty());
    assert(spec_encode_entries(Seq::<(Seq<u8>, CanonData)>::empty()) == Seq::<u8>::empty());
    assert(spec_encode_entries(e) == be_bytes(e[0].0.len() as u64) + e[0].0
        + spec_encode(e[0].1) + spec_encode_entries(e.drop_first()));
    assert(spec_encode_entries(e) =~= be_bytes(s[k].0@.len() as u64) + s[k].0@
        + spec_encode(cv_view(s[k].1)));
    assert(spec_encode_entries(cv_view_entries(s.take(k))) + spec_encode_entries(e)
        =~= spec_encode_entries(cv_view_entries(s.take(k))) + be_bytes(s[k].0@.len() as u64)
            + s[k].0@ + spec_encode(cv_view(s[k].1)));
}

/// Appends the eight big-endian bytes of `n`.
pub fn write_u64(out: &mut Vec<u8>, n: u64)
    ensures
        final(out)@ == old(out)@ + be_bytes(n),
{
    out.push((n >> 56) as u8);
    out.push((n >> 48) as u8);
    out.push((n >> 40) as u8);
    out.push((n >> 32) as u8);
    out.push((n >> 24) as u8);
    out.push((n >> 16) as u8);
    out.push((n >> 8) as u8);
    out.push(n as u8);
    proof {
        assert(out@ =~= old(out)@ + be_bytes(n));
    }
}

/// Appends a copy of the given bytes.
pub fn write_bytes(out: &mut Vec<u8>, b: &Vec<u8>)
    ensures
        final(out)@ == old(out)@ + b@,
{
    let n = b.len();
    let mut i: usize = 0;
    while i < n
        invariant
            n == b@.len(),
            i <= n,
            out@ == old(out)@ + b@.take(i as int),
        decreases n - i,
    {
        out.push(b[i]);
        proof {
            assert(out@ =~= old(out)@ + b@.take(i + 1));
        }
        i += 1;
    }
    proof {
        assert(b@.take(n as int) =~= b@);
    }
}

/// Appends the canonical bytes of `v`.
fn write_value(v: &CanonValue, out: &mut Vec<u8>)
    ensures
        final(out)@ == old(out)@ + spec_encode(cv_view(*v)),
    decreases *v,
{
    match v {
        CanonValue::Null => {
            out.push(0u8);
            proof {
                assert(out@ =~= old(out)@ + spec_encode(cv_view(*v)));
            }
        },
        CanonValue::Bool(b) => {
            out.push(1u8);
            out.push(if *b { 1u8 } else { 0u8 });
            proof {
                assert(out@ =~= old(out)@ + spec_encode(cv_view(*v)));
            }
        },
        CanonValue::U64(n) => {
            out.push(2u8);
            write_u64(out, *n);
            proof {
                assert(out@ =~= old(out)@ + spec_encode(cv_view(*v)));
            }
        },
        CanonValue::I64(n) => {
            out.push(3u8);
            write_u64(out, *n as u64);
            proof {
                assert(out@ =~= old(out)@ + spec_encode(cv_view(*v)));
            }
        },
        CanonValue::Text(t) => {
            out.push(4u8);
            write_u64(out, t.len() as u64);
            write_bytes(out, t);
            proof {
                assert(out@ =~= old(out)@ + spec_encode(cv_view(*v)));
            }
        },
        CanonValue::Blob(b) => {
            out.push(5u8);
            write_u64(out, b.len() as u64);
            write_bytes(out, b);
            proof {
                assert(out@ =~= old(out)@ + spec_encode(cv_view(*v)));
            }
        },
        CanonValue::List(items) => {
            out.push(6u8);
            write_u64(out, items.len() as u64);
            let ghost base = out@;
            let n = items.len();
            let mut k: usize = 0;
            while k < n
                invariant
                    *v == CanonValue::List(*items),
                    n == items@.len(),
                    k <= n,
                    base == old(out)@ + seq![6u8] + be_bytes(n as u64),
                    out@ == base + spec_encode_list(cv_view_list(items@.take(k as int))),
                decreases n - k,
            {
                proof {
                    assert((*v)->List_0 == *items);
                    assert(decreases_to!(*v => (*v)->List_0));
                    assert(decreases_to!(*items => items@));
                    assert(decreases_to!(items@ => items@[k as int]));
                    assert(decreases_to!(*v => items@[k as int]));
                }
                write_value(&items[k], out);
                proof {
                    lemma_encode_list_take(items@, k as int);
                    assert(out@ =~= base + spec_encode_list(cv_view_list(items@.take(k + 1))));
                }
                k += 1;
            }
            proof {
                assert(items@.take(n as int) =~= items@);
                lemma_cv_view_list_len(items@);
                assert(out@ =~= old(out)@ + spec_encode(cv_view(*v)));
            }
        },
        CanonValue::Object(es) => {
            out.push(7u8);
            write_u64(out, es.len() as u64);
            let ghost base = out@;
            let n = es.len();
            let mut k: usize = 0;
            while k < n
                invariant
                    *v == CanonValue::Object(*es),
                    n == es@.len(),
                    k <= n,
                    base == old(out)@ + seq![7u8] + be_bytes(n as u64),
                    out@ == base + spec_encode_entries(cv_view_entries(es@.take(k as int))),
                decreases n - k,
            {
                proof {
                    assert((*v)->Object_0 == *es);
                    assert(decreases_to!(*v => (*v)->Object_0));
                    assert(decreases_to!(*es => es@));
                    assert(decreases_to!(es@ => es@[k as int]));
                    assert(decreases_to!(es@[k as int] => es@[k as int].1));
                    assert(decreases_to!(*v => es@[k as int].1));
                }
                write_u64(out, es[k].0.len() as u64);
                write_bytes(out, &es[k].0);
                write_value(&es[k].1, out);
                proof {
                    lemma_encode_entries_take(es@, k as int);
                    assert(out@ =~= base
                        + spec_encode_entries(cv_view_entries(es@.take(k + 1))));
                }
                k += 1;
            }
            proof {
                assert(es@.take(n as int) =~= es@);
                lemma_cv_view_entries_len(es@);
                assert(out@ =~= old(out)@ + spec_encode(cv_view(*v)));
            }
        },
    }
}

/// The canonical bytes of a value.
pub fn canonical_serialize(v: &CanonValue) -> (r: Vec<u8>)
    ensures
        r@ == spec_encode(cv_view(*v)),
{
    let mut out: Vec<u8> = Vec::new();
    write_value(v, &mut out);
    proof {
        assert(out@ =~= spec_encode(cv_view(*v)));
    }
    out
}


/// Canonical serialization errors.
#[derive(Clone, Debug, PartialEq, Eq)]
pub enum CanonicalError {
    /// Writing the canonical bytes failed.
    SerializationFailed(String),
    /// The value would not encode deterministically.
    NonDeterministic(String),
}

/// The result of a canonical operation.
pub type CanonicalResult<T> = core::result::Result<T, CanonicalError>;

/// The canonical byte encoder: a fixed, self-delimiting form with sorted
/// object keys, stable across runs. Despite the name, the form is a tagged
/// binary encoding, not JSON text.
pub struct CanonicalJson;

impl CanonicalJson {
    /// The canonical bytes of a value; encoding a canonical value never
    /// fails.
    pub fn serialize_bytes(value: &CanonValue) -> (r: CanonicalResult<Vec<u8>>)
        ensures
            r matches Ok(b) && b@ == spec_encode(cv_view(*value)),
    {
        Ok(canonical_serialize(value))
    }
}


/// Reads the eight big-endian bytes at `pos` back into a number.
fn read_u64_at(bytes: &[u8], pos: usize) -> (r: Option<(u64, usize)>)
    requires
        pos <= bytes@.len(),
    ensures
        r matches Some((n, p)) ==> p == pos + 8 && p <= bytes@.len()
            && bytes@.subrange(pos as int, p as int) == be_bytes(n),
        r is None ==> bytes@.len() < pos + 8,
{
    let len = bytes.len();
    if len - pos < 8 {
        return None;
    }
    let b0 = bytes[pos] as u64;
    let b1 = bytes[pos + 1] as u64;
    let b2 = bytes[pos + 2] as u64;
    let b3 = bytes[pos + 3] as u64;
    let b4 = bytes[pos + 4] as u64;
    let b5 = bytes[pos + 5] as u64;
    let b6 = bytes[pos + 6] as u64;
    let b7 = bytes[pos + 7] as u64;
    let n = (b0 << 56) | (b1 << 48) | (b2 << 40) | (b3 << 32) | (b4 << 24) | (b5 << 16)
        | (b6 << 8) | b7;
    proof {
        assert(b0 < 256 && b1 < 256 && b2 < 256 && b3 < 256 && b4 < 256 && b5 < 256
            && b6 < 256 && b7 < 256);
        assert({
            let m = (b0 << 56) | (b1 << 48) | (b2 << 40) | (b3 << 32) | (b4 << 24)
                | (b5 << 16) | (b6 << 8) | b7;
            b0 < 256 && b1 < 256 && b2 < 256 && b3 < 256 && b4 < 256 && b5 < 256
                && b6 < 256 && b7 < 256 ==> {
                &&& (m >> 56) as u8 == b0 as u8
                &&& (m >> 48) as u8 == b1 as u8
                &&& (m >> 40) as u8 == b2 as u8
                &&& (m >> 32) as u8 == b3 as u8
                &&& (m >> 24) as u8 == b4 as u8
                &&& (m >> 16) as u8 == b5 as u8
                &&& (m >> 8) as u8 == b6 as u8
                &&& m as u8 == b7 as u8
            }
        }) by (bit_vector);
        assert(bytes@.subrange(pos as int, pos + 8) =~= be_bytes(n));
    }
    Some((n, pos + 8))
}

/// The bytes of the given range, as a vector.
fn copy_range(bytes: &[u8], start: usize, len: usize) -> (r: Vec<u8>)
    requires
        start + len <= bytes@.len(),
        start + len <= usize::MAX,
    ensures
        r@ == bytes@.subrange(start as int, start + len),
{
    let mut out: Vec<u8> = Vec::new();
    let mut i: usize = 0;
    while i < len
        invariant
            start + len <= bytes@.len(),
            start + len <= usize::MAX,
            i <= len,
            out@ == bytes@.subrange(start as int, start + i),
        decreases len - i,
    {
        out.push(bytes[start + i]);
        proof {
            assert(out@ =~= bytes@.subrange(start as int, start + i + 1));
        }
        i += 1;
    }
    out
}

/// Reads one canonical value at `pos`. A parsed value's bytes are exactly
/// the canonical encoding of the value returned — the decoder accepts
/// nothing else.
#[verifier::rlimit(100)]
#[verifier::spinoff_prover]
fn decode_at(bytes: &[u8], pos: usize) -> (r: Option<(CanonValue, usize)>)
    requires
        pos <= bytes@.len(),
    ensures
        r matches Some((v, p)) ==> pos < p <= bytes@.len()
            && bytes@.subrange(pos as int, p as int) == spec_encode(cv_view(v)),
    decreases bytes@.len() - pos,
{
    let len = bytes.len();
    if pos >= len {
        return None;
    }
    let tag = bytes[pos];
    if tag == 0 {
        proof {
            assert(bytes@.subrange(pos as int, pos + 1) =~= spec_encode(CanonData::Null));
        }
        return Some((CanonValue::Null, pos + 1));
    }
    if tag == 1 {
        if pos + 1 >= len {
            return None;
        }
        let b = bytes[pos + 1];
        if b != 0 && b != 1 {
            return None;
        }
        let v = CanonValue::Bool(b == 1);
        proof {
            assert(bytes@.subrange(pos as int, pos + 2) =~= spec_encode(cv_view(v)));
        }
        return Some((v, pos + 2));
    }
    if tag == 2 {
        let (n, p) = match read_u64_at(bytes, pos + 1) {
            Option::Some(x) => x,
            Option::None => {
                return None;
            },
        };
        let v = CanonValue::U64(n);
        proof {
            assert(bytes@.subrange(pos as int, p as int) =~= spec_encode(cv_view(v)));
        }
        return Some((v, p));
    }
    if tag == 3 {
        let (n, p) = match read_u64_at(bytes, pos + 1) {
            Option::Some(x) => x,
            Option::None => {
                return None;
            },
        };
        let v = CanonValue::I64(n as i64);
        proof {
            assert((n as i64) as u64 == n) by (bit_vector);
            assert(bytes@.subrange(pos as int, p as int) =~= spec_encode(cv_view(v)));
        }
        return Some((v, p));
    }
    if tag == 4 || tag == 5 {
        let (l, p) = match read_u64_at(bytes, pos + 1) {
            Option::Some(x) => x,
            Option::None => {
                return None;
            },
        };
        if l > (len - p) as u64 {
            return None;
        }
        let l = l as usize;
        let data = copy_range(bytes, p, l);
        let v = if tag == 4 {
            CanonValue::Text(data)
        } else {
            CanonValue::Blob(data)
        };
        proof {
            assert(bytes@.subrange(pos as int, p + l as int)
                =~= spec_encode(cv_view(v)));
        }
        return Some((v, p + l));
    }
    if tag == 6 {
        let (count, p0) = match read_u64_at(bytes, pos + 1) {
            Option::Some(x) => x,
            Option::None => {
                return None;
            },
        };
        let mut items: Vec<CanonValue> = Vec::new();
        let mut cur = p0;
        let mut k: u64 = 0;
        proof {
            assert(spec_encode_list(cv_view_list(items@))
                =~= bytes@.subrange(p0 as int, cur as int));
        }
        while k < count
            invariant
                pos < p0 <= cur <= bytes@.len(),
                k <= count,
                items@.len() == k,
                spec_encode_list(cv_view_list(items@))
                    == bytes@.subrange(p0 as int, cur as int),
            decreases count - k,
        {
            let (item, next) = match decode_at(bytes, cur) {
                Option::Some(x) => x,
                Option::None => {
                    return None;
                },
            };
            let ghost old_items = items@;
            items.push(item);
            proof {
                let x = items@[items@.len() - 1];
                assert(items@ == old_items.push(x));
                assert(items@.take(items@.len() - 1) =~= old_items);
                assert(items@.take(items@.len() as int) =~= items@);
                lemma_encode_list_take(items@, items@.len() - 1);
                assert(bytes@.subrange(p0 as int, next as int)
                    =~= bytes@.subrange(p0 as int, cur as int)
                        + bytes@.subrange(cur as int, next as int));
                assert(spec_encode_list(cv_view_list(items@))
                    =~= bytes@.subrange(p0 as int, next as int));
            }
            cur = next;
            k = k + 1;
        }
        let v = CanonValue::List(items);
        proof {
            lemma_cv_view_list_len(items@);
            assert(bytes@.subrange(pos as int, cur as int)
                =~= bytes@.subrange(pos as int, p0 as int)
                    + bytes@.subrange(p0 as int, cur as int));
            assert(bytes@.subrange(pos as int, p0 as int)
                =~= seq![6u8] + be_bytes(count));
            assert(bytes@.subrange(pos as int, cur as int) =~= spec_encode(cv_view(v)));
        }
        return Some((v, cur));
    }
    if tag == 7 {
        let (count, p0) = match read_u64_at(bytes, pos + 1) {
            Option::Some(x) => x,
            Option::None => {
                return None;
            },
        };
        let mut es: Vec<(Vec<u8>, CanonValue)> = Vec::new();
        let mut cur = p0;
        let mut k: u64 = 0;
        proof {
            assert(spec_encode_entries(cv_view_entries(es@))
                =~= bytes@.subrange(p0 as int, cur as int));
        }
        while k < count
            invariant
                pos < p0 <= cur <= bytes@.len(),
                k <= count,
                es@.len() == k,
                spec_encode_entries(cv_view_entries(es@))
                    == bytes@.subrange(p0 as int, cur as int),
            decreases count - k,
        {
            let (kl, pk) = match read_u64_at(bytes, cur) {
                Option::Some(x) => x,
                Option::None => {
                    return None;
                },
            };
            if kl > (bytes.len() - pk) as u64 {
                return None;
            }
            let kl = kl as usize;
            let key = copy_range(bytes, pk, kl);
            let vstart = pk + kl;
            let (value, next) = match decode_at(bytes, vstart) {
                Option::Some(x) => x,
                Option::None => {
                    return None;
                },
            };
            let ghost old_es = es@;
            es.push((key, value));
            proof {
                let x = es@[es@.len() - 1];
                assert(es@ == old_es.push(x));
                assert(es@.take(es@.len() - 1) =~= old_es);
                assert(es@.take(es@.len() as int) =~= es@);
                lemma_encode_entries_take(es@, es@.len() - 1);
                assert(bytes@.subrange(cur as int, next as int)
                    =~= bytes@.subrange(cur as int, pk as int)
                        + bytes@.subrange(pk as int, vstart as int)
                        + bytes@.subrange(vstart as int, next as int));
                assert(bytes@.subrange(p0 as int, next as int)
                    =~= bytes@.subrange(p0 as int, cur as int)
                        + bytes@.subrange(cur as int, next as int));
                assert(spec_encode_entries(cv_view_entries(es@))
                    =~= bytes@.subrange(p0 as int, next as int));
            }
            cur = next;
            k = k + 1;
        }
        let v = CanonValue::Object(es);
        proof {
            lemma_cv_view_entries_len(es@);
            assert(bytes@.subrange(pos as int, cur as int)
                =~= bytes@.subrange(pos as int, p0 as int)
                    + bytes@.subrange(p0 as int, cur as int));
            assert(bytes@.subrange(pos as int, p0 as int)
                =~= seq![7u8] + be_bytes(count));
            assert(bytes@.subrange(pos as int, cur as int) =~= spec_encode(cv_view(v)));
        }
        return Some((v, cur));
    }
    None
}

/// Reads canonical bytes back into a value. Whatever it returns encodes to
/// exactly the input, so a successful read of `canonical_serialize(v)`
/// yields a value with the same canonical form as `v`.
pub fn canonical_deserialize(bytes: &[u8]) -> (r: Option<CanonValue>)
    ensures
        r matches Some(v) ==> bytes@ == spec_encode(cv_view(v)),
{
    match decode_at(bytes, 0) {
        Option::Some((v, p)) => {
            if p == bytes.len() {
                proof {
                    assert(bytes@.subrange(0, bytes@.len() as int) =~= bytes@);
                }
                Some(v)
            } else {
                None
            }
        },
        Option::None => None,
    }
}

} // verus!
