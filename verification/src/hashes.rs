//! Stable content hashes.
//!
//! A [`Hash`] is the 32-byte BLAKE3 digest of a byte string — most often the
//! canonical encoding of a value (see [`crate::canon`]). Hex text is 64
//! lowercase characters. The all-zero hash is a reserved sentinel meaning
//! "no prior state".

use vstd::prelude::*;
use vstd::string::StrSliceExecFns;
use vstd::string::StringSliceAdditionalSpecFns;
use crate::canon::{CanonValue, canonical_serialize, cv_view, spec_encode};
use crate::errors::HashError;

verus! {

/// The digest BLAKE3 assigns to a byte string.
pub uninterp spec fn blake3_of(data: Seq<u8>) -> Seq<u8>;

/// Relies on blake3::hash: a 32-byte digest that is a function of the input
/// bytes alone.
#[verifier::external_body]
fn blake3_digest(data: &[u8]) -> (r: Vec<u8>)
    ensures
        r@ == blake3_of(data@),
        r@.len() == 32,
{
    blake3::hash(data).as_bytes().to_vec()
}

/// Relies on String::push: appends one character.
#[verifier::external_body]
pub(crate) fn push_char(s: &mut String, c: char)
    ensures
        final(s)@ == old(s)@.push(c),
{
    s.push(c);
}

/// The all-zero digest.
pub open spec fn zero_hash() -> Seq<u8> {
    Seq::new(32, |i: int| 0u8)
}

/// The lowercase hex character of a value below sixteen.
pub open spec fn hex_digit(d: u8) -> char {
    if d == 0 { '0' } else if d == 1 { '1' } else if d == 2 { '2' } else if d == 3 { '3' }
    else if d == 4 { '4' } else if d == 5 { '5' } else if d == 6 { '6' } else if d == 7 { '7' }
    else if d == 8 { '8' } else if d == 9 { '9' } else if d == 10 { 'a' } else if d == 11 { 'b' }
    else if d == 12 { 'c' } else if d == 13 { 'd' } else if d == 14 { 'e' } else { 'f' }
}

/// The value of a lowercase hex character, or -1.
pub open spec fn hex_val(c: char) -> int {
    if c == '0' { 0 } else if c == '1' { 1 } else if c == '2' { 2 } else if c == '3' { 3 }
    else if c == '4' { 4 } else if c == '5' { 5 } else if c == '6' { 6 } else if c == '7' { 7 }
    else if c == '8' { 8 } else if c == '9' { 9 } else if c == 'a' { 10 } else if c == 'b' { 11 }
    else if c == 'c' { 12 } else if c == 'd' { 13 } else if c == 'e' { 14 } else if c == 'f' { 15 }
    else { -1 }
}

/// The hex text of a byte string: two characters per byte.
pub open spec fn hex_of(b: Seq<u8>) -> Seq<char> {
    Seq::new(b.len() * 2, |i: int|
        if i % 2 == 0 { hex_digit(b[i / 2] / 16) } else { hex_digit(b[i / 2] % 16) })
}

/// Whether every character is a lowercase hex digit.
pub open spec fn valid_hex(s: Seq<char>) -> bool {
    forall|i: int| 0 <= i < s.len() ==> hex_val(s[i]) >= 0
}

/// The bytes a hex text stands for.
pub open spec fn unhex(s: Seq<char>) -> Seq<u8> {
    Seq::new(s.len() / 2, |i: int| (hex_val(s[2 * i]) * 16 + hex_val(s[2 * i + 1])) as u8)
}

/// Reading back the hex text of any byte string yields the bytes: hex
/// encoding and decoding are inverse.
pub proof fn lemma_hex_round_trip(b: Seq<u8>)
    ensures
        hex_of(b).len() == b.len() * 2,
        valid_hex(hex_of(b)),
        unhex(hex_of(b)) == b,
{
    let h = hex_of(b);
    assert forall|i: int| 0 <= i < h.len() implies hex_val(h[i]) >= 0 by {
        if i % 2 == 0 {
            assert(h[i] == hex_digit(b[i / 2] / 16));
        } else {
            assert(h[i] == hex_digit(b[i / 2] % 16));
        }
    }
    assert forall|i: int| 0 <= i < b.len() implies unhex(h)[i] == b[i] by {
        assert(h[2 * i] == hex_digit(b[i] / 16));
        assert(h[2 * i + 1] == hex_digit(b[i] % 16));
        assert(hex_val(hex_digit(b[i] / 16)) == b[i] / 16);
        assert(hex_val(hex_digit(b[i] % 16)) == b[i] % 16);
        assert((b[i] / 16) * 16 + b[i] % 16 == b[i]);
    }
    assert(unhex(h) =~= b);
}

/// A 32-byte content hash.
#[derive(Debug)]
pub struct Hash {
    bytes: Vec<u8>,
}

impl View for Hash {
    type V = Seq<u8>;

    closed spec fn view(&self) -> Seq<u8> {
        self.bytes@
    }
}

impl Hash {
    /// Every hash holds exactly 32 bytes.
    #[verifier::type_invariant]
    closed spec fn type_inv(self) -> bool {
        self.bytes@.len() == 32
    }

    /// The digest of raw bytes.
    pub fn from_bytes(data: &[u8]) -> (r: Self)
        ensures
            r@ == blake3_of(data@),
            r@.len() == 32,
    {
        Hash { bytes: blake3_digest(data) }
    }

    /// The digest of the UTF-8 bytes of a string.
    pub fn from_str(s: &str) -> (r: Self)
        ensures
            r@ == blake3_of(s.spec_bytes()),
            r@.len() == 32,
    {
        Hash::from_bytes(s.as_bytes())
    }

    /// The digest of the canonical encoding of a value.
    pub fn from_canonical(v: &CanonValue) -> (r: Self)
        ensures
            r@ == blake3_of(spec_encode(cv_view(*v))),
            r@.len() == 32,
    {
        let bytes = canonical_serialize(v);
        Hash::from_bytes(bytes.as_slice())
    }

    /// A hash from its 32 raw bytes.
    pub fn from_raw(bytes: [u8; 32]) -> (r: Self)
        ensures
            r@ == bytes@,
    {
        let mut v: Vec<u8> = Vec::new();
        let mut i: usize = 0;
        while i < 32
            invariant
                i <= 32,
                v@ == bytes@.take(i as int),
            decreases 32 - i,
        {
            v.push(bytes[i]);
            proof {
                assert(v@ =~= bytes@.take(i + 1));
            }
            i += 1;
        }
        proof {
            assert(bytes@.take(32) =~= bytes@);
        }
        Hash { bytes: v }
    }

    /// The all-zero sentinel hash.
    pub fn zero() -> (r: Self)
        ensures
            r@ == zero_hash(),
    {
        let mut v: Vec<u8> = Vec::new();
        let mut i: usize = 0;
        while i < 32
            invariant
                i <= 32,
                v@.len() == i,
                forall|j: int| 0 <= j < i ==> v@[j] == 0u8,
            decreases 32 - i,
        {
            v.push(0u8);
            i += 1;
        }
        proof {
            assert(v@ =~= zero_hash());
        }
        Hash { bytes: v }
    }

    /// The hash bytes.
    pub fn as_bytes(&self) -> (r: &[u8])
        ensures
            r@ == self@,
    {
        self.bytes.as_slice()
    }

    /// Whether this is the all-zero sentinel.
    pub fn is_zero(&self) -> (b: bool)
        ensures
            b == (self@ == zero_hash()),
    {
        proof {
            use_type_invariant(self);
        }
        let n = self.bytes.len();
        let mut i: usize = 0;
        while i < n
            invariant
                n == self@.len(),
                n == 32,
                i <= n,
                forall|j: int| 0 <= j < i ==> self@[j] == 0u8,
            decreases n - i,
        {
            if self.bytes[i] != 0 {
                proof {
                    assert(self@[i as int] != zero_hash()[i as int]);
                }
                return false;
            }
            i += 1;
        }
        proof {
            assert(self@ =~= zero_hash());
        }
        true
    }

    /// The 64-character lowercase hex text of this hash.
    pub fn to_hex(&self) -> (r: String)
        ensures
            r@ == hex_of(self@),
            r@.len() == 64,
    {
        proof {
            use_type_invariant(self);
        }
        let n = self.bytes.len();
        let mut r = String::new();
        let mut i: usize = 0;
        while i < n
            invariant
                n == self@.len(),
                n == 32,
                i <= n,
                r@ == hex_of(self@).take(2 * i as int),
            decreases n - i,
        {
            let b = self.bytes[i];
            let hi = hex_digit_char(b / 16);
            let lo = hex_digit_char(b % 16);
            push_char(&mut r, hi);
            push_char(&mut r, lo);
            proof {
                assert(r@ =~= hex_of(self@).take(2 * (i + 1)));
            }
            i += 1;
        }
        proof {
            assert(hex_of(self@).take(64) =~= hex_of(self@));
        }
        r
    }

    /// Reads a hash back from 64 lowercase hex characters; rejects any other
    /// text.
    pub fn from_hex(hex: &str) -> (r: Result<Self, HashError>)
        ensures
            match r {
                Ok(h) => hex@.len() == 64 && valid_hex(hex@) && h@ == unhex(hex@)
                    && h@.len() == 32,
                Err(e) => (hex@.len() != 64 || !valid_hex(hex@)) && (e matches
                    HashError::InvalidFormat(_)),
            },
    {
        let n = hex.unicode_len();
        if n != 64 {
            return Err(HashError::InvalidFormat(String::from_str(
                "expected 64 hex characters")));
        }
        let mut bytes: Vec<u8> = Vec::new();
        let mut i: usize = 0;
        while i < 32
            invariant
                hex@.len() == 64,
                i <= 32,
                bytes@.len() == i,
                forall|j: int| 0 <= j < 2 * i ==> hex_val(hex@[j]) >= 0,
                forall|j: int| 0 <= j < i ==> bytes@[j] == unhex(hex@)[j],
            decreases 32 - i,
        {
            let hi = hex.get_char(2 * i);
            let lo = hex.get_char(2 * i + 1);
            let hv = match hex_char_val(hi) {
                Some(d) => d,
                None => {
                    return Err(HashError::InvalidFormat(String::from_str(
                        "not a lowercase hex character")));
                },
            };
            let lv = match hex_char_val(lo) {
                Some(d) => d,
                None => {
                    return Err(HashError::InvalidFormat(String::from_str(
                        "not a lowercase hex character")));
                },
            };
            bytes.push(hv * 16 + lv);
            i += 1;
        }
        proof {
            assert(bytes@ =~= unhex(hex@));
        }
        Ok(Hash { bytes })
    }
}

impl Clone for Hash {
    /// A clone holds the same bytes.
    fn clone(&self) -> (r: Self)
        ensures
            r@ == self@,
    {
        proof {
            use_type_invariant(self);
        }
        Hash { bytes: self.bytes.clone() }
    }
}

impl PartialEq for Hash {
    fn eq(&self, other: &Self) -> (r: bool) {
        proof {
            use_type_invariant(self);
            use_type_invariant(other);
        }
        let n = self.bytes.len();
        if n != other.bytes.len() {
            return false;
        }
        let mut i: usize = 0;
        while i < n
            invariant
                n == self@.len(),
                n == other@.len(),
                i <= n,
                forall|j: int| 0 <= j < i ==> self@[j] == other@[j],
            decreases n - i,
        {
            if self.bytes[i] != other.bytes[i] {
                return false;
            }
            i += 1;
        }
        proof {
            assert(self@ =~= other@);
        }
        true
    }
}

impl Eq for Hash {}

impl vstd::std_specs::cmp::PartialEqSpecImpl for Hash {
    open spec fn obeys_eq_spec() -> bool {
        true
    }

    open spec fn eq_spec(&self, other: &Hash) -> bool {
        self@ == other@
    }
}

/// The lowercase hex character of a value below sixteen.
pub(crate) fn hex_digit_char(d: u8) -> (c: char)
    requires
        d < 16,
    ensures
        c == hex_digit(d),
{
    match d {
        0 => '0', 1 => '1', 2 => '2', 3 => '3', 4 => '4', 5 => '5', 6 => '6', 7 => '7',
        8 => '8', 9 => '9', 10 => 'a', 11 => 'b', 12 => 'c', 13 => 'd', 14 => 'e', _ => 'f',
    }
}

/// The value of a lowercase hex character, if it is one.
pub(crate) fn hex_char_val(c: char) -> (r: Option<u8>)
    ensures
        match r {
            Some(d) => d < 16 && hex_val(c) == d,
            None => hex_val(c) < 0,
        },
{
    match c {
        '0' => Some(0), '1' => Some(1), '2' => Some(2), '3' => Some(3), '4' => Some(4),
        '5' => Some(5), '6' => Some(6), '7' => Some(7), '8' => Some(8), '9' => Some(9),
        'a' => Some(10), 'b' => Some(11), 'c' => Some(12), 'd' => Some(13), 'e' => Some(14),
        'f' => Some(15), _ => None,
    }
}

/// The concatenation of the bytes of a sequence of hashes.
pub open spec fn concat_hash_bytes(s: Seq<Hash>) -> Seq<u8>
    decreases s.len(),
{
    if s.len() == 0 {
        Seq::empty()
    } else {
        s[0]@ + concat_hash_bytes(s.drop_first())
    }
}

/// One more hash appends its bytes.
pub proof fn lemma_concat_hash_bytes_take(s: Seq<Hash>, k: int)
    requires
        0 <= k < s.len(),
    ensures
        concat_hash_bytes(s.take(k + 1)) == concat_hash_bytes(s.take(k)) + s[k]@,
    decreases k,
{
    if k == 0 {
        let t = s.take(1);
        assert(t[0] == s[0]);
        assert(t.drop_first() =~= Seq::<Hash>::empty());
        assert(concat_hash_bytes(t.drop_first()) =~= Seq::<u8>::empty());
        assert(s.take(0).len() == 0);
        assert(concat_hash_bytes(s.take(0)) =~= Seq::<u8>::empty());
        assert(concat_hash_bytes(t) =~= concat_hash_bytes(s.take(0)) + s[0]@);
    } else {
        let a = s.take(k + 1);
        let b = s.take(k);
        assert(a[0] == s[0]);
        assert(b[0] == s[0]);
        assert(a.drop_first() =~= s.drop_first().take(k));
        assert(b.drop_first() =~= s.drop_first().take(k - 1));
        assert(s.drop_first()[k - 1] == s[k]);
        lemma_concat_hash_bytes_take(s.drop_first(), k - 1);
        assert(a[0]@ + (concat_hash_bytes(s.drop_first().take(k - 1)) + s[k]@)
            =~= (b[0]@ + concat_hash_bytes(s.drop_first().take(k - 1))) + s[k]@);
    }
}

/// The digest of the concatenated hashes — order matters.
pub fn combine_hashes(hashes: &[Hash]) -> (r: Hash)
    ensures
        r@ == blake3_of(concat_hash_bytes(hashes@)),
{
    let n = hashes.len();
    let mut data: Vec<u8> = Vec::new();
    let mut i: usize = 0;
    while i < n
        invariant
            n == hashes@.len(),
            i <= n,
            data@ == concat_hash_bytes(hashes@.take(i as int)),
        decreases n - i,
    {
        let h = &hashes[i];
        let hb = h.as_bytes();
        let m = hb.len();
        let mut j: usize = 0;
        while j < m
            invariant
                m == hb@.len(),
                j <= m,
                hb@ == hashes@[i as int]@,
                i < n,
                n == hashes@.len(),
                data@ == concat_hash_bytes(hashes@.take(i as int)) + hb@.take(j as int),
            decreases m - j,
        {
            data.push(hb[j]);
            proof {
                assert(data@ =~= concat_hash_bytes(hashes@.take(i as int))
                    + hb@.take(j + 1));
            }
            j += 1;
        }
        proof {
            lemma_concat_hash_bytes_take(hashes@, i as int);
            assert(hb@.take(m as int) =~= hb@);
            assert(data@ =~= concat_hash_bytes(hashes@.take(i + 1)));
        }
        i += 1;
    }
    proof {
        assert(hashes@.take(n as int) =~= hashes@);
    }
    Hash::from_bytes(data.as_slice())
}

/// The concatenated bytes of three hashes, unrolled.
pub proof fn lemma_concat_three(s: Seq<Hash>)
    requires
        s.len() == 3,
    ensures
        concat_hash_bytes(s) == s[0]@ + s[1]@ + s[2]@,
{
    let t1 = s.drop_first();
    let t2 = t1.drop_first();
    let t3 = t2.drop_first();
    assert(t1.len() == 2);
    assert(t2.len() == 1);
    assert(t3.len() == 0);
    assert(concat_hash_bytes(t3) == Seq::<u8>::empty());
    assert(concat_hash_bytes(t2) == t2[0]@ + concat_hash_bytes(t3));
    assert(concat_hash_bytes(t1) == t1[0]@ + concat_hash_bytes(t2));
    assert(t1[0] == s[1]);
    assert(t2[0] == s[2]);
    assert(concat_hash_bytes(s) =~= s[0]@ + s[1]@ + s[2]@);
}

/// The digest binding a state transition: previous state, event, next state,
/// in that order.
pub fn transition_hash(prev_state: Hash, event: Hash, next_state: Hash) -> (r: Hash)
    ensures
        r@ == blake3_of(prev_state@ + event@ + next_state@),
{
    let ghost a = prev_state;
    let ghost b = event;
    let ghost c = next_state;
    let hs: Vec<Hash> = vec![prev_state, event, next_state];
    let r = combine_hashes(hs.as_slice());
    proof {
        assert(hs@ =~= seq![a, b, c]);
        lemma_concat_three(hs@);
    }
    r
}

} // verus!
