//! Capabilities: hierarchical, colon-separated permission names, checked
//! before every tool dispatch. A set of capabilities is fixed for the
//! duration of a run.

use vstd::prelude::*;
use vstd::string::StrSliceExecFns;
use crate::kv::{StrMap, has_key};
use crate::order::str_eq;

verus! {

/// The position of the first colon at or after `i`, or the length.
pub open spec fn first_colon(s: Seq<char>, i: int) -> int
    recommends
        0 <= i <= s.len(),
    decreases s.len() - i,
{
    if i < 0 || i >= s.len() {
        s.len() as int
    } else if s[i] == ':' {
        i
    } else {
        first_colon(s, i + 1)
    }
}

/// The colon-separated components of a name.
pub open spec fn split_colon(s: Seq<char>) -> Seq<Seq<char>>
    decreases s.len(),
{
    let j = first_colon(s, 0);
    if j < 0 || j >= s.len() {
        seq![s]
    } else {
        seq![s.take(j)] + split_colon(s.skip(j + 1))
    }
}

/// Componentwise matching: every component of the pattern is `*` or equals
/// the corresponding component of the capability; a pattern with more
/// components than the capability matches only where its extra components
/// are `*`.
pub open spec fn cap_matches(c: Seq<char>, p: Seq<char>) -> bool {
    let cs = split_colon(c);
    let ps = split_colon(p);
    forall|i: int| 0 <= i < ps.len() ==> ps[i] == seq!['*']
        || (i < cs.len() && cs[i] == ps[i])
}

/// `first_colon` points at the first colon: no colon lies before it.
pub proof fn lemma_first_colon(s: Seq<char>, i: int, m: int)
    requires
        0 <= i <= m <= s.len(),
        forall|k: int| i <= k < m ==> s[k] != ':',
        m == s.len() || s[m] == ':',
    ensures
        first_colon(s, i) == m,
    decreases m - i,
{
    if i < s.len() {
        if s[i] == ':' {
            assert(i == m);
        } else {
            if i == m {
                assert(false);
            }
            lemma_first_colon(s, i + 1, m);
        }
    }
}

/// A named permission, such as `fs:read:*`.
#[derive(Debug)]
pub struct Capability {
    name: String,
}

impl View for Capability {
    type V = Seq<char>;

    closed spec fn view(&self) -> Seq<char> {
        self.name@
    }
}

impl Capability {
    /// A capability with the given hierarchical name.
    pub fn new(name: &str) -> (r: Self)
        ensures
            r@ == name@,
    {
        Capability { name: String::from_str(name) }
    }

    /// The capability name.
    pub fn name(&self) -> (r: &str)
        ensures
            r@ == self@,
    {
        self.name.as_str()
    }

    /// Whether this capability matches the pattern, component by component.
    pub fn matches(&self, pattern: &str) -> (r: bool)
        ensures
            r == cap_matches(self@, pattern@),
    {
        let cs = split_parts(self.name.as_str());
        let ps = split_parts(pattern);
        let np = ps.len();
        let nc = cs.len();
        let mut i: usize = 0;
        while i < np
            invariant
                np == split_colon(pattern@).len(),
                nc == split_colon(self@).len(),
                ps@.len() == np,
                cs@.len() == nc,
                forall|j: int| 0 <= j < np ==> ps@[j]@ == split_colon(pattern@)[j],
                forall|j: int| 0 <= j < nc ==> cs@[j]@ == split_colon(self@)[j],
                i <= np,
                forall|j: int| 0 <= j < i ==> split_colon(pattern@)[j] == seq!['*']
                    || (j < nc && split_colon(self@)[j] == split_colon(pattern@)[j]),
            decreases np - i,
    {
            let star = "*";
            proof {
                reveal_strlit("*");
                assert(star@ =~= seq!['*']);
            }
            if !str_eq(ps[i].as_str(), star) {
                if i >= nc {
                    proof {
                        assert(split_colon(pattern@)[i as int] != seq!['*']);
                        assert(!cap_matches(self@, pattern@));
                    }
                    return false;
                }
                if !str_eq(cs[i].as_str(), ps[i].as_str()) {
                    proof {
                        assert(split_colon(pattern@)[i as int] != seq!['*']);
                        assert(split_colon(self@)[i as int] != split_colon(pattern@)[i as int]);
                        assert(!cap_matches(self@, pattern@));
                    }
                    return false;
                }
            }
            i += 1;
        }
        true
    }
}

impl Clone for Capability {
    /// A clone carries the same name.
    fn clone(&self) -> (r: Self)
        ensures
            r@ == self@,
    {
        Capability { name: self.name.clone() }
    }
}

impl PartialEq for Capability {
    fn eq(&self, other: &Self) -> (r: bool) {
        str_eq(self.name.as_str(), other.name.as_str())
    }
}

impl Eq for Capability {}

impl vstd::std_specs::cmp::PartialEqSpecImpl for Capability {
    open spec fn obeys_eq_spec() -> bool {
        true
    }

    open spec fn eq_spec(&self, other: &Capability) -> bool {
        self@ == other@
    }
}

/// Splits a name at its colons.
fn split_parts(s: &str) -> (r: Vec<String>)
    ensures
        r@.len() == split_colon(s@).len(),
        forall|j: int| 0 <= j < r@.len() ==> r@[j]@ == split_colon(s@)[j],
{
    let n = s.unicode_len();
    let mut parts: Vec<String> = Vec::new();
    let mut start: usize = 0;
    let mut i: usize = 0;
    proof {
        assert(parts_views(parts@) =~= Seq::<Seq<char>>::empty());
        assert(s@.skip(0) =~= s@);
        assert(split_colon(s@) =~= parts_views(parts@) + split_colon(s@.skip(0)));
    }
    while i < n
        invariant
            n == s@.len(),
            start <= i <= n,
            forall|k: int| start <= k < i ==> s@[k] != ':',
            split_colon(s@) == parts_views(parts@) + split_colon(s@.skip(start as int)),
            parts@.len() == parts_views(parts@).len(),
            forall|j: int| 0 <= j < parts@.len() ==> parts@[j]@ == parts_views(parts@)[j],
        decreases n - i,
    {
        let c = s.get_char(i);
        if c == ':' {
            let part = s.substring_char(start, i);
            let ghost old_parts = parts@;
            let ghost tail = s@.skip(start as int);
            parts.push(String::from_str(part));
            proof {
                assert forall|k: int| 0 <= k < i - start implies tail[k] != ':' by {
                    assert(tail[k] == s@[start + k]);
                }
                assert(tail[i - start] == ':');
                lemma_first_colon(tail, 0, i - start);
                assert(tail.take(i - start) =~= s@.subrange(start as int, i as int));
                assert(tail.skip(i - start + 1) =~= s@.skip(i + 1));
                assert(split_colon(tail) == seq![tail.take(i - start)]
                    + split_colon(s@.skip(i + 1)));
                lemma_parts_views_push(old_parts, parts@[parts@.len() - 1]);
                assert(parts_views(old_parts) + (seq![s@.subrange(start as int, i as int)]
                        + split_colon(s@.skip(i + 1)))
                    =~= (parts_views(old_parts) + seq![s@.subrange(start as int, i as int)])
                        + split_colon(s@.skip(i + 1)));
            }
            start = i + 1;
        }
        i += 1;
    }
    let last = s.substring_char(start, n);
    let ghost old_parts = parts@;
    let ghost tail = s@.skip(start as int);
    parts.push(String::from_str(last));
    proof {
        assert forall|k: int| 0 <= k < tail.len() implies tail[k] != ':' by {
            assert(tail[k] == s@[start + k]);
        }
        lemma_first_colon(tail, 0, tail.len() as int);
        assert(split_colon(tail) == seq![tail]);
        assert(tail =~= s@.subrange(start as int, n as int));
        lemma_parts_views_push(old_parts, parts@[parts@.len() - 1]);
        assert(parts_views(old_parts) + seq![tail] =~= parts_views(parts@));
        assert(split_colon(s@) =~= parts_views(parts@));
    }
    parts
}

/// The character sequences of a vector of strings.
pub open spec fn parts_views(s: Seq<String>) -> Seq<Seq<char>> {
    Seq::new(s.len(), |i: int| s[i]@)
}

/// Pushing a string appends its characters' sequence.
proof fn lemma_parts_views_push(s: Seq<String>, x: String)
    ensures
        parts_views(s.push(x)) == parts_views(s) + seq![x@],
{
    assert(parts_views(s.push(x)) =~= parts_views(s) + seq![x@]);
}

/// An immutable sorted set of capabilities.
#[derive(Debug)]
pub struct CapabilitySet {
    inner: StrMap<()>,
}

impl View for CapabilitySet {
    type V = Set<Seq<char>>;

    closed spec fn view(&self) -> Set<Seq<char>> {
        self.inner.spec_map().dom()
    }
}

impl CapabilitySet {
    /// The set is well formed.
    pub closed spec fn wf(&self) -> bool {
        self.inner.wf()
    }

    /// How many capabilities the set holds.
    pub closed spec fn spec_len(&self) -> nat {
        self.inner@.len()
    }

    /// The empty set.
    pub fn empty() -> (r: Self)
        ensures
            r.wf(),
            r@ =~= Set::<Seq<char>>::empty(),
            r.spec_len() == 0,
    {
        CapabilitySet { inner: StrMap::new() }
    }

    /// The set of the given capabilities.
    pub fn new(capabilities: Vec<Capability>) -> (r: Self)
        ensures
            r.wf(),
            forall|k: Seq<char>| r@.contains(k)
                == exists|i: int| 0 <= i < capabilities@.len()
                    && #[trigger] capabilities@[i]@ == k,
    {
        let mut inner: StrMap<()> = StrMap::new();
        let n = capabilities.len();
        let mut i: usize = 0;
        while i < n
            invariant
                inner.wf(),
                n == capabilities@.len(),
                i <= n,
                forall|k: Seq<char>| inner.spec_map().dom().contains(k)
                    == exists|j: int| 0 <= j < i && #[trigger] capabilities@[j]@ == k,
            decreases n - i,
        {
            let name = capabilities[i].name();
            inner.insert(String::from_str(name), ());
            proof {
                assert(capabilities@[i as int]@ == name@);
                assert forall|k: Seq<char>| inner.spec_map().dom().contains(k)
                    == exists|j: int| 0 <= j < i + 1 && #[trigger] capabilities@[j]@ == k by {
                    if inner.spec_map().dom().contains(k) {
                        if k == name@ {
                            assert(capabilities@[i as int]@ == k);
                        }
                    }
                }
            }
            i += 1;
        }
        CapabilitySet { inner }
    }

    /// Whether exactly this capability is granted.
    pub fn has(&self, capability: &Capability) -> (r: bool)
        requires
            self.wf(),
        ensures
            r == self@.contains(capability@),
    {
        self.inner.contains_key(capability.name())
    }

    /// Whether some granted capability matches the pattern.
    pub fn has_pattern(&self, pattern: &str) -> (r: bool)
        requires
            self.wf(),
        ensures
            r == exists|k: Seq<char>| #[trigger] self@.contains(k)
                && cap_matches(k, pattern@),
    {
        let n = self.inner.len();
        let mut i: usize = 0;
        while i < n
            invariant
                self.wf(),
                n == self.inner@.len(),
                i <= n,
                forall|j: int| 0 <= j < i ==> !cap_matches(self.inner@[j].0, pattern@),
            decreases n - i,
        {
            let (name, _) = self.inner.entry_at(i);
            let c = Capability::new(name.as_str());
            if c.matches(pattern) {
                proof {
                    crate::kv::lemma_value_at(self.inner@, i as int);
                    assert(self@.contains(self.inner@[i as int].0));
                }
                return true;
            }
            i += 1;
        }
        proof {
            if exists|k: Seq<char>| #[trigger] self@.contains(k)
                && cap_matches(k, pattern@) {
                let k = choose|k: Seq<char>| #[trigger] self@.contains(k)
                    && cap_matches(k, pattern@);
                assert(has_key(self.inner@, k));
                let j = choose|j: int| 0 <= j < self.inner@.len()
                    && self.inner@[j].0 == k;
                assert(!cap_matches(self.inner@[j].0, pattern@));
            }
        }
        false
    }

    /// Whether any of the required capabilities is granted.
    pub fn has_any(&self, required: &[Capability]) -> (r: bool)
        requires
            self.wf(),
        ensures
            r == exists|i: int| 0 <= i < required@.len()
                && #[trigger] self@.contains(required@[i]@),
    {
        let n = required.len();
        let mut i: usize = 0;
        while i < n
            invariant
                self.wf(),
                n == required@.len(),
                i <= n,
                forall|j: int| 0 <= j < i ==> !self@.contains(required@[j]@),
            decreases n - i,
        {
            if self.has(&required[i]) {
                return true;
            }
            i += 1;
        }
        false
    }

    /// Whether all of the required capabilities are granted.
    pub fn has_all(&self, required: &[Capability]) -> (r: bool)
        requires
            self.wf(),
        ensures
            r == forall|i: int| 0 <= i < required@.len()
                ==> #[trigger] self@.contains(required@[i]@),
    {
        let n = required.len();
        let mut i: usize = 0;
        while i < n
            invariant
                self.wf(),
                n == required@.len(),
                i <= n,
                forall|j: int| 0 <= j < i ==> #[trigger] self@.contains(required@[j]@),
            decreases n - i,
        {
            if !self.has(&required[i]) {
                return false;
            }
            i += 1;
        }
        true
    }

    /// How many capabilities are granted.
    pub fn len(&self) -> (n: usize)
        ensures
            n == self.spec_len(),
    {
        self.inner.len()
    }

    /// Whether no capability is granted.
    pub fn is_empty(&self) -> (b: bool)
        ensures
            b == (self.spec_len() == 0),
    {
        self.inner.is_empty()
    }

    /// The capabilities, in strictly ascending name order, each present
    /// exactly once.
    pub fn to_vec(&self) -> (r: Vec<Capability>)
        ensures
            r@.len() == self.spec_len(),
            self.wf() ==> forall|i: int, j: int| 0 <= i < j < r@.len()
                ==> crate::order::lex_lt((#[trigger] r@[i])@, (#[trigger] r@[j])@),
            self.wf() ==> forall|i: int| 0 <= i < r@.len()
                ==> self@.contains(#[trigger] r@[i]@),
            self.wf() ==> forall|k: Seq<char>| #[trigger] self@.contains(k)
                ==> exists|i: int| 0 <= i < r@.len() && #[trigger] r@[i]@ == k,
    {
        let n = self.inner.len();
        let mut r: Vec<Capability> = Vec::new();
        let mut i: usize = 0;
        while i < n
            invariant
                n == self.inner@.len(),
                i <= n,
                r@.len() == i,
                forall|j: int| 0 <= j < i ==> r@[j]@ == self.inner@[j].0,
            decreases n - i,
        {
            let (name, _) = self.inner.entry_at(i);
            r.push(Capability::new(name.as_str()));
            i += 1;
        }
        proof {
            if self.wf() {
                assert forall|i: int| 0 <= i < r@.len()
                    implies self@.contains(#[trigger] r@[i]@) by {
                    crate::kv::lemma_value_at(self.inner@, i);
                }
                assert forall|k: Seq<char>| #[trigger] self@.contains(k)
                    implies exists|i: int| 0 <= i < r@.len() && #[trigger] r@[i]@ == k by {
                    let j = choose|j: int| 0 <= j < self.inner@.len()
                        && self.inner@[j].0 == k;
                    assert(r@[j]@ == k);
                }
            }
        }
        r
    }
}

impl Clone for CapabilitySet {
    /// A clone grants the same capabilities.
    fn clone(&self) -> (r: Self)
        ensures
            r.wf(),
            self.wf() ==> r@ == self@,
    {
        let names = self.to_vec();
        let r = CapabilitySet::new(names);
        proof {
            if self.wf() {
                assert(r@ =~= self@);
            }
        }
        r
    }
}


/// The read capability over the whole file system.
pub fn fs_read() -> (r: Capability)
    ensures
        r@ == "fs:read:*"@,
{
    Capability::new("fs:read:*")
}

/// The write capability over the whole file system.
pub fn fs_write() -> (r: Capability)
    ensures
        r@ == "fs:write:*"@,
{
    Capability::new("fs:write:*")
}

/// The capability for plain HTTP requests.
pub fn network_http() -> (r: Capability)
    ensures
        r@ == "network:http:*"@,
{
    Capability::new("network:http:*")
}

/// The capability for HTTPS requests.
pub fn network_https() -> (r: Capability)
    ensures
        r@ == "network:https:*"@,
{
    Capability::new("network:https:*")
}

/// The capability to run processes.
pub fn process_exec() -> (r: Capability)
    ensures
        r@ == "process:exec:*"@,
{
    Capability::new("process:exec:*")
}

/// The capability to read environment variables.
pub fn env_read() -> (r: Capability)
    ensures
        r@ == "env:read:*"@,
{
    Capability::new("env:read:*")
}

} // verus!
