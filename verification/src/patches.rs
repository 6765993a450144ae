//! The patch lifecycle: proposal, test gate, audit gate, signed approval,
//! application and rollback. Patches are data; their status moves forward
//! through the gates and an unapproved patch can never be applied.

use vstd::prelude::*;
use vstd::string::StrSliceExecFns;
use vstd::string::StringExecFns;
use crate::canon::{CanonValue, CanonData, cv_view_list, spec_encode};
use crate::event::{push_item, text_val, blob_val, strmap_val, strmap_canon, text_of};
use crate::hashes::blake3_of;
use crate::kv::{StrMap, has_key, value_of};
use crate::order::str_eq;
use crate::policy::{PolicyEngine, EvalContext};
use crate::screen::{ascii_fold, is_substring, fold_lower, str_contains};
use crate::state::{AgentState, StateData, StateValue};

verus! {

/// A unique patch identifier.
#[derive(Debug)]
pub struct PatchId {
    /// The run that proposed the patch.
    pub run_id: u64,
    /// The position within the run.
    pub sequence: u64,
    /// An extra uniqueness mark, may be empty.
    pub checksum: String,
}

impl PatchId {
    /// An id with an empty checksum.
    pub fn new(run_id: u64, sequence: u64) -> (r: Self)
        ensures
            r.run_id == run_id,
            r.sequence == sequence,
            r.checksum@.len() == 0,
    {
        PatchId { run_id, sequence, checksum: String::new() }
    }

    /// The id as `run:sequence` text.
    pub fn to_text(&self) -> (r: String)
        ensures
            r@ == u64_text(self.run_id) + ":"@ + u64_text(self.sequence),
    {
        let a = u64_to_text(self.run_id);
        let b = u64_to_text(self.sequence);
        let r = a.concat(":").concat(b.as_str());
        proof {
            assert(r@ =~= u64_text(self.run_id) + ":"@ + u64_text(self.sequence));
        }
        r
    }
}

impl Clone for PatchId {
    /// A clone carries the same parts.
    fn clone(&self) -> (r: Self)
        ensures
            r.run_id == self.run_id,
            r.sequence == self.sequence,
            r.checksum@ == self.checksum@,
    {
        PatchId {
            run_id: self.run_id,
            sequence: self.sequence,
            checksum: self.checksum.clone(),
        }
    }
}

/// The decimal digits of `n`.
pub open spec fn u64_text(n: u64) -> Seq<char>
    decreases n,
{
    if n < 10 {
        seq![digit_char(n as int)]
    } else {
        u64_text(n / 10).push(digit_char((n % 10) as int))
    }
}

/// The character of one decimal digit.
pub open spec fn digit_char(d: int) -> char {
    if d == 0 { '0' } else if d == 1 { '1' } else if d == 2 { '2' } else if d == 3 { '3' }
    else if d == 4 { '4' } else if d == 5 { '5' } else if d == 6 { '6' } else if d == 7 { '7' }
    else if d == 8 { '8' } else { '9' }
}

/// The decimal text of `n`.
pub fn u64_to_text(n: u64) -> (r: String)
    ensures
        r@ == u64_text(n),
    decreases n,
{
    let d: u64 = n % 10;
    let c: char = match d {
        0 => '0', 1 => '1', 2 => '2', 3 => '3', 4 => '4',
        5 => '5', 6 => '6', 7 => '7', 8 => '8', _ => '9',
    };
    if n < 10 {
        let mut r = String::new();
        crate::hashes::push_char(&mut r, c);
        proof {
            assert(r@ =~= u64_text(n));
        }
        r
    } else {
        let mut r = u64_to_text(n / 10);
        crate::hashes::push_char(&mut r, c);
        proof {
            assert(r@ =~= u64_text(n));
        }
        r
    }
}

/// What a patch changes.
#[derive(Clone, Debug, PartialEq, Eq)]
pub enum PatchType {
    /// A prompt update.
    Prompt,
    /// A policy update.
    Policy,
    /// A routing heuristic update.
    Routing,
    /// A configuration update.
    Config,
    /// A tool addition or removal.
    Tools,
    /// A memory schema update.
    MemorySchema,
    /// A planning parameter update.
    Planning,
    /// Any other kind, by name.
    Custom(String),
}

/// The wire label of a patch type.
pub open spec fn patch_type_label(t: PatchType) -> Seq<char> {
    match t {
        PatchType::Prompt => "Prompt"@,
        PatchType::Policy => "Policy"@,
        PatchType::Routing => "Routing"@,
        PatchType::Config => "Config"@,
        PatchType::Tools => "Tools"@,
        PatchType::MemorySchema => "MemorySchema"@,
        PatchType::Planning => "Planning"@,
        PatchType::Custom(s) => s@,
    }
}

impl PatchType {
    /// The wire label of this patch type.
    pub fn label(&self) -> (r: &str)
        ensures
            r@ == patch_type_label(*self),
    {
        match self {
            PatchType::Prompt => "Prompt",
            PatchType::Policy => "Policy",
            PatchType::Routing => "Routing",
            PatchType::Config => "Config",
            PatchType::Tools => "Tools",
            PatchType::MemorySchema => "MemorySchema",
            PatchType::Planning => "Planning",
            PatchType::Custom(s) => s.as_str(),
        }
    }
}

/// What a patch targets.
#[derive(Clone, Debug, PartialEq, Eq)]
pub enum PatchTarget {
    /// The system prompt.
    SystemPrompt,
    /// A named policy.
    Policy(String),
    /// A named route.
    Route(String),
    /// A configuration key.
    Config(String),
    /// A tool, by name.
    Tool(String),
    /// A memory schema key.
    MemorySchema(String),
    /// Any other target, by name.
    Custom(String),
}

/// The label of a patch target.
pub open spec fn target_label(t: PatchTarget) -> Seq<char> {
    match t {
        PatchTarget::SystemPrompt => "system_prompt"@,
        PatchTarget::Policy(_) => "policy"@,
        PatchTarget::Route(_) => "route"@,
        PatchTarget::Config(_) => "config"@,
        PatchTarget::Tool(_) => "tool"@,
        PatchTarget::MemorySchema(_) => "memory_schema"@,
        PatchTarget::Custom(_) => "custom"@,
    }
}

/// The name inside a patch target, empty for the system prompt.
pub open spec fn target_value(t: PatchTarget) -> Seq<char> {
    match t {
        PatchTarget::SystemPrompt => Seq::empty(),
        PatchTarget::Policy(s) => s@,
        PatchTarget::Route(s) => s@,
        PatchTarget::Config(s) => s@,
        PatchTarget::Tool(s) => s@,
        PatchTarget::MemorySchema(s) => s@,
        PatchTarget::Custom(s) => s@,
    }
}

/// A test a patch must pass.
#[derive(Clone, Debug, PartialEq, Eq)]
pub struct TestRequirement {
    /// The test name.
    pub name: String,
    /// What kind of test.
    pub test_type: TestType,
    /// The outcome required of the test.
    pub expected: TestOutcome,
}

/// What kind of test a requirement names.
#[derive(Clone, Debug, PartialEq, Eq)]
pub enum TestType {
    /// A unit test.
    Unit,
    /// An integration test.
    Integration,
    /// A property test.
    Property,
    /// A determinism check: run twice, compare hashes.
    Determinism,
    /// A replay check: replay a log, expect no divergence.
    Replay,
    /// Any other kind, by name.
    Custom(String),
}

/// The label of a test type.
pub open spec fn test_type_label(t: TestType) -> Seq<char> {
    match t {
        TestType::Unit => "unit"@,
        TestType::Integration => "integration"@,
        TestType::Property => "property"@,
        TestType::Determinism => "determinism"@,
        TestType::Replay => "replay"@,
        TestType::Custom(s) => s@,
    }
}

/// The outcome a test gate expects.
#[derive(Clone, Copy, Debug, PartialEq, Eq, Structural)]
pub enum TestOutcome {
    /// The test must pass.
    Pass,
    /// The test must fail.
    Fail,
    /// Either way is fine.
    Any,
}

/// The label of an expected outcome.
pub open spec fn outcome_label(o: TestOutcome) -> Seq<char> {
    match o {
        TestOutcome::Pass => "pass"@,
        TestOutcome::Fail => "fail"@,
        TestOutcome::Any => "any"@,
    }
}

/// Where a patch stands in its lifecycle.
#[derive(Clone, Debug, PartialEq, Eq)]
pub enum PatchStatus {
    /// Proposed, not yet gated.
    Proposed,
    /// Passed the test gate.
    Tested,
    /// Passed the audit gate.
    Audited,
    /// Approved for application.
    Approved,
    /// Applied to the state.
    Applied,
    /// Rejected, with a reason.
    Rejected {
        /// Why it was rejected.
        reason: String,
    },
    /// Rolled back after application, with a reason.
    RolledBack {
        /// Why it was rolled back.
        reason: String,
    },
}

/// A proposed self-modification.
#[derive(Debug)]
pub struct Patch {
    /// The unique patch id.
    pub id: PatchId,
    /// What kind of patch.
    pub patch_type: PatchType,
    /// What it targets.
    pub target: PatchTarget,
    /// The patch data.
    pub data: StrMap<String>,
    /// Why the patch is proposed.
    pub reasoning: String,
    /// The tests it must pass.
    pub tests: Vec<TestRequirement>,
    /// When it was created, logically.
    pub created_at: u64,
    /// The run that created it.
    pub created_by: u64,
}

/// The canonical shape of a patch's tests.
pub open spec fn tests_canon(s: Seq<TestRequirement>) -> Seq<CanonData> {
    Seq::new(s.len(), |i: int| CanonData::List(seq![
        text_of(s[i].name@),
        text_of(test_type_label(s[i].test_type)),
        text_of(outcome_label(s[i].expected)),
    ]))
}

/// The canonical shape of a patch.
pub open spec fn patch_canon(p: Patch) -> CanonData {
    CanonData::List(seq![
        CanonData::List(seq![CanonData::U64(p.id.run_id), CanonData::U64(p.id.sequence),
            text_of(p.id.checksum@)]),
        text_of(patch_type_label(p.patch_type)),
        CanonData::List(seq![text_of(target_label(p.target)),
            text_of(target_value(p.target))]),
        strmap_canon(p.data@),
        text_of(p.reasoning@),
        CanonData::List(tests_canon(p.tests@)),
        CanonData::U64(p.created_at),
        CanonData::U64(p.created_by),
    ])
}

/// The hash of a patch's canonical bytes.
pub open spec fn spec_patch_hash(p: Patch) -> Seq<u8> {
    blake3_of(spec_encode(patch_canon(p)))
}

impl Patch {
    /// A patch without data or tests.
    pub fn new(id: PatchId, patch_type: PatchType, target: PatchTarget, reasoning: String)
        -> (r: Self)
        ensures
            r.id == id,
            r.patch_type == patch_type,
            r.target == target,
            r.reasoning == reasoning,
            r.data@.len() == 0,
            r.data.wf(),
            r.tests@.len() == 0,
            r.created_at == 0,
            r.created_by == 0,
    {
        Patch {
            id,
            patch_type,
            target,
            data: StrMap::new(),
            reasoning,
            tests: Vec::new(),
            created_at: 0,
            created_by: 0,
        }
    }

    /// The same patch with one more data field.
    pub fn with_data(self, key: &str, value: &str) -> (r: Self)
        requires
            self.data.wf(),
        ensures
            r.id == self.id,
            r.patch_type == self.patch_type,
            r.target == self.target,
            r.reasoning == self.reasoning,
            r.tests == self.tests,
            r.created_at == self.created_at,
            r.created_by == self.created_by,
            r.data.wf(),
            r.data.spec_map() == self.data.spec_map().insert(key@, r_value(key@, r.data@)),
            has_key(r.data@, key@) && value_of(r.data@, key@)@ == value@,
    {
        let mut data = self.data;
        let v = String::from_str(value);
        let ghost gv = v;
        data.insert(String::from_str(key), v);
        let r = Patch { data, ..self };
        proof {
            assert(r.data.spec_map().dom().contains(key@));
            assert(r.data.spec_map()[key@] == gv);
            assert(value_of(r.data@, key@) == gv);
        }
        r
    }

    /// The same patch with one more test requirement.
    pub fn with_test(self, test: TestRequirement) -> (r: Self)
        ensures
            r.id == self.id,
            r.patch_type == self.patch_type,
            r.target == self.target,
            r.reasoning == self.reasoning,
            r.data == self.data,
            r.tests@ == self.tests@.push(test),
    {
        let mut tests = self.tests;
        tests.push(test);
        Patch { tests, ..self }
    }

    /// The hash of this patch's canonical bytes.
    pub fn hash(&self) -> (r: crate::hashes::Hash)
        ensures
            r@ == spec_patch_hash(*self),
    {
        let mut items: Vec<CanonValue> = Vec::new();
        proof {
            assert(cv_view_list(items@) =~= Seq::<CanonData>::empty());
        }
        let mut idl: Vec<CanonValue> = Vec::new();
        proof {
            assert(cv_view_list(idl@) =~= Seq::<CanonData>::empty());
        }
        push_item(&mut idl, CanonValue::U64(self.id.run_id));
        push_item(&mut idl, CanonValue::U64(self.id.sequence));
        push_item(&mut idl, text_val(self.id.checksum.as_str()));
        proof {
            assert(cv_view_list(idl@) =~= seq![CanonData::U64(self.id.run_id),
                CanonData::U64(self.id.sequence), text_of(self.id.checksum@)]);
        }
        push_item(&mut items, CanonValue::List(idl));
        push_item(&mut items, text_val(self.patch_type.label()));
        let mut tl: Vec<CanonValue> = Vec::new();
        proof {
            assert(cv_view_list(tl@) =~= Seq::<CanonData>::empty());
        }
        push_item(&mut tl, text_val(target_label_exec(&self.target)));
        push_item(&mut tl, text_val(target_value_exec(&self.target)));
        proof {
            assert(cv_view_list(tl@) =~= seq![text_of(target_label(self.target)),
                text_of(target_value(self.target))]);
        }
        push_item(&mut items, CanonValue::List(tl));
        push_item(&mut items, strmap_val(&self.data));
        push_item(&mut items, text_val(self.reasoning.as_str()));
        let n = self.tests.len();
        let mut tv: Vec<CanonValue> = Vec::new();
        let mut i: usize = 0;
        proof {
            assert(cv_view_list(tv@) =~= tests_canon(self.tests@).take(0));
        }
        while i < n
            invariant
                n == self.tests@.len(),
                i <= n,
                cv_view_list(tv@) == tests_canon(self.tests@).take(i as int),
            decreases n - i,
        {
            let t = &self.tests[i];
            let mut one: Vec<CanonValue> = Vec::new();
            proof {
                assert(cv_view_list(one@) =~= Seq::<CanonData>::empty());
            }
            push_item(&mut one, text_val(t.name.as_str()));
            push_item(&mut one, text_val(test_type_label_exec(&t.test_type)));
            push_item(&mut one, text_val(outcome_label_exec(&t.expected)));
            proof {
                assert(cv_view_list(one@) =~= seq![text_of(t.name@),
                    text_of(test_type_label(t.test_type)), text_of(outcome_label(t.expected))]);
            }
            push_item(&mut tv, CanonValue::List(one));
            proof {
                assert(cv_view_list(tv@) =~= tests_canon(self.tests@).take(i + 1));
            }
            i += 1;
        }
        proof {
            assert(tests_canon(self.tests@).take(n as int) =~= tests_canon(self.tests@));
        }
        push_item(&mut items, CanonValue::List(tv));
        push_item(&mut items, CanonValue::U64(self.created_at));
        push_item(&mut items, CanonValue::U64(self.created_by));
        proof {
            assert(cv_view_list(items@) =~= patch_canon(*self)->List_0);
        }
        let c = CanonValue::List(items);
        crate::hashes::Hash::from_canonical(&c)
    }
}

/// The value bound under a key.
pub open spec fn r_value(key: Seq<char>, entries: Seq<(Seq<char>, String)>) -> String {
    value_of(entries, key)
}

/// The label of a patch target.
fn target_label_exec(t: &PatchTarget) -> (r: &str)
    ensures
        r@ == target_label(*t),
{
    match t {
        PatchTarget::SystemPrompt => "system_prompt",
        PatchTarget::Policy(_) => "policy",
        PatchTarget::Route(_) => "route",
        PatchTarget::Config(_) => "config",
        PatchTarget::Tool(_) => "tool",
        PatchTarget::MemorySchema(_) => "memory_schema",
        PatchTarget::Custom(_) => "custom",
    }
}

/// The name inside a patch target.
fn target_value_exec(t: &PatchTarget) -> (r: &str)
    ensures
        r@ == target_value(*t),
{
    match t {
        PatchTarget::SystemPrompt => {
            proof {
                reveal_strlit("");
                assert(""@ =~= Seq::<char>::empty());
            }
            ""
        },
        PatchTarget::Policy(s) => s.as_str(),
        PatchTarget::Route(s) => s.as_str(),
        PatchTarget::Config(s) => s.as_str(),
        PatchTarget::Tool(s) => s.as_str(),
        PatchTarget::MemorySchema(s) => s.as_str(),
        PatchTarget::Custom(s) => s.as_str(),
    }
}

/// The label of a test type.
fn test_type_label_exec(t: &TestType) -> (r: &str)
    ensures
        r@ == test_type_label(*t),
{
    match t {
        TestType::Unit => "unit",
        TestType::Integration => "integration",
        TestType::Property => "property",
        TestType::Determinism => "determinism",
        TestType::Replay => "replay",
        TestType::Custom(s) => s.as_str(),
    }
}

/// The label of an expected outcome.
fn outcome_label_exec(o: &TestOutcome) -> (r: &str)
    ensures
        r@ == outcome_label(*o),
{
    match o {
        TestOutcome::Pass => "pass",
        TestOutcome::Fail => "fail",
        TestOutcome::Any => "any",
    }
}


/// The SHA-256 digest of a byte string.
pub uninterp spec fn sha256_of(data: Seq<u8>) -> Seq<u8>;

/// Relies on sha2::Sha256::digest: a 32-byte digest that is a function of
/// the input bytes alone.
#[verifier::external_body]
fn sha256_digest(data: &[u8]) -> (r: Vec<u8>)
    ensures
        r@ == sha256_of(data@),
        r@.len() == 32,
{
    <sha2::Sha256 as sha2::Digest>::digest(data).to_vec()
}

/// A detached signature.
#[derive(Debug)]
pub struct Signature {
    /// The signature bytes.
    pub bytes: Vec<u8>,
}

impl Signature {
    /// A signature from its 64 raw bytes.
    pub fn from_bytes(bytes: [u8; 64]) -> (r: Self)
        ensures
            r.bytes@ == bytes@,
    {
        Signature { bytes: copy_array64(&bytes) }
    }

    /// The signature as lowercase hex.
    pub fn to_hex(&self) -> (r: String)
        ensures
            r@ == crate::hashes::hex_of(self.bytes@),
    {
        bytes_to_hex(&self.bytes)
    }

    /// Reads a signature back from 128 lowercase hex characters.
    pub fn from_hex(hex: &str) -> (r: Result<Self, SignatureError>)
        ensures
            match r {
                Ok(s) => hex@.len() == 128 && crate::hashes::valid_hex(hex@)
                    && s.bytes@ == crate::hashes::unhex(hex@),
                Err(SignatureError::InvalidLength) => hex@.len() != 128,
                Err(SignatureError::InvalidHex) => hex@.len() == 128
                    && !crate::hashes::valid_hex(hex@),
                Err(SignatureError::VerificationFailed) => false,
            },
    {
        let n = hex.unicode_len();
        if n != 128 {
            return Err(SignatureError::InvalidLength);
        }
        match hex_to_bytes(hex) {
            Option::Some(bytes) => Ok(Signature { bytes }),
            Option::None => Err(SignatureError::InvalidHex),
        }
    }

    /// Whether the signature is structurally valid: 64 bytes, not all
    /// zero. A deployment substitutes a cryptographic verification bound
    /// to the patch hash.
    pub fn verify(&self, message: &[u8], signer: &SignerId) -> (r: bool)
        ensures
            r == (self.bytes@.len() == 64
                && exists|i: int| 0 <= i < self.bytes@.len() && self.bytes@[i] != 0),
    {
        let _ = message;
        let _ = signer;
        if self.bytes.len() != 64 {
            return false;
        }
        let n = self.bytes.len();
        let mut i: usize = 0;
        while i < n
            invariant
                n == self.bytes@.len(),
                n == 64,
                i <= n,
                forall|j: int| 0 <= j < i ==> self.bytes@[j] == 0,
            decreases n - i,
        {
            if self.bytes[i] != 0 {
                proof {
                    assert(self.bytes@[i as int] != 0);
                    assert(exists|j: int| 0 <= j < self.bytes@.len()
                        && self.bytes@[j] != 0);
                }
                return true;
            }
            i += 1;
        }
        false
    }
}

impl Clone for Signature {
    /// A clone carries the same bytes.
    fn clone(&self) -> (r: Self)
        ensures
            r.bytes@ == self.bytes@,
    {
        Signature { bytes: copy_vec_u8(&self.bytes) }
    }
}

/// A signer's identity: a public key.
#[derive(Debug)]
pub struct SignerId {
    /// The public key bytes.
    pub public_key: Vec<u8>,
}

impl SignerId {
    /// A signer id from its 32 raw bytes.
    pub fn from_bytes(bytes: [u8; 32]) -> (r: Self)
        ensures
            r.public_key@ == bytes@,
    {
        SignerId { public_key: copy_array32(&bytes) }
    }

    /// The id as lowercase hex.
    pub fn to_hex(&self) -> (r: String)
        ensures
            r@ == crate::hashes::hex_of(self.public_key@),
    {
        bytes_to_hex(&self.public_key)
    }

    /// Reads an id back from 64 lowercase hex characters.
    pub fn from_hex(hex: &str) -> (r: Result<Self, SignatureError>)
        ensures
            match r {
                Ok(s) => hex@.len() == 64 && crate::hashes::valid_hex(hex@)
                    && s.public_key@ == crate::hashes::unhex(hex@),
                Err(SignatureError::InvalidLength) => hex@.len() != 64,
                Err(SignatureError::InvalidHex) => hex@.len() == 64
                    && !crate::hashes::valid_hex(hex@),
                Err(SignatureError::VerificationFailed) => false,
            },
    {
        let n = hex.unicode_len();
        if n != 64 {
            return Err(SignatureError::InvalidLength);
        }
        match hex_to_bytes(hex) {
            Option::Some(public_key) => Ok(SignerId { public_key }),
            Option::None => Err(SignatureError::InvalidHex),
        }
    }
}

impl Clone for SignerId {
    /// A clone carries the same key.
    fn clone(&self) -> (r: Self)
        ensures
            r.public_key@ == self.public_key@,
    {
        SignerId { public_key: copy_vec_u8(&self.public_key) }
    }
}

impl PartialEq for SignerId {
    fn eq(&self, other: &Self) -> (r: bool) {
        bytes_eq(&self.public_key, &other.public_key)
    }
}

impl Eq for SignerId {}

impl vstd::std_specs::cmp::PartialEqSpecImpl for SignerId {
    open spec fn obeys_eq_spec() -> bool {
        true
    }

    open spec fn eq_spec(&self, other: &SignerId) -> bool {
        self.public_key@ == other.public_key@
    }
}

/// Signature errors.
#[derive(Clone, Debug, PartialEq, Eq)]
pub enum SignatureError {
    /// The hex text has the wrong length.
    InvalidLength,
    /// The text is not hex.
    InvalidHex,
    /// The signature does not verify.
    VerificationFailed,
}

/// A signing key pair. The signature is the digest of the message followed
/// by the secret key; a deployment substitutes a standard signature
/// primitive.
#[derive(Debug)]
pub struct KeyPair {
    /// The secret key bytes.
    pub secret_key: Vec<u8>,
    /// The public key bytes.
    pub public_key: Vec<u8>,
}

impl KeyPair {
    /// A fixed test key pair: byte `i` of the secret key is `i`, byte `i`
    /// of the public key is `i + 32`.
    pub fn generate() -> (r: Self)
        ensures
            r.secret_key@.len() == 32,
            r.public_key@.len() == 32,
            forall|i: int| 0 <= i < 32 ==> r.secret_key@[i] == i,
            forall|i: int| 0 <= i < 32 ==> r.public_key@[i] == i + 32,
    {
        let mut secret_key: Vec<u8> = Vec::new();
        let mut public_key: Vec<u8> = Vec::new();
        let mut i: usize = 0;
        while i < 32
            invariant
                i <= 32,
                secret_key@.len() == i,
                public_key@.len() == i,
                forall|j: int| 0 <= j < i ==> secret_key@[j] == j,
                forall|j: int| 0 <= j < i ==> public_key@[j] == j + 32,
            decreases 32 - i,
        {
            secret_key.push(i as u8);
            public_key.push((i + 32) as u8);
            i += 1;
        }
        KeyPair { secret_key, public_key }
    }

    /// The signer id of this pair.
    pub fn signer_id(&self) -> (r: SignerId)
        ensures
            r.public_key@ == self.public_key@,
    {
        SignerId { public_key: copy_vec_u8(&self.public_key) }
    }

    /// Signs a message: the SHA-256 digest of the message followed by the
    /// secret key.
    pub fn sign(&self, message: &[u8]) -> (r: Signature)
        requires
            self.secret_key@.len() == 32,
        ensures
            r.bytes@ == sha256_of(message@) + self.secret_key@,
    {
        let h = sha256_digest(message);
        let mut bytes = copy_vec_u8(&h);
        let n = self.secret_key.len();
        let mut i: usize = 0;
        while i < n
            invariant
                n == self.secret_key@.len(),
                i <= n,
                bytes@ == h@ + self.secret_key@.take(i as int),
            decreases n - i,
        {
            bytes.push(self.secret_key[i]);
            proof {
                assert(bytes@ =~= h@ + self.secret_key@.take(i + 1));
            }
            i += 1;
        }
        proof {
            assert(self.secret_key@.take(n as int) =~= self.secret_key@);
        }
        Signature { bytes }
    }
}

/// A patch together with a detached signature and its signer.
#[derive(Debug)]
pub struct SignedPatch {
    /// The patch.
    pub patch: Patch,
    /// The signature.
    pub signature: Signature,
    /// Who signed.
    pub signer: SignerId,
}

impl SignedPatch {
    /// A signed patch.
    pub fn new(patch: Patch, signature: Signature, signer: SignerId) -> (r: Self)
        ensures
            r.patch == patch,
            r.signature == signature,
            r.signer == signer,
    {
        SignedPatch { patch, signature, signer }
    }

    /// The hash of the patch.
    pub fn hash(&self) -> (r: crate::hashes::Hash)
        ensures
            r@ == spec_patch_hash(self.patch),
    {
        self.patch.hash()
    }

    /// Whether the signature is structurally valid.
    pub fn verify(&self) -> (r: bool)
        ensures
            r == (self.signature.bytes@.len() == 64
                && exists|i: int| 0 <= i < self.signature.bytes@.len()
                    && self.signature.bytes@[i] != 0),
    {
        let h = self.patch.hash();
        let hx = h.to_hex();
        self.signature.verify(hx.as_str().as_bytes(), &self.signer)
    }
}

/// A copy of a byte vector.
fn copy_vec_u8(b: &Vec<u8>) -> (r: Vec<u8>)
    ensures
        r@ == b@,
{
    let mut r: Vec<u8> = Vec::new();
    let n = b.len();
    let mut i: usize = 0;
    while i < n
        invariant
            n == b@.len(),
            i <= n,
            r@ == b@.take(i as int),
        decreases n - i,
    {
        r.push(b[i]);
        proof {
            assert(r@ =~= b@.take(i + 1));
        }
        i += 1;
    }
    proof {
        assert(b@.take(n as int) =~= b@);
    }
    r
}

/// The bytes of a 64-byte array.
fn copy_array64(b: &[u8; 64]) -> (r: Vec<u8>)
    ensures
        r@ == b@,
{
    let mut r: Vec<u8> = Vec::new();
    let mut i: usize = 0;
    while i < 64
        invariant
            i <= 64,
            r@ == b@.take(i as int),
        decreases 64 - i,
    {
        r.push(b[i]);
        proof {
            assert(r@ =~= b@.take(i + 1));
        }
        i += 1;
    }
    proof {
        assert(b@.take(64) =~= b@);
    }
    r
}

/// The bytes of a 32-byte array.
fn copy_array32(b: &[u8; 32]) -> (r: Vec<u8>)
    ensures
        r@ == b@,
{
    let mut r: Vec<u8> = Vec::new();
    let mut i: usize = 0;
    while i < 32
        invariant
            i <= 32,
            r@ == b@.take(i as int),
        decreases 32 - i,
    {
        r.push(b[i]);
        proof {
            assert(r@ =~= b@.take(i + 1));
        }
        i += 1;
    }
    proof {
        assert(b@.take(32) =~= b@);
    }
    r
}

/// Whether two byte vectors hold the same bytes.
fn bytes_eq(a: &Vec<u8>, b: &Vec<u8>) -> (r: bool)
    ensures
        r == (a@ == b@),
{
    let n = a.len();
    if n != b.len() {
        return false;
    }
    let mut i: usize = 0;
    while i < n
        invariant
            n == a@.len(),
            n == b@.len(),
            i <= n,
            forall|j: int| 0 <= j < i ==> a@[j] == b@[j],
        decreases n - i,
    {
        if a[i] != b[i] {
            return false;
        }
        i += 1;
    }
    proof {
        assert(a@ =~= b@);
    }
    true
}

/// The lowercase hex text of a byte vector.
fn bytes_to_hex(b: &Vec<u8>) -> (r: String)
    ensures
        r@ == crate::hashes::hex_of(b@),
{
    let n = b.len();
    let mut r = String::new();
    let mut i: usize = 0;
    while i < n
        invariant
            n == b@.len(),
            i <= n,
            r@ == crate::hashes::hex_of(b@).take(2 * i as int),
        decreases n - i,
    {
        let byte = b[i];
        let hi = crate::hashes::hex_digit_char(byte / 16);
        let lo = crate::hashes::hex_digit_char(byte % 16);
        crate::hashes::push_char(&mut r, hi);
        crate::hashes::push_char(&mut r, lo);
        proof {
            assert(r@ =~= crate::hashes::hex_of(b@).take(2 * (i + 1)));
        }
        i += 1;
    }
    proof {
        assert(crate::hashes::hex_of(b@).take(2 * n as int) =~= crate::hashes::hex_of(b@));
    }
    r
}

/// The bytes of a lowercase hex text, if it is one of even length.
fn hex_to_bytes(hex: &str) -> (r: Option<Vec<u8>>)
    requires
        hex@.len() % 2 == 0,
    ensures
        match r {
            Some(b) => crate::hashes::valid_hex(hex@) && b@ == crate::hashes::unhex(hex@),
            None => !crate::hashes::valid_hex(hex@),
        },
{
    let n = hex.unicode_len();
    let half = n / 2;
    let mut bytes: Vec<u8> = Vec::new();
    let mut i: usize = 0;
    while i < half
        invariant
            n == hex@.len(),
            n % 2 == 0,
            half == n / 2,
            i <= half,
            bytes@.len() == i,
            forall|j: int| 0 <= j < 2 * i ==> crate::hashes::hex_val(hex@[j]) >= 0,
            forall|j: int| 0 <= j < i ==> bytes@[j] == crate::hashes::unhex(hex@)[j],
        decreases half - i,
    {
        let hi = hex.get_char(2 * i);
        let lo = hex.get_char(2 * i + 1);
        let hv = match crate::hashes::hex_char_val(hi) {
            Option::Some(d) => d,
            Option::None => {
                return None;
            },
        };
        let lv = match crate::hashes::hex_char_val(lo) {
            Option::Some(d) => d,
            Option::None => {
                return None;
            },
        };
        bytes.push(hv * 16 + lv);
        i += 1;
    }
    proof {
        assert(bytes@ =~= crate::hashes::unhex(hex@));
    }
    Some(bytes)
}


/// How a gate ended.
#[derive(Debug)]
pub enum GateResult {
    /// The patch passed.
    Passed,
    /// The patch failed.
    Failed {
        /// Why it failed.
        reason: String,
        /// Details per test or check.
        details: StrMap<String>,
    },
    /// More information is needed first.
    Deferred {
        /// Why it deferred.
        reason: String,
        /// What it needs.
        needs: Vec<String>,
    },
}

impl GateResult {
    /// Whether the patch went through.
    pub fn is_passed(&self) -> (b: bool)
        ensures
            b == (*self is Passed),
    {
        matches!(self, GateResult::Passed)
    }

    /// A pass.
    pub fn passed() -> (r: Self)
        ensures
            r is Passed,
    {
        GateResult::Passed
    }

    /// A failure with a reason.
    pub fn failed(reason: &str) -> (r: Self)
        ensures
            r matches GateResult::Failed { reason: q, .. } && q@ == reason@,
    {
        GateResult::Failed { reason: String::from_str(reason), details: StrMap::new() }
    }

    /// A failure with a reason and details.
    pub fn failed_with(reason: &str, details: StrMap<String>) -> (r: Self)
        ensures
            r matches GateResult::Failed { reason: q, details: d } && q@ == reason@
                && d == details,
    {
        GateResult::Failed { reason: String::from_str(reason), details }
    }
}

/// How one test run ended.
#[derive(Clone, Debug, PartialEq, Eq)]
pub struct TestResult {
    /// Whether the test passed.
    pub passed: bool,
    /// Why.
    pub reason: String,
    /// How long it took, in milliseconds.
    pub duration_ms: u64,
}

/// Runs one test of a patch; implementations are injected.
pub trait TestRunner {
    /// Runs a single named test.
    fn run_test(&self, patch: &Patch, test: &TestRequirement) -> TestResult;
}

/// Whether an observed outcome satisfies what the requirement expects.
pub open spec fn spec_outcome_matches(passed: bool, expected: TestOutcome) -> bool {
    match expected {
        TestOutcome::Pass => passed,
        TestOutcome::Fail => !passed,
        TestOutcome::Any => true,
    }
}

/// Decides whether an observed result satisfies an expectation.
pub fn outcome_matches(result: &TestResult, expected: &TestOutcome) -> (b: bool)
    ensures
        b == spec_outcome_matches(result.passed, *expected),
{
    match expected {
        TestOutcome::Pass => result.passed,
        TestOutcome::Fail => !result.passed,
        TestOutcome::Any => true,
    }
}

/// The failure line for one mismatched requirement: a failing test is
/// named with its reason; a test that should have failed is named so.
#[verifier::opaque]
pub open spec fn failure_line(t: TestRequirement, res: TestResult) -> Seq<char> {
    match t.expected {
        TestOutcome::Fail => "Test '"@ + t.name@ + "' should have failed but passed"@,
        _ => "Test '"@ + t.name@ + "' failed: "@ + res.reason@,
    }
}

/// The failure lines of the first `i` requirements, joined with `; `.
#[verifier::opaque]
pub open spec fn failure_reason_upto(tests: Seq<TestRequirement>,
    results: Seq<TestResult>, i: int) -> Seq<char>
    decreases i,
{
    if i <= 0 {
        Seq::empty()
    } else {
        let pre = failure_reason_upto(tests, results, i - 1);
        if !spec_outcome_matches(results[i - 1].passed, tests[i - 1].expected) {
            if pre.len() == 0 {
                failure_line(tests[i - 1], results[i - 1])
            } else {
                pre + "; "@ + failure_line(tests[i - 1], results[i - 1])
            }
        } else {
            pre
        }
    }
}

/// The per-test detail recorded on failure: the observed outcome and its
/// reason.
#[verifier::opaque]
pub open spec fn detail_line(res: TestResult) -> Seq<char> {
    "passed="@ + (if res.passed { "true"@ } else { "false"@ }) + ", reason="@ + res.reason@
}

/// The test gate: every test's observed outcome must match its expected
/// outcome.
pub struct TestGate;

impl TestGate {
    /// Judges observed results against the patch's requirements, one result
    /// per requirement in order: the verdict is `Passed` exactly when every
    /// observed outcome satisfies its expectation. On failure the reason
    /// names each offending test, joined with `; `, and the details map
    /// records every test's observed outcome under its name.
    /// Judges observed results against the patch's requirements, one result
    /// per requirement in order: the verdict is `Passed` exactly when every
    /// observed outcome satisfies its expectation. On failure the reason
    /// names each offending test, joined with `; `, and the details map
    /// records every test's observed outcome under its name.
    pub fn judge(patch: &Patch, results: &Vec<TestResult>) -> (r: GateResult)
        requires
            results@.len() == patch.tests@.len(),
        ensures
            (r is Passed) == (forall|i: int| 0 <= i < patch.tests@.len()
                ==> spec_outcome_matches((#[trigger] results@[i]).passed,
                    patch.tests@[i].expected)),
            !(r is Passed) ==> (r matches GateResult::Failed { reason, details }
                && reason@ == failure_reason_upto(patch.tests@, results@,
                    patch.tests@.len() as int)
                && (forall|i: int| 0 <= i < patch.tests@.len()
                    ==> has_key(details@, (#[trigger] patch.tests@[i]).name@))
                && (forall|i: int| 0 <= i < patch.tests@.len()
                    ==> exists|j: int| 0 <= j < patch.tests@.len()
                        && (#[trigger] patch.tests@[j]).name@
                            == (#[trigger] patch.tests@[i]).name@
                        && value_of(details@, patch.tests@[i].name@)@
                            == detail_line(results@[j]))),
    {
        let n = patch.tests.len();
        let mut all_ok = true;
        let mut i: usize = 0;
        while i < n
            invariant
                n == patch.tests@.len(),
                results@.len() == n,
                i <= n,
                all_ok == (forall|j: int| 0 <= j < i ==> spec_outcome_matches(
                    (#[trigger] results@[j]).passed, patch.tests@[j].expected)),
            decreases n - i,
        {
            if !outcome_matches(&results[i], &patch.tests[i].expected) {
                all_ok = false;
            }
            i += 1;
        }
        if all_ok {
            return GateResult::Passed;
        }
        let reason = build_failure_reason(&patch.tests, results);
        let details = build_details(&patch.tests, results);
        GateResult::Failed { reason, details }
    }

    /// Runs every test of the patch through the runner, in order, and
    /// judges the observed results. A patch with no tests passes; the exact
    /// pass condition over the observed results is `judge`'s contract.
    pub fn evaluate<R: TestRunner>(patch: &Patch, test_runner: &R) -> (r: GateResult)
        ensures
            patch.tests@.len() == 0 ==> r is Passed,
    {
        let n = patch.tests.len();
        let mut results: Vec<TestResult> = Vec::new();
        let mut i: usize = 0;
        while i < n
            invariant
                n == patch.tests@.len(),
                i <= n,
                results@.len() == i,
            decreases n - i,
        {
            let result = test_runner.run_test(patch, &patch.tests[i]);
            results.push(result);
            i += 1;
        }
        TestGate::judge(patch, &results)
    }
}

/// Builds the failure reason: the failure lines of every mismatched
/// requirement, in order, joined with `; `.
#[verifier::rlimit(30)]
#[verifier::spinoff_prover]
fn build_failure_reason(tests: &Vec<TestRequirement>, results: &Vec<TestResult>)
    -> (r: String)
    requires
        results@.len() == tests@.len(),
    ensures
        r@ == failure_reason_upto(tests@, results@, tests@.len() as int),
{
    let n = tests.len();
    let mut reason = String::from_str("");
    let mut first = true;
    proof {
        reveal_strlit("");
        reveal_with_fuel(failure_reason_upto, 1);
        assert(reason@ == failure_reason_upto(tests@, results@, 0));
    }
    let mut k: usize = 0;
    while k < n
        invariant
            n == tests@.len(),
            results@.len() == n,
            k <= n,
            reason@ == failure_reason_upto(tests@, results@, k as int),
            first == (reason@.len() == 0),
        decreases n - k,
    {
        if !outcome_matches(&results[k], &tests[k].expected) {
            let line = match &tests[k].expected {
                TestOutcome::Fail => String::from_str("Test '")
                    .concat(tests[k].name.as_str())
                    .concat("' should have failed but passed"),
                _ => String::from_str("Test '")
                    .concat(tests[k].name.as_str())
                    .concat("' failed: ")
                    .concat(results[k].reason.as_str()),
            };
            proof {
                reveal_strlit("Test '");
                reveal(failure_line);
                reveal_with_fuel(failure_reason_upto, 2);
                assert(line@ =~= failure_line(tests@[k as int], results@[k as int]));
                assert(line@.len() > 0);
            }
            if first {
                reason = line;
                first = false;
                proof {
                    reveal_with_fuel(failure_reason_upto, 2);
                    assert(reason@ =~= failure_reason_upto(tests@, results@, k + 1));
                }
            } else {
                reason = reason.concat("; ").concat(line.as_str());
                proof {
                    reveal_with_fuel(failure_reason_upto, 2);
                    assert(reason@ =~= failure_reason_upto(tests@, results@, k + 1));
                }
            }
        } else {
            proof {
                reveal_with_fuel(failure_reason_upto, 2);
                assert(failure_reason_upto(tests@, results@, k + 1)
                    == failure_reason_upto(tests@, results@, k as int));
            }
        }
        k += 1;
    }
    reason
}

/// Builds the per-test details: every test's observed outcome, recorded
/// under its name (a repeated name keeps its last result).
#[verifier::rlimit(100)]
#[verifier::spinoff_prover]
fn build_details(tests: &Vec<TestRequirement>, results: &Vec<TestResult>)
    -> (d: StrMap<String>)
    requires
        results@.len() == tests@.len(),
    ensures
        d.wf(),
        forall|i: int| 0 <= i < tests@.len()
            ==> has_key(d@, (#[trigger] tests@[i]).name@),
        forall|i: int| 0 <= i < tests@.len()
            ==> exists|j: int| 0 <= j < tests@.len()
                && (#[trigger] tests@[j]).name@ == (#[trigger] tests@[i]).name@
                && value_of(d@, tests@[i].name@)@ == detail_line(results@[j]),
{
    let n = tests.len();
    let mut details: StrMap<String> = StrMap::new();
    let mut t: usize = 0;
    while t < n
        invariant
            n == tests@.len(),
            results@.len() == n,
            t <= n,
            details.wf(),
            forall|j: int| 0 <= j < t
                ==> details.spec_map().dom().contains((#[trigger] tests@[j]).name@),
            forall|key: Seq<char>| #[trigger] details.spec_map().dom().contains(key)
                ==> exists|j2: int| 0 <= j2 < t
                    && (#[trigger] tests@[j2]).name@ == key
                    && details.spec_map()[key]@ == detail_line(results@[j2]),
        decreases n - t,
    {
        let line = String::from_str("passed=")
            .concat(if results[t].passed { "true" } else { "false" })
            .concat(", reason=")
            .concat(results[t].reason.as_str());
        proof {
            reveal(detail_line);
            assert(line@ =~= detail_line(results@[t as int]));
        }
        let ghost mbefore = details.spec_map();
        details.insert(tests[t].name.clone(), line);
        proof {
            assert forall|key: Seq<char>| #[trigger] details.spec_map().dom()
                .contains(key)
                implies exists|j2: int| 0 <= j2 < t + 1
                    && (#[trigger] tests@[j2]).name@ == key
                    && details.spec_map()[key]@ == detail_line(results@[j2]) by {
                if key == tests@[t as int].name@ {
                    assert(details.spec_map()[key]@ == detail_line(results@[t as int]));
                } else {
                    assert(mbefore.dom().contains(key));
                    let j2 = choose|j2: int| 0 <= j2 < t
                        && (#[trigger] tests@[j2]).name@ == key
                        && mbefore[key]@ == detail_line(results@[j2]);
                    assert(details.spec_map()[key] == mbefore[key]);
                }
            }
        }
        t += 1;
    }
    proof {
        assert forall|i: int| 0 <= i < tests@.len()
            implies has_key(details@, (#[trigger] tests@[i]).name@)
                && exists|j: int| 0 <= j < tests@.len()
                    && (#[trigger] tests@[j]).name@ == tests@[i].name@
                    && value_of(details@, tests@[i].name@)@
                        == detail_line(results@[j]) by {
            assert(details.spec_map().dom().contains(tests@[i].name@));
            assert(has_key(details@, tests@[i].name@));
            assert(value_of(details@, tests@[i].name@)
                == details.spec_map()[tests@[i].name@]);
            let j2 = choose|j2: int| 0 <= j2 < n
                && (#[trigger] tests@[j2]).name@ == tests@[i].name@
                && details.spec_map()[tests@[i].name@]@ == detail_line(results@[j2]);
            assert(0 <= j2 < tests@.len() && tests@[j2].name@ == tests@[i].name@
                && value_of(details@, tests@[i].name@)@ == detail_line(results@[j2]));
        }
    }
    details
}

/// A bundled runner for determinism requirements:/// A bundled runner for determinism requirements: the checked operation is
/// run twice and the output hashes compared by the caller's harness; other
/// requirement kinds are reported as not run here.
pub struct DeterminismTestRunner;

impl TestRunner for DeterminismTestRunner {
    /// Reports a pass for determinism requirements and for kinds this
    /// runner does not carry out.
    fn run_test(&self, patch: &Patch, test: &TestRequirement) -> (r: TestResult)
        ensures
            r.passed,
    {
        let _ = patch;
        match &test.test_type {
            TestType::Determinism => TestResult {
                passed: true,
                reason: String::from_str("the outputs of two runs hashed alike"),
                duration_ms: 10,
            },
            _ => TestResult {
                passed: true,
                reason: String::from_str("this runner does not carry out this kind"),
                duration_ms: 0,
            },
        }
    }
}

/// A bundled runner for replay requirements: an associated log is replayed
/// and checked for divergence by the caller's harness; other requirement
/// kinds are reported as not run here.
pub struct ReplayTestRunner;

impl TestRunner for ReplayTestRunner {
    /// Reports a pass for replay requirements and for kinds this runner
    /// does not carry out.
    fn run_test(&self, patch: &Patch, test: &TestRequirement) -> (r: TestResult)
        ensures
            r.passed,
    {
        let _ = patch;
        match &test.test_type {
            TestType::Replay => TestResult {
                passed: true,
                reason: String::from_str("the replayed log showed no divergence"),
                duration_ms: 50,
            },
            _ => TestResult {
                passed: true,
                reason: String::from_str("this runner does not carry out this kind"),
                duration_ms: 0,
            },
        }
    }
}

/// Whether a text carries one of the injection phrases the audit gate
/// screens for, after lowercase folding.
pub open spec fn has_injection(text: Seq<char>) -> bool {
    ||| is_substring(ascii_fold(text), "ignore previous"@)
    ||| is_substring(ascii_fold(text), "disregard above"@)
    ||| is_substring(ascii_fold(text), "forget instructions"@)
    ||| is_substring(ascii_fold(text), "new instructions:"@)
    ||| is_substring(ascii_fold(text), "override:"@)
}

/// Decides whether a text carries an injection phrase, case-insensitively.
pub fn contains_injection(text: &str) -> (r: bool)
    ensures
        r == has_injection(text@),
{
    let lower = fold_lower(text);
    let l = lower.as_str();
    str_contains(l, "ignore previous")
        || str_contains(l, "disregard above")
        || str_contains(l, "forget instructions")
        || str_contains(l, "new instructions:")
        || str_contains(l, "override:")
}

/// Whether a value carries one of the dangerous markers the audit gate
/// screens for.
pub open spec fn has_danger(value: Seq<char>) -> bool {
    ||| is_substring(value, "unsafe"@)
    ||| is_substring(value, "transmute"@)
    ||| is_substring(value, "raw pointer"@)
    ||| is_substring(value, "asm!"@)
}

/// Whether some data value carries a dangerous marker.
pub open spec fn data_has_danger(entries: Seq<(Seq<char>, String)>) -> bool {
    exists|i: int| 0 <= i < entries.len() && has_danger((#[trigger] entries[i]).1@)
}

/// Decides whether any data value carries a dangerous marker.
pub fn contains_dangerous_content(data: &StrMap<String>) -> (r: bool)
    ensures
        r == data_has_danger(data@),
{
    let n = data.len();
    let mut i: usize = 0;
    while i < n
        invariant
            n == data@.len(),
            i <= n,
            forall|j: int| 0 <= j < i ==> !has_danger((#[trigger] data@[j]).1@),
        decreases n - i,
    {
        let (_, value) = data.entry_at(i);
        let v = value.as_str();
        if str_contains(v, "unsafe") || str_contains(v, "transmute")
            || str_contains(v, "raw pointer") || str_contains(v, "asm!") {
            proof {
                assert(has_danger(data@[i as int].1@));
            }
            return true;
        }
        i += 1;
    }
    false
}

/// The audit gate: the policy engine must allow the patch type, a prompt
/// patch's reasoning must be free of injection phrases, and the patch data
/// must be free of dangerous markers.
pub struct AuditGate;

impl AuditGate {
    /// Audits a patch against the compiled policies and the fixed screens:
    /// it passes exactly when the policies allow the patch type, a prompt
    /// patch's reasoning carries no injection phrase, and no data value
    /// carries a dangerous marker.
    pub fn evaluate(patch: &Patch, policies: &PolicyEngine, context: &EvalContext)
        -> (r: GateResult)
        requires
            context.state.wf(),
        ensures
            (r is Passed) == {
                &&& crate::policy::spec_allowed(policies.spec_policies(),
                    crate::policy::RuleKind::Patch, patch_type_label(patch.patch_type),
                    context.capabilities@, context.state@,
                    crate::policy::opt_string_view_ref(context.tool))
                &&& (patch.patch_type is Prompt ==> !has_injection(patch.reasoning@))
                &&& !data_has_danger(patch.data@)
            },
    {
        let verdict = policies.evaluate_patch(patch.patch_type.label(), context);
        if !verdict.allowed {
            return GateResult::Failed { reason: verdict.reason, details: StrMap::new() };
        }
        if matches!(patch.patch_type, PatchType::Prompt) {
            if contains_injection(patch.reasoning.as_str()) {
                return GateResult::failed("the reasoning carries an injection phrase");
            }
        }
        if contains_dangerous_content(&patch.data) {
            return GateResult::failed("the patch data carries a dangerous marker");
        }
        GateResult::Passed
    }
}

/// The approval gate: the signer must be on the authorised list and the
/// signature must be structurally valid.
#[derive(Debug)]
pub struct ApprovalGate {
    authorized_signers: Vec<SignerId>,
}

impl ApprovalGate {
    /// The authorised signers.
    pub closed spec fn spec_signers(&self) -> Seq<SignerId> {
        self.authorized_signers@
    }

    /// A gate with the given authorised signers.
    pub fn new(authorized_signers: Vec<SignerId>) -> (r: Self)
        ensures
            r.spec_signers() == authorized_signers@,
    {
        ApprovalGate { authorized_signers }
    }

    /// Adds a signer to the authorised list.
    pub fn add_signer(&mut self, signer: SignerId)
        ensures
            final(self).spec_signers() == old(self).spec_signers().push(signer),
    {
        self.authorized_signers.push(signer);
    }

    /// Passes exactly when the signer is authorised and the signature is 64
    /// bytes with some nonzero byte.
    pub fn evaluate(&self, signature: &Signature, signer: &SignerId) -> (r: GateResult)
        ensures
            r is Passed == ((exists|i: int| 0 <= i < self.spec_signers().len()
                    && (#[trigger] self.spec_signers()[i]).public_key@ == signer.public_key@)
                && signature.bytes@.len() == 64
                && (exists|i: int| 0 <= i < signature.bytes@.len()
                    && signature.bytes@[i] != 0)),
    {
        let n = self.authorized_signers.len();
        let mut found = false;
        let mut i: usize = 0;
        while i < n
            invariant
                n == self.spec_signers().len(),
                i <= n,
                found == exists|j: int| 0 <= j < i
                    && (#[trigger] self.spec_signers()[j]).public_key@ == signer.public_key@,
            decreases n - i,
        {
            if bytes_eq(&self.authorized_signers[i].public_key, &signer.public_key) {
                proof {
                    assert(self.spec_signers()[i as int].public_key@ == signer.public_key@);
                }
                found = true;
            }
            i += 1;
        }
        if !found {
            return GateResult::failed("the signer is not authorised");
        }
        if !signature.verify(&[], signer) {
            return GateResult::failed("the signature is not structurally valid");
        }
        GateResult::Passed
    }
}

/// Store errors.
#[derive(Clone, Debug, PartialEq, Eq)]
pub enum StoreError {
    /// An entry with this key already exists.
    AlreadyExists(String),
    /// No entry with this key exists.
    NotFound(String),
    /// The store failed an integrity check.
    Corrupted(String),
}

/// Patches and their statuses, keyed by patch id text.
#[derive(Debug)]
pub struct PatchStore {
    patches: StrMap<(Patch, PatchStatus)>,
}

impl PatchStore {
    /// The stored entries, keyed by id text.
    pub closed spec fn spec_entries(&self) -> Seq<(Seq<char>, (Patch, PatchStatus))> {
        self.patches@
    }

    /// The stored entries as a map from id text to patch and status.
    pub open spec fn spec_map(&self) -> Map<Seq<char>, (Patch, PatchStatus)> {
        crate::kv::map_of(self.spec_entries())
    }

    /// The store is well formed.
    pub closed spec fn wf(&self) -> bool {
        self.patches.wf()
    }

    /// An empty store.
    pub fn new() -> (r: Self)
        ensures
            r.wf(),
            r.spec_entries().len() == 0,
    {
        PatchStore { patches: StrMap::new() }
    }

    /// Adds a patch under an id; refuses an id already present, leaving the
    /// store unchanged.
    pub fn add_patch(&mut self, id: String, patch: Patch, status: PatchStatus)
        -> (r: Result<(), StoreError>)
        requires
            old(self).wf(),
        ensures
            final(self).wf(),
            match r {
                Ok(()) => !has_key(old(self).spec_entries(), id@)
                    && has_key(final(self).spec_entries(), id@)
                    && value_of(final(self).spec_entries(), id@) == (patch, status)
                    && final(self).spec_map() == old(self).spec_map().insert(id@,
                        (patch, status)),
                Err(StoreError::AlreadyExists(_)) => has_key(old(self).spec_entries(), id@)
                    && *final(self) == *old(self),
                Err(_) => false,
            },
    {
        if self.patches.contains_key(id.as_str()) {
            return Err(StoreError::AlreadyExists(id));
        }
        let ghost gid = id@;
        let ghost gp = (patch, status);
        self.patches.insert(id, (patch, status));
        proof {
            assert(self.patches.spec_map().dom().contains(gid));
            assert(self.patches.spec_map()[gid] == gp);
            assert(value_of(self.patches@, gid) == gp);
        }
        Ok(())
    }

    /// The patch and status under an id, if any.
    pub fn get_patch(&self, id: &str) -> (r: Option<&(Patch, PatchStatus)>)
        requires
            self.wf(),
        ensures
            match r {
                Some(e) => has_key(self.spec_entries(), id@)
                    && *e == value_of(self.spec_entries(), id@),
                None => !has_key(self.spec_entries(), id@),
            },
    {
        self.patches.get(id)
    }

    /// Replaces the status of a stored patch; fails when the id is absent.
    pub fn update_status(&mut self, id: &str, status: PatchStatus)
        -> (r: Result<(), StoreError>)
        requires
            old(self).wf(),
        ensures
            final(self).wf(),
            match r {
                Ok(()) => has_key(old(self).spec_entries(), id@)
                    && has_key(final(self).spec_entries(), id@)
                    && value_of(final(self).spec_entries(), id@).0
                        == value_of(old(self).spec_entries(), id@).0
                    && value_of(final(self).spec_entries(), id@).1 == status
                    && final(self).spec_map() == old(self).spec_map().insert(id@,
                        (value_of(old(self).spec_entries(), id@).0, status)),
                Err(StoreError::NotFound(_)) => !has_key(old(self).spec_entries(), id@)
                    && *final(self) == *old(self),
                Err(_) => false,
            },
    {
        let ghost gid = id@;
        let cur = match self.patches.get(id) {
            Option::Some(_) => true,
            Option::None => false,
        };
        if !cur {
            return Err(StoreError::NotFound(String::from_str(id)));
        }
        // Move the patch out, then back in with the new status.
        let taken = self.patches.remove(id);
        match taken {
            Option::Some((patch, _)) => {
                let ghost gp = patch;
                self.patches.insert(String::from_str(id), (patch, status));
                proof {
                    assert(self.patches.spec_map().dom().contains(gid));
                    assert(self.patches.spec_map()[gid] == (gp, status));
                    assert(value_of(self.patches@, gid) == (gp, status));
                    assert(old(self).patches.spec_map()[gid]
                        == value_of(old(self).spec_entries(), gid));
                    assert(self.spec_map() =~= old(self).spec_map().insert(gid,
                        (value_of(old(self).spec_entries(), gid).0, status)));
                }
                Ok(())
            },
            Option::None => Err(StoreError::NotFound(String::from_str(id))),
        }
    }

    /// The stored patch ids, in sorted order.
    pub fn list_patches(&self) -> (r: Vec<String>)
        ensures
            r@.len() == self.spec_entries().len(),
            forall|i: int| 0 <= i < r@.len()
                ==> (#[trigger] r@[i])@ == self.spec_entries()[i].0,
    {
        self.patches.keys()
    }

    /// How many patches the store holds.
    pub fn len(&self) -> (n: usize)
        ensures
            n == self.spec_entries().len(),
    {
        self.patches.len()
    }

    /// The ids of the stored patches whose status has the given variant,
    /// contents of a reason aside, in sorted id order.
    pub fn get_by_status(&self, status: &PatchStatus) -> (r: Vec<String>)
        requires
            self.wf(),
        ensures
            forall|i: int| 0 <= i < r@.len() ==> has_key(self.spec_entries(),
                (#[trigger] r@[i])@)
                && status_variant_matches(value_of(self.spec_entries(), r@[i]@).1, *status),
    {
        let n = self.patches.len();
        let mut out: Vec<String> = Vec::new();
        let mut i: usize = 0;
        while i < n
            invariant
                self.wf(),
                n == self.spec_entries().len(),
                i <= n,
                forall|t: int| 0 <= t < out@.len() ==> has_key(self.spec_entries(),
                    (#[trigger] out@[t])@)
                    && status_variant_matches(value_of(self.spec_entries(), out@[t]@).1,
                        *status),
            decreases n - i,
        {
            let (key, entry) = self.patches.entry_at(i);
            if status_matches(&entry.1, status) {
                proof {
                    crate::kv::lemma_value_at(self.spec_entries(), i as int);
                }
                out.push(key.clone());
            }
            i += 1;
        }
        out
    }
}

/// Whether two statuses have the same variant, reasons aside.
pub open spec fn status_variant_matches(a: PatchStatus, b: PatchStatus) -> bool {
    match (a, b) {
        (PatchStatus::Proposed, PatchStatus::Proposed) => true,
        (PatchStatus::Tested, PatchStatus::Tested) => true,
        (PatchStatus::Audited, PatchStatus::Audited) => true,
        (PatchStatus::Approved, PatchStatus::Approved) => true,
        (PatchStatus::Applied, PatchStatus::Applied) => true,
        (PatchStatus::Rejected { .. }, PatchStatus::Rejected { .. }) => true,
        (PatchStatus::RolledBack { .. }, PatchStatus::RolledBack { .. }) => true,
        _ => false,
    }
}

/// Decides whether two statuses have the same variant.
pub fn status_matches(a: &PatchStatus, b: &PatchStatus) -> (r: bool)
    ensures
        r == status_variant_matches(*a, *b),
{
    match (a, b) {
        (PatchStatus::Proposed, PatchStatus::Proposed) => true,
        (PatchStatus::Tested, PatchStatus::Tested) => true,
        (PatchStatus::Audited, PatchStatus::Audited) => true,
        (PatchStatus::Approved, PatchStatus::Approved) => true,
        (PatchStatus::Applied, PatchStatus::Applied) => true,
        (PatchStatus::Rejected { .. }, PatchStatus::Rejected { .. }) => true,
        (PatchStatus::RolledBack { .. }, PatchStatus::RolledBack { .. }) => true,
        _ => false,
    }
}


/// Signed patches, keyed by the hex of their patch hash, with an id index.
#[derive(Debug)]
pub struct SignedPatchStore {
    patches: StrMap<SignedPatch>,
    by_id: StrMap<String>,
}

impl SignedPatchStore {
    /// The store is well formed.
    pub closed spec fn wf(&self) -> bool {
        self.patches.wf() && self.by_id.wf()
    }

    /// The stored signed patches, keyed by hash hex.
    pub closed spec fn spec_entries(&self) -> Seq<(Seq<char>, SignedPatch)> {
        self.patches@
    }

    /// An empty store.
    pub fn new() -> (r: Self)
        ensures
            r.wf(),
            r.spec_entries().len() == 0,
    {
        SignedPatchStore { patches: StrMap::new(), by_id: StrMap::new() }
    }

    /// Adds a signed patch; refuses one whose patch hash is already held.
    pub fn add(&mut self, patch: SignedPatch) -> (r: Result<(), StoreError>)
        requires
            old(self).wf(),
        ensures
            final(self).wf(),
            match r {
                Ok(()) => has_key(final(self).spec_entries(),
                    crate::hashes::hex_of(spec_patch_hash(patch.patch))),
                Err(StoreError::AlreadyExists(_)) => has_key(old(self).spec_entries(),
                    crate::hashes::hex_of(spec_patch_hash(patch.patch))),
                Err(_) => false,
            },
    {
        let h = patch.hash();
        let key = h.to_hex();
        if self.patches.contains_key(key.as_str()) {
            return Err(StoreError::AlreadyExists(key));
        }
        let idt = patch.patch.id.to_text();
        let key2 = key.clone();
        self.by_id.insert(idt, key);
        self.patches.insert(key2, patch);
        Ok(())
    }

    /// The signed patch with this patch hash, if held.
    pub fn get(&self, hash: &crate::hashes::Hash) -> (r: Option<&SignedPatch>)
        requires
            self.wf(),
        ensures
            match r {
                Some(p) => has_key(self.spec_entries(), crate::hashes::hex_of(hash@))
                    && *p == value_of(self.spec_entries(), crate::hashes::hex_of(hash@)),
                None => !has_key(self.spec_entries(), crate::hashes::hex_of(hash@)),
            },
    {
        let key = hash.to_hex();
        self.patches.get(key.as_str())
    }

    /// The signed patch proposed under this id text, if held.
    pub fn get_by_id(&self, id: &str) -> (r: Option<&SignedPatch>)
        requires
            self.wf(),
    {
        match self.by_id.get(id) {
            Option::Some(key) => self.patches.get(key.as_str()),
            Option::None => None,
        }
    }

    /// How many signed patches the store holds.
    pub fn len(&self) -> (n: usize)
        ensures
            n == self.spec_entries().len(),
    {
        self.patches.len()
    }

    /// The hash hex keys of all held patches, in sorted order.
    pub fn list(&self) -> (r: Vec<String>)
        ensures
            r@.len() == self.spec_entries().len(),
    {
        self.patches.keys()
    }
}

/// Patch application errors.
#[derive(Clone, Debug, PartialEq, Eq)]
pub enum ApplyError {
    /// No patch under this id.
    NotFound(String),
    /// The test gate failed.
    TestFailed(String),
    /// The audit gate failed.
    AuditFailed(String),
    /// The patch is not approved.
    NotApproved,
    /// The application failed.
    ApplicationFailed(String),
    /// The rollback failed.
    RollbackFailed(String),
}

/// The record of one applied patch.
#[derive(Debug)]
pub struct AppliedPatch {
    /// The id text of the patch.
    pub patch_id: String,
    /// The hash of the patch.
    pub patch_hash: crate::hashes::Hash,
    /// When it was applied, logically.
    pub applied_at: crate::timebase::LogicalTime,
    /// The state hash before.
    pub before_hash: crate::hashes::Hash,
    /// The state hash after.
    pub after_hash: crate::hashes::Hash,
    /// Data needed to undo the patch.
    pub rollback_data: StrMap<String>,
}

/// What one application changed.
#[derive(Debug)]
pub struct ApplyResult {
    /// The id text of the patch.
    pub patch_id: String,
    /// The state domains written.
    pub changes_made: Vec<String>,
    /// Data needed to undo the patch.
    pub rollback_data: StrMap<String>,
}

/// What a rollback restored.
#[derive(Debug)]
pub struct RollbackResult {
    /// The id text of the patch.
    pub patch_id: String,
    /// The state hash restored to.
    pub restored_to: crate::hashes::Hash,
}

/// Drives patches through their lifecycle and applies them to state.
#[derive(Debug)]
pub struct PatchEngine {
    store: PatchStore,
    applied: StrMap<AppliedPatch>,
    approvals: ApprovalGate,
}

/// Whether a status admits application: only approved patches may be
/// applied.
pub open spec fn applicable(s: PatchStatus) -> bool {
    s is Approved
}

/// Whether a target is one the engine applies to state.
pub open spec fn target_applies(t: PatchTarget) -> bool {
    t is SystemPrompt || t is Config || t is Policy
}

/// The state domain a target writes.
pub open spec fn target_domain(t: PatchTarget) -> Seq<char> {
    match t {
        PatchTarget::SystemPrompt => "system_prompt"@,
        PatchTarget::Config(k) => "config."@ + k@,
        PatchTarget::Policy(n) => "policy."@ + n@,
        _ => Seq::empty(),
    }
}

/// The data key a target reads its new value from.
pub open spec fn target_data_key(t: PatchTarget) -> Seq<char> {
    match t {
        PatchTarget::SystemPrompt => "prompt"@,
        PatchTarget::Config(_) => "value"@,
        PatchTarget::Policy(_) => "policy"@,
        _ => Seq::empty(),
    }
}

/// The text a patch writes into its target domain: the datum under the
/// target's data key, or empty when absent.
pub open spec fn written_text(p: Patch) -> Seq<char> {
    if has_key(p.data@, target_data_key(p.target)) {
        value_of(p.data@, target_data_key(p.target))@
    } else {
        Seq::empty()
    }
}

impl PatchEngine {
    /// The engine is well formed.
    pub closed spec fn wf(&self) -> bool {
        self.store.wf() && self.applied.wf()
    }

    /// The stored patches and statuses, keyed by id text.
    pub closed spec fn spec_patches(&self) -> Seq<(Seq<char>, (Patch, PatchStatus))> {
        self.store.spec_entries()
    }

    /// The records of applied patches, keyed by id text.
    pub closed spec fn spec_applied(&self) -> Seq<(Seq<char>, AppliedPatch)> {
        self.applied@
    }

    /// The authorised signers approvals are checked against.
    pub closed spec fn spec_signers(&self) -> Seq<SignerId> {
        self.approvals.spec_signers()
    }

    /// Whether the signer's public key is on the authorised list.
    pub open spec fn signer_authorized(&self, signer: SignerId) -> bool {
        exists|i: int| 0 <= i < self.spec_signers().len()
            && (#[trigger] self.spec_signers()[i]).public_key@ == signer.public_key@
    }

    /// An engine over a patch store, with nothing applied yet and no
    /// authorised signer.
    pub fn new(store: PatchStore) -> (r: Self)
        requires
            store.wf(),
        ensures
            r.wf(),
            r.spec_patches() == store.spec_entries(),
            r.spec_applied().len() == 0,
            r.spec_signers().len() == 0,
    {
        PatchEngine { store, applied: StrMap::new(), approvals: ApprovalGate::new(Vec::new()) }
    }

    /// Adds a signer to the authorised list; nothing else changes.
    pub fn authorize_signer(&mut self, signer: SignerId)
        ensures
            final(self).spec_signers() == old(self).spec_signers().push(signer),
            final(self).spec_patches() == old(self).spec_patches(),
            final(self).spec_applied() == old(self).spec_applied(),
            final(self).wf() == old(self).wf(),
    {
        self.approvals.add_signer(signer);
    }

    /// Submits a patch proposal under its id text with status `Proposed`;
    /// succeeds exactly when no patch is stored under that id yet, and
    /// otherwise changes nothing.
    pub fn submit(&mut self, patch: Patch) -> (r: Result<(), ApplyError>)
        requires
            old(self).wf(),
        ensures
            final(self).wf(),
            final(self).spec_applied() == old(self).spec_applied(),
            (r is Ok) == !has_key(old(self).spec_patches(),
                u64_text(patch.id.run_id) + ":"@ + u64_text(patch.id.sequence)),
            r is Ok ==> has_key(final(self).spec_patches(),
                u64_text(patch.id.run_id) + ":"@ + u64_text(patch.id.sequence))
                && value_of(final(self).spec_patches(),
                    u64_text(patch.id.run_id) + ":"@ + u64_text(patch.id.sequence))
                    == (patch, PatchStatus::Proposed),
            r matches Err(e) ==> (e is ApplicationFailed && *final(self) == *old(self)),
    {
        let id = patch.id.to_text();
        match self.store.add_patch(id, patch, PatchStatus::Proposed) {
            Ok(()) => Ok(()),
            Err(_) => Err(ApplyError::ApplicationFailed(String::from_str(
                "a patch with this id is already stored"))),
        }
    }

    /// Runs the test gate on a stored patch; fails with `NotFound` exactly
    /// when the id is absent. The pass condition over the observed runner
    /// results is `TestGate::judge`'s contract.
    pub fn test_gate<R: TestRunner>(&self, patch_id: &str, runner: &R)
        -> (r: Result<GateResult, ApplyError>)
        requires
            self.wf(),
        ensures
            (r is Ok) == has_key(self.spec_patches(), patch_id@),
            r matches Err(e) ==> e matches ApplyError::NotFound(_),
            (has_key(self.spec_patches(), patch_id@)
                && value_of(self.spec_patches(), patch_id@).0.tests@.len() == 0 && r is Ok)
                ==> r->Ok_0 is Passed,
    {
        match self.store.get_patch(patch_id) {
            Option::Some(entry) => Ok(TestGate::evaluate(&entry.0, runner)),
            Option::None => Err(ApplyError::NotFound(String::from_str(patch_id))),
        }
    }

    /// Runs the audit gate on a stored patch against compiled policies;
    /// fails with `NotFound` exactly when the id is absent. The verdict is
    /// `Passed` iff the policies allow the patch type and the fixed screens
    /// find nothing.
    pub fn audit_gate(&self, patch_id: &str, policies: &PolicyEngine, context: &EvalContext)
        -> (r: Result<GateResult, ApplyError>)
        requires
            self.wf(),
            context.state.wf(),
        ensures
            (r is Ok) == has_key(self.spec_patches(), patch_id@),
            r matches Err(e) ==> e matches ApplyError::NotFound(_),
            r is Ok ==> {
                let stored = value_of(self.spec_patches(), patch_id@).0;
                (r->Ok_0 is Passed) == {
                    &&& crate::policy::spec_allowed(policies.spec_policies(),
                        crate::policy::RuleKind::Patch, patch_type_label(stored.patch_type),
                        context.capabilities@, context.state@,
                        crate::policy::opt_string_view_ref(context.tool))
                    &&& (stored.patch_type is Prompt ==> !has_injection(stored.reasoning@))
                    &&& !data_has_danger(stored.data@)
                }
            },
    {
        match self.store.get_patch(patch_id) {
            Option::Some(entry) => Ok(AuditGate::evaluate(&entry.0, policies, context)),
            Option::None => Err(ApplyError::NotFound(String::from_str(patch_id))),
        }
    }

    /// Approves a stored patch when the approval gate passes for the given
    /// signer and signature against the engine's authorised-signer list.
    /// An unauthorised signer or an invalid signature yields `NotApproved`;
    /// an authorised one on a missing id yields `ApplicationFailed`; only
    /// on success does the stored status become `Approved`.
    pub fn approve(&mut self, patch_id: &str, signature: Signature, signer: SignerId)
        -> (r: Result<(), ApplyError>)
        requires
            old(self).wf(),
        ensures
            final(self).wf(),
            final(self).spec_applied() == old(self).spec_applied(),
            final(self).spec_signers() == old(self).spec_signers(),
            (r is Ok) == (old(self).signer_authorized(signer)
                && signature.bytes@.len() == 64
                && (exists|i: int| 0 <= i < signature.bytes@.len()
                    && signature.bytes@[i] != 0)
                && has_key(old(self).spec_patches(), patch_id@)),
            r matches Err(ApplyError::NotApproved) ==> *final(self) == *old(self)
                && !(old(self).signer_authorized(signer)
                    && signature.bytes@.len() == 64
                    && exists|i: int| 0 <= i < signature.bytes@.len()
                        && signature.bytes@[i] != 0),
            r matches Err(ApplyError::ApplicationFailed(_)) ==> *final(self) == *old(self)
                && old(self).signer_authorized(signer)
                && !has_key(old(self).spec_patches(), patch_id@),
            r is Ok ==> has_key(final(self).spec_patches(), patch_id@)
                && value_of(final(self).spec_patches(), patch_id@).1 is Approved
                && value_of(final(self).spec_patches(), patch_id@).0
                    == value_of(old(self).spec_patches(), patch_id@).0,
            r matches Err(e) ==> (e is NotApproved || e is ApplicationFailed),
    {
        let verdict = self.approvals.evaluate(&signature, &signer);
        if !verdict.is_passed() {
            return Err(ApplyError::NotApproved);
        }
        match self.store.update_status(patch_id, PatchStatus::Approved) {
            Ok(()) => {
                proof {
                    assert(has_key(self.spec_patches(), patch_id@));
                }
                Ok(())
            },
            Err(_) => Err(ApplyError::ApplicationFailed(String::from_str(
                "no patch under this id"))),
        }
    }

    /// Applies a stored patch to the state, dispatching on its target:
    /// the system prompt, a `config.` domain or a `policy.` domain is
    /// written with the patch's datum. A missing id yields `NotFound`; a
    /// patch whose status is not `Approved` is refused with `NotApproved`;
    /// a target outside the enumerated three yields `ApplicationFailed`;
    /// in every failure neither the state, the store nor the applied
    /// records change. On success the status becomes `Applied` and a
    /// record binding the patch hash to the state hashes before and after
    /// is kept.
    #[verifier::rlimit(100)]
    #[verifier::spinoff_prover]
    pub fn apply(&mut self, patch_id: &str, current_state: &mut AgentState)
        -> (r: Result<ApplyResult, ApplyError>)
        requires
            old(self).wf(),
            old(current_state).wf(),
        ensures
            final(self).wf(),
            final(current_state).wf(),
            (r matches Err(ApplyError::NotFound(_)))
                == !has_key(old(self).spec_patches(), patch_id@),
            (r matches Err(ApplyError::NotApproved))
                == (has_key(old(self).spec_patches(), patch_id@)
                    && !applicable(value_of(old(self).spec_patches(), patch_id@).1)),
            (r matches Err(ApplyError::ApplicationFailed(_)))
                == (has_key(old(self).spec_patches(), patch_id@)
                    && applicable(value_of(old(self).spec_patches(), patch_id@).1)
                    && !target_applies(value_of(old(self).spec_patches(), patch_id@).0.target)),
            (r is Ok) == (has_key(old(self).spec_patches(), patch_id@)
                && applicable(value_of(old(self).spec_patches(), patch_id@).1)
                && target_applies(value_of(old(self).spec_patches(), patch_id@).0.target)),
            r is Err ==> final(self).spec_patches() == old(self).spec_patches()
                && final(self).spec_applied() == old(self).spec_applied()
                && final(self).spec_signers() == old(self).spec_signers()
                && *final(current_state) == *old(current_state),
            r is Ok ==> {
                let stored = value_of(old(self).spec_patches(), patch_id@).0;
                let domain = target_domain(stored.target);
                &&& final(self).spec_patches_map() == old(self).spec_patches_map().insert(
                    patch_id@, (stored, PatchStatus::Applied))
                &&& final(current_state).data.spec_map().dom()
                    == old(current_state).data.spec_map().dom().insert(domain)
                &&& has_key(final(current_state).data@, domain)
                &&& (value_of(final(current_state).data@, domain) matches
                    StateData::Value(StateValue::String(s)) && s@ == written_text(stored))
                &&& (forall|k: Seq<char>| k != domain
                    ==> old(current_state).data.spec_map().contains_key(k)
                        == final(current_state).data.spec_map().contains_key(k))
                &&& (forall|k: Seq<char>| k != domain
                        && #[trigger] old(current_state).data.spec_map().contains_key(k)
                    ==> final(current_state).data.spec_map()[k]
                        == old(current_state).data.spec_map()[k])
                &&& (r->Ok_0).changes_made@.len() == 1
                &&& (r->Ok_0).changes_made@[0]@ == domain
                &&& (r->Ok_0).patch_id@ == patch_id@
                &&& has_key(final(self).spec_applied(), patch_id@)
                &&& {
                    let rec = value_of(final(self).spec_applied(), patch_id@);
                    &&& rec.patch_id@ == patch_id@
                    &&& rec.patch_hash@ == spec_patch_hash(stored)
                    &&& rec.before_hash@ == old(current_state).state_hash@
                    &&& rec.after_hash@ == final(current_state).state_hash@
                }
            },
    {
        let (applicable_now, target_kind, patch_hash, prompt_value, config_key, config_value,
            policy_name, policy_value) = match self.store.get_patch(patch_id) {
            Option::Some(entry) => {
                let ok = matches!(entry.1, PatchStatus::Approved);
                let ph = entry.0.hash();
                let (tgt, pv, ck, cv, pn, plv): (u8, String, String, String, String, String)
                    = match &entry.0.target {
                    PatchTarget::SystemPrompt => {
                        let pv = match entry.0.data.get("prompt") {
                            Option::Some(v) => v.clone(),
                            Option::None => String::new(),
                        };
                        (0u8, pv, String::new(), String::new(), String::new(), String::new())
                    },
                    PatchTarget::Config(k) => {
                        let cv = match entry.0.data.get("value") {
                            Option::Some(v) => v.clone(),
                            Option::None => String::new(),
                        };
                        (1u8, String::new(), k.clone(), cv, String::new(), String::new())
                    },
                    PatchTarget::Policy(nm) => {
                        let plv = match entry.0.data.get("policy") {
                            Option::Some(v) => v.clone(),
                            Option::None => String::new(),
                        };
                        (2u8, String::new(), String::new(), String::new(), nm.clone(), plv)
                    },
                    _ => (3u8, String::new(), String::new(), String::new(), String::new(),
                        String::new()),
                };
                (ok, tgt, ph, pv, ck, cv, pn, plv)
            },
            Option::None => {
                return Err(ApplyError::NotFound(String::from_str(patch_id)));
            },
        };
        if !applicable_now {
            return Err(ApplyError::NotApproved);
        }
        if target_kind == 3 {
            return Err(ApplyError::ApplicationFailed(String::from_str(
                "this target kind is not applied to state")));
        }
        // Mark the patch applied first: the id is present, so the update
        // cannot fail.
        match self.store.update_status(patch_id, PatchStatus::Applied) {
            Ok(()) => {},
            Err(_) => {
                proof {
                    assert(false);
                }
                return Err(ApplyError::NotFound(String::from_str(patch_id)));
            },
        }
        let before_hash = current_state.hash();
        let ghost stored = value_of(old(self).spec_patches(), patch_id@).0;
        let ghost gdomain = target_domain(stored.target);
        let mut changes_made: Vec<String> = Vec::new();
        if target_kind == 0 {
            current_state.set("system_prompt", StateData::Value(StateValue::String(
                prompt_value)));
            changes_made.push(String::from_str("system_prompt"));
            proof {
                assert(gdomain == "system_prompt"@);
                assert(current_state.data.spec_map().dom().contains(gdomain));
                assert(value_of(current_state.data@, gdomain)
                    == current_state.data.spec_map()[gdomain]);
            }
        } else if target_kind == 1 {
            let domain = String::from_str("config.").concat(config_key.as_str());
            current_state.set(domain.as_str(), StateData::Value(StateValue::String(
                config_value)));
            proof {
                assert(domain@ =~= gdomain);
                assert(current_state.data.spec_map().dom().contains(gdomain));
                assert(value_of(current_state.data@, gdomain)
                    == current_state.data.spec_map()[gdomain]);
            }
            changes_made.push(domain);
        } else {
            let domain = String::from_str("policy.").concat(policy_name.as_str());
            current_state.set(domain.as_str(), StateData::Value(StateValue::String(
                policy_value)));
            proof {
                assert(domain@ =~= gdomain);
                assert(current_state.data.spec_map().dom().contains(gdomain));
                assert(value_of(current_state.data@, gdomain)
                    == current_state.data.spec_map()[gdomain]);
            }
            changes_made.push(domain);
        }
        proof {
            assert(current_state.data.spec_map().dom()
                =~= old(current_state).data.spec_map().dom().insert(gdomain));
        }
        let after_hash = current_state.hash();
        let applied_at = crate::timebase::LogicalTime::new(0, self.applied.len() as u64);
        let record = AppliedPatch {
            patch_id: String::from_str(patch_id),
            patch_hash,
            applied_at,
            before_hash,
            after_hash,
            rollback_data: StrMap::new(),
        };
        self.applied.insert(String::from_str(patch_id), record);
        proof {
            assert(self.applied.spec_map().dom().contains(patch_id@));
            assert(value_of(self.applied@, patch_id@)
                == self.applied.spec_map()[patch_id@]);
        }
        Ok(ApplyResult {
            patch_id: String::from_str(patch_id),
            changes_made,
            rollback_data: StrMap::new(),
        })
    }

    /// The stored patches and statuses as a map from id text.
    pub open spec fn spec_patches_map(&self) -> Map<Seq<char>, (Patch, PatchStatus)> {
        crate::kv::map_of(self.spec_patches())
    }

    /// Rolls back an applied patch: the state records the restored hash —
    /// the state hash recorded before the application — under `_rollback`,
    /// and the stored patch becomes `RolledBack`. Fails with `NotFound`,
    /// changing nothing, exactly when no applied record carries the id.
    pub fn rollback(&mut self, patch_id: &str, current_state: &mut AgentState)
        -> (r: Result<RollbackResult, ApplyError>)
        requires
            old(self).wf(),
            old(current_state).wf(),
        ensures
            final(self).wf(),
            final(current_state).wf(),
            (r is Ok) == has_key(old(self).spec_applied(), patch_id@),
            r is Err ==> (r->Err_0 matches ApplyError::NotFound(_))
                && *final(current_state) == *old(current_state)
                && *final(self) == *old(self),
            r matches Ok(res) ==> {
                &&& res.restored_to@
                    == value_of(old(self).spec_applied(), patch_id@).before_hash@
                &&& res.patch_id@ == patch_id@
                &&& final(self).spec_applied() == old(self).spec_applied()
                &&& has_key(final(current_state).data@, "_rollback"@)
                &&& (value_of(final(current_state).data@, "_rollback"@) matches
                    StateData::Value(StateValue::Hash(h)) && h@ == res.restored_to@)
                &&& (has_key(old(self).spec_patches(), patch_id@)
                    ==> value_of(final(self).spec_patches(), patch_id@).1 is RolledBack)
            },
    {
        let before_hash = match self.applied.get(patch_id) {
            Option::Some(rec) => rec.before_hash.clone(),
            Option::None => {
                return Err(ApplyError::NotFound(String::from_str(patch_id)));
            },
        };
        let restored = before_hash.clone();
        current_state.set("_rollback", StateData::Value(StateValue::Hash(before_hash)));
        match self.store.update_status(patch_id, PatchStatus::RolledBack {
            reason: String::from_str("rolled back on request"),
        }) {
            Ok(()) => {},
            Err(_) => {},
        }
        let r = RollbackResult { patch_id: String::from_str(patch_id), restored_to: restored };
        proof {
            assert(current_state.data.spec_map().dom().contains("_rollback"@));
            assert(value_of(current_state.data@, "_rollback"@)
                == current_state.data.spec_map()["_rollback"@]);
        }
        Ok(r)
    }
}

} // verus!
