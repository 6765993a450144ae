//! Declarative policies and their evaluator. Rules are compiled to a fixed
//! tree form and evaluated with explicit deny precedence: a matching deny
//! always wins, then the first matching allow, and with no match at all the
//! answer is a default deny.

use vstd::prelude::*;
use vstd::string::StrSliceExecFns;
use vstd::string::StringExecFns;
use crate::kv::StrMap;
use crate::order::str_eq;

verus! {

/// A policy document: named, versioned rules.
#[derive(Debug)]
pub struct Policy {
    /// The policy name.
    pub name: String,
    /// The policy version.
    pub version: String,
    /// The rules, in declaration order.
    pub rules: Vec<Rule>,
    /// Free-form metadata.
    pub metadata: StrMap<String>,
}

impl Policy {
    /// An empty policy.
    pub fn new(name: &str, version: &str) -> (r: Self)
        ensures
            r.name@ == name@,
            r.version@ == version@,
            r.rules@.len() == 0,
            r.metadata@.len() == 0,
    {
        Policy {
            name: String::from_str(name),
            version: String::from_str(version),
            rules: Vec::new(),
            metadata: StrMap::new(),
        }
    }

    /// Appends a rule.
    pub fn add_rule(&mut self, rule: Rule)
        ensures
            final(self).name == old(self).name,
            final(self).version == old(self).version,
            final(self).metadata == old(self).metadata,
            final(self).rules@ == old(self).rules@.push(rule),
    {
        self.rules.push(rule);
    }

    /// The policy's identifier.
    pub fn id(&self) -> (r: PolicyId)
        ensures
            r.name@ == self.name@,
            r.version@ == self.version@,
    {
        PolicyId { name: self.name.clone(), version: self.version.clone() }
    }
}

/// A policy identifier: name and version.
#[derive(Debug)]
pub struct PolicyId {
    /// The policy name.
    pub name: String,
    /// The policy version.
    pub version: String,
}

impl Clone for PolicyId {
    /// A clone carries the same name and version.
    fn clone(&self) -> (r: Self)
        ensures
            r.name@ == self.name@,
            r.version@ == self.version@,
    {
        PolicyId { name: self.name.clone(), version: self.version.clone() }
    }
}

/// One rule: when its condition holds, its action applies.
#[derive(Debug)]
pub struct Rule {
    /// The rule name.
    pub name: String,
    /// What the rule governs.
    pub kind: RuleKind,
    /// When the rule applies.
    pub condition: Condition,
    /// What it does when it applies.
    pub action: Action,
}

/// What a rule governs.
#[derive(Clone, Debug, PartialEq, Eq)]
pub enum RuleKind {
    /// Capability requests.
    Capability,
    /// Tool calls.
    Tool,
    /// Memory access.
    Memory,
    /// Patch proposals.
    Patch,
    /// Resource use.
    Resource,
    /// Any other subject, by name.
    Custom(String),
}

/// A boolean condition tree.
#[derive(Debug)]
pub enum Condition {
    /// Always holds.
    True,
    /// Never holds.
    False,
    /// All of the inner conditions hold.
    And(Vec<Condition>),
    /// Some inner condition holds.
    Or(Vec<Condition>),
    /// The inner condition does not hold.
    Not(Box<Condition>),
    /// The context holds the capability, wildcard suffixes allowed.
    HasCapability(String),
    /// The tool under evaluation is exactly this one.
    ToolEquals(String),
    /// A state field compares as stated.
    Compare {
        /// The state field to read.
        field: String,
        /// The comparison.
        op: CompareOp,
        /// What to compare against.
        value: Value,
    },
    /// An uninterpreted custom condition; never holds at evaluation.
    Custom(String),
}

/// A comparison operator.
#[derive(Clone, Copy, Debug, PartialEq, Eq, Structural)]
pub enum CompareOp {
    /// Equal.
    Equal,
    /// Not equal.
    NotEqual,
    /// Strictly greater.
    Greater,
    /// Greater or equal.
    GreaterEqual,
    /// Strictly less.
    Less,
    /// Less or equal.
    LessEqual,
}

/// A value a condition can compare against.
#[derive(Debug, PartialEq, Eq)]
pub enum Value {
    /// A string.
    String(String),
    /// An integer.
    Integer(i64),
    /// A boolean.
    Boolean(bool),
    /// A list of values.
    List(Vec<Value>),
}

/// What a matched rule does.
#[derive(Debug)]
pub enum Action {
    /// Allow the operation.
    Allow,
    /// Deny the operation, with a reason.
    Deny {
        /// Why the operation is refused.
        reason: String,
    },
    /// Allow with modifications.
    AllowModified {
        /// The modifications to apply.
        modifications: StrMap<String>,
    },
    /// Require an approval first.
    RequireApproval {
        /// Who must approve.
        approver: String,
        /// Why approval is needed.
        reason: String,
    },
    /// Log and continue.
    Log {
        /// How loudly to log.
        level: LogLevel,
    },
    /// An uninterpreted custom action.
    Custom(String),
}

/// A log level.
#[derive(Clone, Copy, Debug, PartialEq, Eq, Structural)]
pub enum LogLevel {
    /// Diagnostic detail.
    Debug,
    /// Ordinary information.
    Info,
    /// A warning.
    Warn,
    /// An error.
    Error,
}

/// A compiled policy, ready for evaluation.
#[derive(Debug)]
pub struct CompiledPolicy {
    /// The policy's identifier.
    pub id: PolicyId,
    /// The compiled rules, in order.
    pub rules: Vec<CompiledRule>,
    /// Free-form metadata.
    pub metadata: StrMap<String>,
}

/// A compiled rule.
#[derive(Debug)]
pub struct CompiledRule {
    /// The rule name.
    pub name: String,
    /// What the rule governs.
    pub kind: RuleKind,
    /// When the rule applies.
    pub condition: Condition,
    /// What it does when it applies.
    pub action: Action,
}

/// Compiles policies: checks rule names are unique and copies the rules into
/// their compiled form.
pub struct PolicyCompiler;

/// Compilation errors.
#[derive(Clone, Debug, PartialEq, Eq)]
pub enum CompileError {
    /// Two rules share a name.
    DuplicateRule(String),
    /// A condition is malformed.
    InvalidCondition(String),
    /// An action is malformed.
    InvalidAction(String),
    /// Policies depend on each other in a cycle.
    CircularDependency(String),
}

impl PolicyCompiler {
    /// Compiles a policy. Succeeds exactly when all rule names are distinct;
    /// the compiled rules keep the order, names, kinds, conditions and
    /// actions of the source, and the metadata is carried over unchanged.
    pub fn compile(policy: Policy) -> (r: Result<CompiledPolicy, CompileError>)
        ensures
            match r {
                Ok(c) => c.id.name@ == policy.name@ && c.id.version@ == policy.version@
                    && c.metadata == policy.metadata
                    && c.rules@.len() == policy.rules@.len()
                    && (forall|i: int| 0 <= i < c.rules@.len()
                        ==> (#[trigger] c.rules@[i]).name == policy.rules@[i].name
                            && c.rules@[i].kind == policy.rules@[i].kind
                            && c.rules@[i].condition == policy.rules@[i].condition
                            && c.rules@[i].action == policy.rules@[i].action)
                    && (forall|i: int, j: int| 0 <= i < j < policy.rules@.len()
                        ==> (#[trigger] policy.rules@[i]).name@
                            != (#[trigger] policy.rules@[j]).name@),
                Err(CompileError::DuplicateRule(_)) => exists|i: int, j: int|
                    0 <= i < j < policy.rules@.len()
                    && (#[trigger] policy.rules@[i]).name@
                        == (#[trigger] policy.rules@[j]).name@,
                Err(_) => false,
            },
    {
        let n = policy.rules.len();
        let mut i: usize = 0;
        while i < n
            invariant
                n == policy.rules@.len(),
                i <= n,
                forall|a: int, b: int| 0 <= a < b < i
                    ==> (#[trigger] policy.rules@[a]).name@
                        != (#[trigger] policy.rules@[b]).name@,
            decreases n - i,
        {
            let mut j: usize = 0;
            while j < i
                invariant
                    n == policy.rules@.len(),
                    i < n,
                    j <= i,
                    forall|a: int, b: int| 0 <= a < b < i
                        ==> (#[trigger] policy.rules@[a]).name@
                            != (#[trigger] policy.rules@[b]).name@,
                    forall|b: int| 0 <= b < j
                        ==> (#[trigger] policy.rules@[b]).name@ != policy.rules@[i as int].name@,
                decreases i - j,
            {
                if str_eq(policy.rules[j].name.as_str(), policy.rules[i].name.as_str()) {
                    return Err(CompileError::DuplicateRule(policy.rules[i].name.clone()));
                }
                j += 1;
            }
            i += 1;
        }
        let id = policy.id();
        let ghost orig = policy.rules@;
        let mut src = policy.rules;
        let mut rules: Vec<CompiledRule> = Vec::new();
        let mut k: usize = 0;
        while k < n
            invariant
                n == orig.len(),
                k <= n,
                src@ == orig.skip(k as int),
                rules@.len() == k,
                forall|i: int| 0 <= i < k ==> (#[trigger] rules@[i]).name == orig[i].name
                    && rules@[i].kind == orig[i].kind
                    && rules@[i].condition == orig[i].condition
                    && rules@[i].action == orig[i].action,
            decreases n - k,
        {
            let rule = src.remove(0);
            proof {
                assert(rule == orig[k as int]);
                assert(src@ =~= orig.skip(k + 1));
            }
            rules.push(CompiledRule {
                name: rule.name,
                kind: rule.kind,
                condition: rule.condition,
                action: rule.action,
            });
            k += 1;
        }
        Ok(CompiledPolicy { id, rules, metadata: policy.metadata })
    }
}

/// The context a policy is evaluated against.
#[derive(Debug)]
pub struct EvalContext {
    /// The capabilities currently held.
    pub capabilities: Vec<String>,
    /// The tool under evaluation, if any.
    pub tool: Option<String>,
    /// The memory key under evaluation, if any.
    pub memory_key: Option<String>,
    /// The patch type under evaluation, if any.
    pub patch_type: Option<String>,
    /// Named state values conditions can compare.
    pub state: StrMap<Value>,
}

impl EvalContext {
    /// An empty context.
    pub fn new() -> (r: Self)
        ensures
            r.capabilities@.len() == 0,
            r.tool is None,
            r.memory_key is None,
            r.patch_type is None,
            r.state@.len() == 0,
            r.state.wf(),
    {
        EvalContext {
            capabilities: Vec::new(),
            tool: None,
            memory_key: None,
            patch_type: None,
            state: StrMap::new(),
        }
    }

    /// Grants a capability for evaluation.
    pub fn grant(&mut self, capability: &str)
        ensures
            final(self).capabilities@.len() == old(self).capabilities@.len() + 1,
            forall|i: int| 0 <= i < old(self).capabilities@.len()
                ==> final(self).capabilities@[i] == old(self).capabilities@[i],
            final(self).capabilities@[old(self).capabilities@.len() as int]@ == capability@,
            final(self).tool == old(self).tool,
            final(self).memory_key == old(self).memory_key,
            final(self).patch_type == old(self).patch_type,
            final(self).state == old(self).state,
    {
        self.capabilities.push(String::from_str(capability));
    }

    /// Whether the context holds the capability, exactly or under a
    /// wildcard-suffixed grant.
    pub fn has_capability(&self, cap: &str) -> (r: bool)
        ensures
            r == ctx_has_cap(self.capabilities@, cap@),
    {
        let n = self.capabilities.len();
        let mut i: usize = 0;
        while i < n
            invariant
                n == self.capabilities@.len(),
                i <= n,
                forall|j: int| 0 <= j < i ==> !cap_grant_covers(
                    (#[trigger] self.capabilities@[j])@, cap@),
            decreases n - i,
        {
            if grant_covers(self.capabilities[i].as_str(), cap) {
                return true;
            }
            i += 1;
        }
        false
    }
}

/// Whether one granted name covers a capability: exact equality, or the
/// grant ends in `*` and its stem is a prefix of the capability.
pub open spec fn cap_grant_covers(grant: Seq<char>, cap: Seq<char>) -> bool {
    grant == cap
        || (grant.len() > 0 && grant.last() == '*'
            && grant.len() - 1 <= cap.len()
            && cap.take(grant.len() - 1) == grant.take(grant.len() - 1))
}

/// Whether some grant in the list covers the capability.
pub open spec fn ctx_has_cap(grants: Seq<String>, cap: Seq<char>) -> bool {
    exists|i: int| 0 <= i < grants.len() && cap_grant_covers((#[trigger] grants[i])@, cap)
}

/// Decides whether a grant covers a capability.
fn grant_covers(grant: &str, cap: &str) -> (r: bool)
    ensures
        r == cap_grant_covers(grant@, cap@),
{
    if str_eq(grant, cap) {
        return true;
    }
    let gl = grant.unicode_len();
    let cl = cap.unicode_len();
    if gl == 0 {
        return false;
    }
    let last = grant.get_char(gl - 1);
    if last != '*' {
        return false;
    }
    if gl - 1 > cl {
        return false;
    }
    let mut i: usize = 0;
    while i < gl - 1
        invariant
            gl == grant@.len(),
            cl == cap@.len(),
            gl >= 1,
            gl - 1 <= cl,
            i <= gl - 1,
            grant@.last() == '*',
            grant@ != cap@,
            forall|j: int| 0 <= j < i ==> cap@[j] == grant@[j],
        decreases gl - i,
    {
        if cap.get_char(i) != grant.get_char(i) {
            proof {
                assert(cap@.take(grant@.len() - 1)[i as int] != grant@.take(grant@.len() - 1)[i as int]);
            }
            return false;
        }
        i += 1;
    }
    proof {
        assert(cap@.take(grant@.len() - 1) =~= grant@.take(grant@.len() - 1));
    }
    true
}

/// How one evaluation ended.
#[derive(Debug)]
pub struct EvaluationResult {
    /// Whether the operation is allowed.
    pub allowed: bool,
    /// The action of the deciding rule, or a default deny.
    pub action: Action,
    /// The names of the rules that decided.
    pub matched_rules: Vec<String>,
    /// Why the answer is what it is.
    pub reason: String,
}

impl EvaluationResult {
    /// An allow, with a reason.
    pub fn allowed(reason: &str) -> (r: Self)
        ensures
            r.allowed,
            r.reason@ == reason@,
    {
        EvaluationResult {
            allowed: true,
            action: Action::Allow,
            matched_rules: Vec::new(),
            reason: String::from_str(reason),
        }
    }

    /// A deny, with a reason.
    pub fn denied(reason: &str) -> (r: Self)
        ensures
            !r.allowed,
            r.reason@ == reason@,
            r.action matches Action::Deny { reason: q } && q@ == reason@,
    {
        EvaluationResult {
            allowed: false,
            action: Action::Deny { reason: String::from_str(reason) },
            matched_rules: Vec::new(),
            reason: String::from_str(reason),
        }
    }
}

/// Whether a condition holds in a context, given the tool under evaluation.
pub open spec fn spec_eval_cond(c: Condition, grants: Seq<String>,
    state: Seq<(Seq<char>, Value)>, tool: Option<Seq<char>>) -> bool
    decreases c,
{
    match c {
        Condition::True => true,
        Condition::False => false,
        Condition::And(cs) => spec_eval_all(cs@, grants, state, tool),
        Condition::Or(cs) => spec_eval_any(cs@, grants, state, tool),
        Condition::Not(inner) => !spec_eval_cond(*inner, grants, state, tool),
        Condition::HasCapability(cap) => ctx_has_cap(grants, cap@),
        Condition::ToolEquals(t) => tool == Some(t@),
        Condition::Compare { field, op, value } => crate::kv::has_key(state, field@)
            && spec_compare(crate::kv::value_of(state, field@), op, value),
        Condition::Custom(_) => false,
    }
}

/// Whether every condition holds.
pub open spec fn spec_eval_all(cs: Seq<Condition>, grants: Seq<String>,
    state: Seq<(Seq<char>, Value)>, tool: Option<Seq<char>>) -> bool
    decreases cs,
{
    if cs.len() == 0 {
        true
    } else {
        spec_eval_cond(cs[0], grants, state, tool)
            && spec_eval_all(cs.drop_first(), grants, state, tool)
    }
}

/// Whether some condition holds.
pub open spec fn spec_eval_any(cs: Seq<Condition>, grants: Seq<String>,
    state: Seq<(Seq<char>, Value)>, tool: Option<Seq<char>>) -> bool
    decreases cs,
{
    if cs.len() == 0 {
        false
    } else {
        spec_eval_cond(cs[0], grants, state, tool)
            || spec_eval_any(cs.drop_first(), grants, state, tool)
    }
}

/// How two values compare; values of different types never compare.
pub open spec fn spec_compare(left: Value, op: CompareOp, right: Value) -> bool {
    match (left, right) {
        (Value::String(a), Value::String(b)) => match op {
            CompareOp::Equal => a@ == b@,
            CompareOp::NotEqual => a@ != b@,
            _ => false,
        },
        (Value::Integer(a), Value::Integer(b)) => match op {
            CompareOp::Equal => a == b,
            CompareOp::NotEqual => a != b,
            CompareOp::Greater => a > b,
            CompareOp::GreaterEqual => a >= b,
            CompareOp::Less => a < b,
            CompareOp::LessEqual => a <= b,
        },
        (Value::Boolean(a), Value::Boolean(b)) => match op {
            CompareOp::Equal => a == b,
            CompareOp::NotEqual => a != b,
            _ => false,
        },
        _ => false,
    }
}

/// Evaluates policies against contexts.
#[derive(Debug)]
pub struct PolicyEngine {
    policies: Vec<CompiledPolicy>,
}

/// The rules of all policies, flattened in order, each with its policy name.
pub open spec fn all_rules(ps: Seq<CompiledPolicy>) -> Seq<(String, CompiledRule)>
    decreases ps,
{
    if ps.len() == 0 {
        Seq::empty()
    } else {
        pairs_of(ps[0]) + all_rules(ps.drop_first())
    }
}

/// A policy's rules, each tagged with the policy name.
pub open spec fn pairs_of(p: CompiledPolicy) -> Seq<(String, CompiledRule)> {
    Seq::new(p.rules@.len(), |i: int| (p.id.name, p.rules@[i]))
}

/// Whether a flattened rule matches this evaluation: right kind, condition
/// holds. For capability rules with a bare capability condition the
/// condition is matched against the requested capability itself.
/// Whether two rule kinds name the same subject.
pub open spec fn kind_matches(a: RuleKind, b: RuleKind) -> bool {
    match (a, b) {
        (RuleKind::Capability, RuleKind::Capability) => true,
        (RuleKind::Tool, RuleKind::Tool) => true,
        (RuleKind::Memory, RuleKind::Memory) => true,
        (RuleKind::Patch, RuleKind::Patch) => true,
        (RuleKind::Resource, RuleKind::Resource) => true,
        (RuleKind::Custom(x), RuleKind::Custom(y)) => x@ == y@,
        _ => false,
    }
}

pub open spec fn rule_matches(pr: (String, CompiledRule), kind: RuleKind, subject: Seq<char>,
    grants: Seq<String>, state: Seq<(Seq<char>, Value)>, tool: Option<Seq<char>>) -> bool {
    kind_matches(pr.1.kind, kind) && {
        if kind is Capability {
            match pr.1.condition {
                Condition::HasCapability(rc) => rc@ == subject,
                _ => spec_eval_cond(pr.1.condition, grants, state, tool),
            }
        } else {
            spec_eval_cond(pr.1.condition, grants, state, tool)
        }
    }
}

impl PolicyEngine {
    /// The compiled policies, in the order they were added.
    pub closed spec fn spec_policies(&self) -> Seq<CompiledPolicy> {
        self.policies@
    }

    /// An engine with no policies.
    pub fn new() -> (r: Self)
        ensures
            r.spec_policies() == Seq::<CompiledPolicy>::empty(),
    {
        let r = PolicyEngine { policies: Vec::new() };
        proof {
            assert(r.spec_policies() =~= Seq::<CompiledPolicy>::empty());
        }
        r
    }

    /// Adds a policy after the ones already held.
    pub fn add_policy(&mut self, policy: CompiledPolicy)
        ensures
            final(self).spec_policies() == old(self).spec_policies().push(policy),
    {
        self.policies.push(policy);
    }
}


/// Whether policy `i`, rule `j` matches this evaluation.
pub open spec fn match_at(ps: Seq<CompiledPolicy>, i: int, j: int, kind: RuleKind,
    subject: Seq<char>, grants: Seq<String>, state: Seq<(Seq<char>, Value)>,
    tool: Option<Seq<char>>) -> bool {
    0 <= i < ps.len() && 0 <= j < ps[i].rules@.len()
        && rule_matches((ps[i].id.name, ps[i].rules@[j]), kind, subject, grants, state, tool)
}

/// Whether a matching deny stands at policy `i`, rule `j`.
pub open spec fn deny_at(ps: Seq<CompiledPolicy>, i: int, j: int, kind: RuleKind,
    subject: Seq<char>, grants: Seq<String>, state: Seq<(Seq<char>, Value)>,
    tool: Option<Seq<char>>) -> bool {
    match_at(ps, i, j, kind, subject, grants, state, tool)
        && ps[i].rules@[j].action is Deny
}

/// Whether a matching allow stands at policy `i`, rule `j`.
pub open spec fn allow_at(ps: Seq<CompiledPolicy>, i: int, j: int, kind: RuleKind,
    subject: Seq<char>, grants: Seq<String>, state: Seq<(Seq<char>, Value)>,
    tool: Option<Seq<char>>) -> bool {
    match_at(ps, i, j, kind, subject, grants, state, tool)
        && ps[i].rules@[j].action is Allow
}

/// The answer the engine owes for a given kind, subject and context: denied
/// when any matching deny stands, else allowed when a matching allow stands,
/// else denied by default.
pub open spec fn spec_allowed(ps: Seq<CompiledPolicy>, kind: RuleKind, subject: Seq<char>,
    grants: Seq<String>, state: Seq<(Seq<char>, Value)>, tool: Option<Seq<char>>) -> bool {
    (exists|i: int, j: int| allow_at(ps, i, j, kind, subject, grants, state, tool))
        && !(exists|i: int, j: int| deny_at(ps, i, j, kind, subject, grants, state, tool))
}

/// A conjunction of all conditions holds exactly when each does.
pub proof fn lemma_eval_all(cs: Seq<Condition>, grants: Seq<String>,
    state: Seq<(Seq<char>, Value)>, tool: Option<Seq<char>>)
    ensures
        spec_eval_all(cs, grants, state, tool)
            == forall|i: int| 0 <= i < cs.len()
                ==> spec_eval_cond(#[trigger] cs[i], grants, state, tool),
    decreases cs,
{
    if cs.len() > 0 {
        lemma_eval_all(cs.drop_first(), grants, state, tool);
        if spec_eval_cond(cs[0], grants, state, tool)
            && spec_eval_all(cs.drop_first(), grants, state, tool) {
            assert forall|i: int| 0 <= i < cs.len()
                implies spec_eval_cond(#[trigger] cs[i], grants, state, tool) by {
                if i > 0 {
                    assert(cs.drop_first()[i - 1] == cs[i]);
                }
            }
        } else {
            if !spec_eval_cond(cs[0], grants, state, tool) {
            } else {
                let w = choose|i: int| 0 <= i < cs.drop_first().len()
                    && !spec_eval_cond(#[trigger] cs.drop_first()[i], grants, state, tool);
                assert(cs[w + 1] == cs.drop_first()[w]);
            }
        }
    }
}

/// A disjunction of conditions holds exactly when some condition does.
pub proof fn lemma_eval_any(cs: Seq<Condition>, grants: Seq<String>,
    state: Seq<(Seq<char>, Value)>, tool: Option<Seq<char>>)
    ensures
        spec_eval_any(cs, grants, state, tool)
            == exists|i: int| 0 <= i < cs.len()
                && spec_eval_cond(#[trigger] cs[i], grants, state, tool),
    decreases cs,
{
    if cs.len() > 0 {
        lemma_eval_any(cs.drop_first(), grants, state, tool);
        if spec_eval_cond(cs[0], grants, state, tool) {
        } else if spec_eval_any(cs.drop_first(), grants, state, tool) {
            let w = choose|i: int| 0 <= i < cs.drop_first().len()
                && spec_eval_cond(#[trigger] cs.drop_first()[i], grants, state, tool);
            assert(cs[w + 1] == cs.drop_first()[w]);
        } else {
            if exists|i: int| 0 <= i < cs.len()
                && spec_eval_cond(#[trigger] cs[i], grants, state, tool) {
                let w = choose|i: int| 0 <= i < cs.len()
                    && spec_eval_cond(#[trigger] cs[i], grants, state, tool);
                assert(w > 0);
                assert(cs.drop_first()[w - 1] == cs[w]);
            }
        }
    }
}

/// Decides a comparison; values of different types never compare.
fn compare_values(left: &Value, op: &CompareOp, right: &Value) -> (r: bool)
    ensures
        r == spec_compare(*left, *op, *right),
{
    match (left, right) {
        (Value::String(a), Value::String(b)) => match op {
            CompareOp::Equal => str_eq(a.as_str(), b.as_str()),
            CompareOp::NotEqual => !str_eq(a.as_str(), b.as_str()),
            _ => false,
        },
        (Value::Integer(a), Value::Integer(b)) => match op {
            CompareOp::Equal => *a == *b,
            CompareOp::NotEqual => *a != *b,
            CompareOp::Greater => *a > *b,
            CompareOp::GreaterEqual => *a >= *b,
            CompareOp::Less => *a < *b,
            CompareOp::LessEqual => *a <= *b,
        },
        (Value::Boolean(a), Value::Boolean(b)) => match op {
            CompareOp::Equal => *a == *b,
            CompareOp::NotEqual => *a != *b,
            _ => false,
        },
        _ => false,
    }
}

/// Decides a condition against a context and the tool under evaluation.
fn eval_condition(c: &Condition, ctx: &EvalContext, tool: Option<&String>) -> (r: bool)
    requires
        ctx.state.wf(),
    ensures
        r == spec_eval_cond(*c, ctx.capabilities@, ctx.state@, opt_string_view(tool)),
    decreases *c,
{
    match c {
        Condition::True => true,
        Condition::False => false,
        Condition::And(cs) => {
            let n = cs.len();
            let mut i: usize = 0;
            let mut all = true;
            while i < n
                invariant
                    *c == Condition::And(*cs),
                    ctx.state.wf(),
                    n == cs@.len(),
                    i <= n,
                    all == forall|j: int| 0 <= j < i
                        ==> spec_eval_cond(#[trigger] cs@[j], ctx.capabilities@, ctx.state@,
                            opt_string_view(tool)),
                decreases n - i,
            {
                proof {
                    assert((*c)->And_0 == *cs);
                    assert(decreases_to!(*c => (*c)->And_0));
                    assert(decreases_to!(*cs => cs@));
                    assert(decreases_to!(cs@ => cs@[i as int]));
                    assert(decreases_to!(*c => cs@[i as int]));
                }
                let h = eval_condition(&cs[i], ctx, tool);
                all = all && h;
                i += 1;
            }
            proof {
                lemma_eval_all(cs@, ctx.capabilities@, ctx.state@, opt_string_view(tool));
            }
            all
        },
        Condition::Or(cs) => {
            let n = cs.len();
            let mut i: usize = 0;
            let mut any = false;
            while i < n
                invariant
                    *c == Condition::Or(*cs),
                    ctx.state.wf(),
                    n == cs@.len(),
                    i <= n,
                    any == exists|j: int| 0 <= j < i
                        && spec_eval_cond(#[trigger] cs@[j], ctx.capabilities@, ctx.state@,
                            opt_string_view(tool)),
                decreases n - i,
            {
                proof {
                    assert((*c)->Or_0 == *cs);
                    assert(decreases_to!(*c => (*c)->Or_0));
                    assert(decreases_to!(*cs => cs@));
                    assert(decreases_to!(cs@ => cs@[i as int]));
                    assert(decreases_to!(*c => cs@[i as int]));
                }
                let h = eval_condition(&cs[i], ctx, tool);
                proof {
                    if h {
                        assert(spec_eval_cond(cs@[i as int], ctx.capabilities@, ctx.state@,
                            opt_string_view(tool)));
                    }
                }
                any = any || h;
                i += 1;
            }
            proof {
                lemma_eval_any(cs@, ctx.capabilities@, ctx.state@, opt_string_view(tool));
            }
            any
        },
        Condition::Not(inner) => {
            proof {
                assert((*c)->Not_0 == *inner);
                assert(decreases_to!(*c => (*c)->Not_0));
            }
            !eval_condition(inner, ctx, tool)
        },
        Condition::HasCapability(cap) => ctx.has_capability(cap.as_str()),
        Condition::ToolEquals(t) => match tool {
            Option::Some(name) => str_eq(name.as_str(), t.as_str()),
            Option::None => false,
        },
        Condition::Compare { field, op, value } => match ctx.state.get(field.as_str()) {
            Option::Some(left) => compare_values(left, op, value),
            Option::None => false,
        },
        Condition::Custom(_) => false,
    }
}

/// The characters of an optional string.
pub open spec fn opt_string_view(t: Option<&String>) -> Option<Seq<char>> {
    match t {
        Option::Some(s) => Option::Some(s@),
        Option::None => Option::<Seq<char>>::None,
    }
}

impl PolicyEngine {
    /// Decides one evaluation: an explicit deny wins, then the first allow,
    /// and with no matching rule the default is a deny whose reason opens
    /// with `No policy allows`.
    fn evaluate_kind(&self, kind: &RuleKind, subject: &str, desc: &str, ctx: &EvalContext,
        tool: Option<&String>) -> (r: EvaluationResult)
        requires
            ctx.state.wf(),
        ensures
            r.allowed == spec_allowed(self.spec_policies(), *kind, subject@,
                ctx.capabilities@, ctx.state@, opt_string_view(tool)),
            (exists|i: int, j: int| deny_at(self.spec_policies(), i, j, *kind, subject@,
                ctx.capabilities@, ctx.state@, opt_string_view(tool)))
                ==> exists|i: int, j: int| {
                    &&& deny_at(self.spec_policies(), i, j, *kind, subject@,
                        ctx.capabilities@, ctx.state@, opt_string_view(tool))
                    &&& (self.spec_policies()[i].rules@[j].action matches
                        Action::Deny { reason: q } && r.reason@ == q@)
                    &&& forall|i2: int, j2: int| (i2 < i || (i2 == i && j2 < j))
                        ==> !deny_at(self.spec_policies(), i2, j2, *kind, subject@,
                            ctx.capabilities@, ctx.state@, opt_string_view(tool))
                },
            !(exists|i: int, j: int| match_at(self.spec_policies(), i, j, *kind, subject@,
                ctx.capabilities@, ctx.state@, opt_string_view(tool)))
                ==> r.reason@ == "No policy allows: "@ + desc@,
    {
        let ghost ps = self.spec_policies();
        let ghost grants = ctx.capabilities@;
        let ghost st = ctx.state@;
        let ghost tl = opt_string_view(tool);
        let np = self.policies.len();
        let mut deny_reason: Option<String> = None;
        let mut deny_rule: Option<String> = None;
        let mut allow_policy: Option<String> = None;
        let mut allow_rule: Option<String> = None;
        let mut matched = false;
        let mut pi: usize = 0;
        while pi < np
            invariant
                ctx.state.wf(),
                ps == self.spec_policies(),
                grants == ctx.capabilities@,
                st == ctx.state@,
                tl == opt_string_view(tool),
                np == ps.len(),
                pi <= np,
                matched == exists|i: int, j: int| i < pi
                    && match_at(ps, i, j, *kind, subject@, grants, st, tl),
                deny_reason is Some <==> exists|i: int, j: int| i < pi
                    && deny_at(ps, i, j, *kind, subject@, grants, st, tl),
                deny_reason is Some ==> exists|i: int, j: int| {
                    &&& i < pi
                    &&& deny_at(ps, i, j, *kind, subject@, grants, st, tl)
                    &&& (ps[i].rules@[j].action matches Action::Deny { reason: q }
                        && deny_reason->0@ == q@)
                    &&& deny_rule matches Some(dn) && dn == ps[i].rules@[j].name
                    &&& forall|i2: int, j2: int| (i2 < i || (i2 == i && j2 < j))
                        ==> !deny_at(ps, i2, j2, *kind, subject@, grants, st, tl)
                },
                allow_policy is Some <==> exists|i: int, j: int| i < pi
                    && allow_at(ps, i, j, *kind, subject@, grants, st, tl),
                allow_policy is Some ==> allow_rule is Some,
                allow_policy is Some ==> exists|i: int, j: int| {
                    &&& i < pi
                    &&& allow_at(ps, i, j, *kind, subject@, grants, st, tl)
                    &&& allow_policy->0@ == ps[i].id.name@
                    &&& allow_rule matches Some(an) && an == ps[i].rules@[j].name
                },
            decreases np - pi,
        {
            let p = &self.policies[pi];
            let nr = p.rules.len();
            let mut rj: usize = 0;
            while rj < nr
                invariant
                    ctx.state.wf(),
                    ps == self.spec_policies(),
                    grants == ctx.capabilities@,
                    st == ctx.state@,
                    tl == opt_string_view(tool),
                    np == ps.len(),
                    pi < np,
                    *p == ps[pi as int],
                    nr == p.rules@.len(),
                    rj <= nr,
                    matched == exists|i: int, j: int| (i < pi || (i == pi && j < rj))
                        && match_at(ps, i, j, *kind, subject@, grants, st, tl),
                    deny_reason is Some <==> exists|i: int, j: int| (i < pi || (i == pi && j < rj))
                        && deny_at(ps, i, j, *kind, subject@, grants, st, tl),
                    deny_reason is Some ==> exists|i: int, j: int| {
                        &&& (i < pi || (i == pi && j < rj))
                        &&& deny_at(ps, i, j, *kind, subject@, grants, st, tl)
                        &&& (ps[i].rules@[j].action matches Action::Deny { reason: q }
                            && deny_reason->0@ == q@)
                        &&& deny_rule matches Some(dn) && dn == ps[i].rules@[j].name
                        &&& forall|i2: int, j2: int| (i2 < i || (i2 == i && j2 < j))
                            ==> !deny_at(ps, i2, j2, *kind, subject@, grants, st, tl)
                    },
                    allow_policy is Some <==> exists|i: int, j: int| (i < pi || (i == pi && j < rj))
                        && allow_at(ps, i, j, *kind, subject@, grants, st, tl),
                    allow_policy is Some ==> allow_rule is Some,
                    allow_policy is Some ==> exists|i: int, j: int| {
                        &&& (i < pi || (i == pi && j < rj))
                        &&& allow_at(ps, i, j, *kind, subject@, grants, st, tl)
                        &&& allow_policy->0@ == ps[i].id.name@
                        &&& allow_rule matches Some(an) && an == ps[i].rules@[j].name
                    },
                decreases nr - rj,
            {
                let rule = &p.rules[rj];
                let kind_hit = rule_kind_eq(&rule.kind, kind);
                let mut hit = false;
                if kind_hit {
                    if matches!(kind, RuleKind::Capability) {
                        match &rule.condition {
                            Condition::HasCapability(rc) => {
                                hit = str_eq(rc.as_str(), subject);
                            },
                            _ => {
                                hit = eval_condition(&rule.condition, ctx, tool);
                            },
                        }
                    } else {
                        hit = eval_condition(&rule.condition, ctx, tool);
                    }
                }
                proof {
                    assert(hit == rule_matches((ps[pi as int].id.name,
                        ps[pi as int].rules@[rj as int]), *kind, subject@, grants, st, tl)
                        || !kind_hit);
                    if !kind_hit {
                        assert(!match_at(ps, pi as int, rj as int, *kind, subject@, grants,
                            st, tl));
                    }
                }
                if hit {
                    matched = true;
                    match &rule.action {
                        Action::Deny { reason } => {
                            if deny_reason.is_none() {
                                deny_reason = Some(reason.clone());
                                deny_rule = Some(rule.name.clone());
                                proof {
                                    assert(deny_at(ps, pi as int, rj as int, *kind, subject@,
                                        grants, st, tl));
                                }
                            }
                        },
                        Action::Allow => {
                            if allow_policy.is_none() {
                                allow_policy = Some(p.id.name.clone());
                                allow_rule = Some(rule.name.clone());
                                proof {
                                    assert(allow_at(ps, pi as int, rj as int, *kind, subject@,
                                        grants, st, tl));
                                }
                            }
                        },
                        _ => {},
                    }
                    proof {
                        assert(match_at(ps, pi as int, rj as int, *kind, subject@, grants,
                            st, tl));
                    }
                }
                rj += 1;
            }
            pi += 1;
        }
        if deny_reason.is_some() {
            let q = match deny_reason {
                Option::Some(q) => q,
                Option::None => String::new(),
            };
            let dn = match deny_rule {
                Option::Some(d) => d,
                Option::None => String::new(),
            };
            let mut matched_rules: Vec<String> = Vec::new();
            matched_rules.push(dn);
            return EvaluationResult {
                allowed: false,
                action: Action::Deny { reason: q.clone() },
                matched_rules,
                reason: q,
            };
        }
        if allow_policy.is_some() {
            let pn = match allow_policy {
                Option::Some(p) => p,
                Option::None => String::new(),
            };
            let an = match allow_rule {
                Option::Some(a) => a,
                Option::None => String::new(),
            };
            let reason = String::from_str("Allowed by policy ").concat(pn.as_str())
                .concat(" rule ").concat(an.as_str());
            let mut matched_rules: Vec<String> = Vec::new();
            matched_rules.push(an);
            return EvaluationResult {
                allowed: true,
                action: Action::Allow,
                matched_rules,
                reason,
            };
        }
        let reason = String::from_str("No policy allows: ").concat(desc);
        EvaluationResult {
            allowed: false,
            action: Action::Deny { reason: reason.clone() },
            matched_rules: Vec::new(),
            reason,
        }
    }

    /// Evaluates a tool call: the tool under evaluation is the named one.
    pub fn evaluate_tool(&self, tool: &str, context: &EvalContext) -> (r: EvaluationResult)
        requires
            context.state.wf(),
        ensures
            r.allowed == spec_allowed(self.spec_policies(), RuleKind::Tool, tool@,
                context.capabilities@, context.state@, Some(tool@)),
    {
        let subject_tool = String::from_str(tool);
        let desc = String::from_str("tool: ").concat(tool);
        self.evaluate_kind(&RuleKind::Tool, tool, desc.as_str(), context, Some(&subject_tool))
    }

    /// Evaluates a capability request. With no matching rule at all the
    /// result is a default deny whose reason opens with `No policy allows`.
    pub fn evaluate_capability(&self, cap: &str, context: &EvalContext) -> (r: EvaluationResult)
        requires
            context.state.wf(),
        ensures
            r.allowed == spec_allowed(self.spec_policies(), RuleKind::Capability, cap@,
                context.capabilities@, context.state@, opt_string_view_ref(context.tool)),
            !(exists|i: int, j: int| match_at(self.spec_policies(), i, j, RuleKind::Capability,
                cap@, context.capabilities@, context.state@, opt_string_view_ref(context.tool)))
                ==> r.reason@ == "No policy allows: "@ + "capability: "@ + cap@,
            (exists|i: int, j: int| deny_at(self.spec_policies(), i, j, RuleKind::Capability,
                cap@, context.capabilities@, context.state@, opt_string_view_ref(context.tool)))
                ==> exists|i: int, j: int| {
                    &&& deny_at(self.spec_policies(), i, j, RuleKind::Capability, cap@,
                        context.capabilities@, context.state@, opt_string_view_ref(context.tool))
                    &&& (self.spec_policies()[i].rules@[j].action matches
                        Action::Deny { reason: q } && r.reason@ == q@)
                },
    {
        let desc = String::from_str("capability: ").concat(cap);
        let r = match &context.tool {
            Option::Some(t) => self.evaluate_kind(&RuleKind::Capability, cap, desc.as_str(),
                context, Some(t)),
            Option::None => self.evaluate_kind(&RuleKind::Capability, cap, desc.as_str(),
                context, None),
        };
        proof {
            assert(desc@ =~= "capability: "@ + cap@);
            assert("No policy allows: "@ + desc@ =~= "No policy allows: "@ + "capability: "@
                + cap@);
        }
        r
    }

    /// Evaluates a patch proposal by its type.
    pub fn evaluate_patch(&self, patch_type: &str, context: &EvalContext)
        -> (r: EvaluationResult)
        requires
            context.state.wf(),
        ensures
            r.allowed == spec_allowed(self.spec_policies(), RuleKind::Patch, patch_type@,
                context.capabilities@, context.state@, opt_string_view_ref(context.tool)),
    {
        let desc = String::from_str("patch: ").concat(patch_type);
        match &context.tool {
            Option::Some(t) => self.evaluate_kind(&RuleKind::Patch, patch_type, desc.as_str(),
                context, Some(t)),
            Option::None => self.evaluate_kind(&RuleKind::Patch, patch_type, desc.as_str(),
                context, None),
        }
    }
}

/// The characters of an optional owned string.
pub open spec fn opt_string_view_ref(t: Option<String>) -> Option<Seq<char>> {
    match t {
        Option::Some(s) => Option::Some(s@),
        Option::None => Option::<Seq<char>>::None,
    }
}

/// Decides whether two rule kinds are the same.
fn rule_kind_eq(a: &RuleKind, b: &RuleKind) -> (r: bool)
    ensures
        r == kind_matches(*a, *b),
{
    match (a, b) {
        (RuleKind::Capability, RuleKind::Capability) => true,
        (RuleKind::Tool, RuleKind::Tool) => true,
        (RuleKind::Memory, RuleKind::Memory) => true,
        (RuleKind::Patch, RuleKind::Patch) => true,
        (RuleKind::Resource, RuleKind::Resource) => true,
        (RuleKind::Custom(x), RuleKind::Custom(y)) => str_eq(x.as_str(), y.as_str()),
        _ => false,
    }
}

} // verus!
