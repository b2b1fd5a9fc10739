//! Default-deny attribute-based access control with strict tenant isolation: a request
//! across tenants is refused unless the caller is a super-admin, an applicable deny rule
//! overrides every allow, and without an applicable allow the request is refused.
use crate::error::KeiroxError;
use crate::model::{StreamId, TenantId};
use crate::security::tenant_debug;
use crate::text::{debug_bytes, debug_str, debug_string, push_debug_bytes, push_str, str_equal};
use vstd::prelude::*;

verus! {

/// Actions subject to authorization policies.
#[derive(Debug, Clone, Copy, PartialEq, Eq, Structural, Hash)]
pub enum Action {
    /// Ingest/produce messages to a micro-stream.
    Produce,
    /// Consume records from a micro-stream.
    Consume,
    /// Lease an offset from a consumer group queue.
    Lease,
    /// Acknowledge consumption of an offset.
    Ack,
    /// Negative acknowledge consumption of an offset.
    Nack,
    /// Evict record to virtual dead-letter queue.
    EvictDlq,
    /// Perform cryptographic erasure/key shredding.
    CryptoShred,
    /// Register or evolve schema definition.
    SchemaRegister,
    /// Commit Iceberg snapshot.
    SnapshotCommit,
    /// Administrative cluster configuration and node inspection.
    Admin,
}

/// `{:?}` of an action: its variant name.
pub open spec fn action_debug(a: Action) -> Seq<char> {
    match a {
        Action::Produce => "Produce"@,
        Action::Consume => "Consume"@,
        Action::Lease => "Lease"@,
        Action::Ack => "Ack"@,
        Action::Nack => "Nack"@,
        Action::EvictDlq => "EvictDlq"@,
        Action::CryptoShred => "CryptoShred"@,
        Action::SchemaRegister => "SchemaRegister"@,
        Action::SnapshotCommit => "SnapshotCommit"@,
        Action::Admin => "Admin"@,
    }
}

fn push_action_debug(s: &mut String, a: Action)
    ensures
        final(s)@ == old(s)@ + action_debug(a),
{
    match a {
        Action::Produce => push_str(s, "Produce"),
        Action::Consume => push_str(s, "Consume"),
        Action::Lease => push_str(s, "Lease"),
        Action::Ack => push_str(s, "Ack"),
        Action::Nack => push_str(s, "Nack"),
        Action::EvictDlq => push_str(s, "EvictDlq"),
        Action::CryptoShred => push_str(s, "CryptoShred"),
        Action::SchemaRegister => push_str(s, "SchemaRegister"),
        Action::SnapshotCommit => push_str(s, "SnapshotCommit"),
        Action::Admin => push_str(s, "Admin"),
    }
}

fn push_tenant_debug(s: &mut String, t: TenantId)
    ensures
        final(s)@ == old(s)@ + tenant_debug(t),
{
    push_str(s, "TenantId(");
    push_debug_bytes(s, &t.0);
    push_str(s, ")");
}

fn push_debug_str(s: &mut String, t: &str)
    ensures
        final(s)@ == old(s)@ + debug_str(t@),
{
    let d = debug_string(t);
    push_str(s, d.as_str());
}

/// Target resource for authorization evaluation.
#[derive(Debug, Clone)]
pub enum Resource {
    /// Stream belonging to a tenant.
    Stream {
        /// Owning tenant ID.
        tenant_id: TenantId,
        /// Target stream ID.
        stream_id: StreamId,
    },
    /// Consumer group belonging to a tenant.
    ConsumerGroup {
        /// Owning tenant ID.
        tenant_id: TenantId,
        /// Consumer group identifier.
        group_id: String,
    },
    /// Entire tenant domain.
    Tenant(TenantId),
    /// System-wide administrative resource.
    System,
}

/// The tenant a resource belongs to.
pub open spec fn resource_tenant(r: Resource) -> Option<TenantId> {
    match r {
        Resource::Stream { tenant_id, .. } => Some(tenant_id),
        Resource::ConsumerGroup { tenant_id, .. } => Some(tenant_id),
        Resource::Tenant(t) => Some(t),
        Resource::System => None,
    }
}

/// `{:?}` of a resource.
pub open spec fn resource_debug(r: Resource) -> Seq<char> {
    match r {
        Resource::Stream { tenant_id, stream_id } => "Stream { tenant_id: "@ + tenant_debug(tenant_id)
            + ", stream_id: StreamId("@ + debug_bytes(stream_id.0@) + ") }"@,
        Resource::ConsumerGroup { tenant_id, group_id } => "ConsumerGroup { tenant_id: "@
            + tenant_debug(tenant_id) + ", group_id: "@ + debug_str(group_id@) + " }"@,
        Resource::Tenant(t) => "Tenant("@ + tenant_debug(t) + ")"@,
        Resource::System => "System"@,
    }
}

fn push_resource_debug(s: &mut String, r: &Resource)
    ensures
        final(s)@ == old(s)@ + resource_debug(*r),
{
    match r {
        Resource::Stream { tenant_id, stream_id } => {
            push_str(s, "Stream { tenant_id: ");
            push_tenant_debug(s, *tenant_id);
            push_str(s, ", stream_id: StreamId(");
            push_debug_bytes(s, &stream_id.0);
            push_str(s, ") }");
        },
        Resource::ConsumerGroup { tenant_id, group_id } => {
            push_str(s, "ConsumerGroup { tenant_id: ");
            push_tenant_debug(s, *tenant_id);
            push_str(s, ", group_id: ");
            push_debug_str(s, group_id.as_str());
            push_str(s, " }");
        },
        Resource::Tenant(t) => {
            push_str(s, "Tenant(");
            push_tenant_debug(s, *t);
            push_str(s, ")");
        },
        Resource::System => {
            push_str(s, "System");
        },
    }
}

impl Resource {
    /// Extract the tenant ID associated with this resource, if any.
    pub fn tenant_id(&self) -> (r: Option<TenantId>)
        ensures
            r == resource_tenant(*self),
    {
        match self {
            Resource::Stream { tenant_id, .. } => Some(*tenant_id),
            Resource::ConsumerGroup { tenant_id, .. } => Some(*tenant_id),
            Resource::Tenant(t) => Some(*t),
            Resource::System => None,
        }
    }
}

/// The texts of a list of strings.
pub open spec fn texts(v: Seq<String>) -> Seq<Seq<char>> {
    v.map_values(|s: String| s@)
}

/// Principal context identifying the authenticated caller and their security attributes.
#[derive(Debug, Clone)]
pub struct PrincipalContext {
    /// Authenticated principal identifier.
    pub principal_id: String,
    /// Home tenant ID of the principal.
    pub tenant_id: TenantId,
    /// Assigned security roles (e.g. "producer", "consumer", "operator", "admin").
    pub roles: Vec<String>,
    /// Additional context attributes (e.g. client IP, auth method, environment).
    pub attributes: Vec<(String, String)>,
}

impl PrincipalContext {
    /// Create a new principal context with the given roles and no attributes.
    pub fn new(principal_id: &str, tenant_id: TenantId, roles: Vec<&str>) -> (r: Self)
        ensures
            r.principal_id@ == principal_id@,
            r.tenant_id == tenant_id,
            texts(r.roles@) == roles@.map_values(|s: &str| s@),
            r.attributes@.len() == 0,
    {
        let mut owned: Vec<String> = Vec::new();
        let mut i: usize = 0;
        while i < roles.len()
            invariant
                i <= roles@.len(),
                owned@.len() == i,
                texts(owned@) == roles@.take(i as int).map_values(|s: &str| s@),
            decreases roles.len() - i,
        {
            let mut role = String::new();
            push_str(&mut role, roles[i]);
            assert(role@ =~= roles@[i as int]@);
            let ghost before = owned@;
            owned.push(role);
            proof {
                let want = roles@.take(i as int + 1).map_values(|s: &str| s@);
                assert forall|j: int| 0 <= j < owned@.len() implies texts(owned@)[j] == want[j] by {
                    if j < i {
                        assert(texts(before)[j] == roles@.take(i as int).map_values(|s: &str| s@)[j]);
                        assert(owned@[j] == before[j]);
                    }
                }
                assert(texts(owned@) =~= want);
            }
            i = i + 1;
        }
        assert(roles@.take(roles@.len() as int) =~= roles@);
        let mut pid = String::new();
        push_str(&mut pid, principal_id);
        PrincipalContext { principal_id: pid, tenant_id, roles: owned, attributes: Vec::new() }
    }
}

/// Policy effect (Allow or Deny).
#[derive(Debug, Clone, Copy, PartialEq, Eq, Structural)]
pub enum PolicyEffect {
    /// Explicitly permit operation.
    Allow,
    /// Explicitly deny operation (overrides Allow).
    Deny,
}

/// Policy rule definition for ABAC evaluation.
#[derive(Debug, Clone)]
pub struct PolicyRule {
    /// Unique rule identifier.
    pub rule_id: String,
    /// Effect if rule matches.
    pub effect: PolicyEffect,
    /// Tenant scope (None matches any tenant).
    pub tenant_scope: Option<TenantId>,
    /// Roles permitted by this rule; empty matches every principal.
    pub required_roles: Vec<String>,
    /// Actions permitted or denied by this rule.
    pub actions: Vec<Action>,
}

/// A rule applies to a request: its scope is the principal's tenant or absent, it names
/// the action, and it requires no role or one that the principal holds.
pub open spec fn rule_applies(rule: PolicyRule, p: PrincipalContext, a: Action) -> bool {
    &&& (rule.tenant_scope matches Some(scope) ==> scope.0@ == p.tenant_id.0@)
    &&& rule.actions@.contains(a)
    &&& (rule.required_roles@.len() == 0 || exists|i: int|
        0 <= i < rule.required_roles@.len() && texts(p.roles@).contains(
            #[trigger] rule.required_roles@[i]@,
        ))
}

/// Index of the first applicable deny rule at or after `i`.
pub open spec fn first_deny_from(rules: Seq<PolicyRule>, p: PrincipalContext, a: Action, i: int) -> Option<
    int,
>
    decreases rules.len() - i,
{
    if i < 0 || i >= rules.len() {
        None
    } else if rule_applies(rules[i], p, a) && rules[i].effect == PolicyEffect::Deny {
        Some(i)
    } else {
        first_deny_from(rules, p, a, i + 1)
    }
}

/// Some applicable rule allows.
pub open spec fn some_allow(rules: Seq<PolicyRule>, p: PrincipalContext, a: Action) -> bool {
    exists|i: int|
        0 <= i < rules.len() && #[trigger] rule_applies(rules[i], p, a) && rules[i].effect
            == PolicyEffect::Allow
}

/// The request crosses tenants without the super-admin role.
pub open spec fn crosses_tenants(p: PrincipalContext, r: Resource) -> bool {
    resource_tenant(r) matches Some(t) && t.0@ != p.tenant_id.0@ && !texts(p.roles@).contains(
        "super-admin"@,
    )
}

/// How an authorization request is decided.
pub enum Decision {
    /// Refused: the resource belongs to another tenant.
    CrossTenant(TenantId),
    /// Refused by the deny rule at this index.
    ExplicitDeny(int),
    /// Granted by an allow rule.
    Allowed,
    /// Refused: no rule allows.
    DefaultDeny,
}

/// The decision on a request under a rule list.
pub open spec fn decide(rules: Seq<PolicyRule>, p: PrincipalContext, a: Action, r: Resource) -> Decision {
    if crosses_tenants(p, r) {
        Decision::CrossTenant(resource_tenant(r)->0)
    } else if first_deny_from(rules, p, a, 0) is Some {
        Decision::ExplicitDeny(first_deny_from(rules, p, a, 0)->0)
    } else if some_allow(rules, p, a) {
        Decision::Allowed
    } else {
        Decision::DefaultDeny
    }
}

/// Message of a cross-tenant refusal.
pub open spec fn cross_tenant_text(p: PrincipalContext, a: Action, target: TenantId) -> Seq<char> {
    "Cross-tenant access violation: principal "@ + debug_str(p.principal_id@) + " (tenant "@
        + tenant_debug(p.tenant_id) + ") attempted action "@ + action_debug(a)
        + " on resource belonging to tenant "@ + tenant_debug(target)
}

/// Message of a refusal by a deny rule.
pub open spec fn explicit_deny_text(rule: PolicyRule, a: Action, p: PrincipalContext) -> Seq<char> {
    "Explicit deny policy rule "@ + debug_str(rule.rule_id@) + " rejected action "@ + action_debug(a)
        + " for principal "@ + debug_str(p.principal_id@)
}

/// Message of a refusal for want of an allow rule.
pub open spec fn default_deny_text(a: Action, r: Resource, p: PrincipalContext) -> Seq<char> {
    "Default-deny: No policy rule granted action "@ + action_debug(a) + " on resource "@
        + resource_debug(r) + " for principal "@ + debug_str(p.principal_id@)
}

/// Whether the principal holds a role with this text.
fn holds_role(roles: &Vec<String>, role: &str) -> (b: bool)
    ensures
        b == texts(roles@).contains(role@),
{
    let mut i: usize = 0;
    while i < roles.len()
        invariant
            i <= roles@.len(),
            forall|j: int| 0 <= j < i ==> roles@[j]@ != role@,
        decreases roles.len() - i,
    {
        if str_equal(roles[i].as_str(), role) {
            assert(texts(roles@)[i as int] == role@);
            return true;
        }
        i = i + 1;
    }
    proof {
        if texts(roles@).contains(role@) {
            let j = choose|j: int| 0 <= j < texts(roles@).len() && texts(roles@)[j] == role@;
            assert(roles@[j]@ == role@);
        }
    }
    false
}

fn names_action(actions: &Vec<Action>, a: Action) -> (b: bool)
    ensures
        b == actions@.contains(a),
{
    let mut i: usize = 0;
    while i < actions.len()
        invariant
            i <= actions@.len(),
            forall|j: int| 0 <= j < i ==> actions@[j] != a,
        decreases actions.len() - i,
    {
        if actions[i] == a {
            return true;
        }
        i = i + 1;
    }
    false
}

fn applies(rule: &PolicyRule, principal: &PrincipalContext, action: Action) -> (b: bool)
    ensures
        b == rule_applies(*rule, *principal, action),
{
    match rule.tenant_scope {
        Some(scope) => {
            if !(scope == principal.tenant_id) {
                return false;
            }
        },
        None => {},
    }
    if !names_action(&rule.actions, action) {
        return false;
    }
    if rule.required_roles.len() == 0 {
        return true;
    }
    let mut i: usize = 0;
    while i < rule.required_roles.len()
        invariant
            i <= rule.required_roles@.len(),
            rule.required_roles@.len() > 0,
            rule.actions@.contains(action),
            rule.tenant_scope matches Some(scope) ==> scope.0@ == principal.tenant_id.0@,
            forall|j: int| 0 <= j < i ==> !texts(principal.roles@).contains(rule.required_roles@[j]@),
        decreases rule.required_roles.len() - i,
    {
        if holds_role(&principal.roles, rule.required_roles[i].as_str()) {
            assert(texts(principal.roles@).contains(rule.required_roles@[i as int]@));
            return true;
        }
        i = i + 1;
    }
    false
}

proof fn lemma_first_deny_none(rules: Seq<PolicyRule>, p: PrincipalContext, a: Action, i: int)
    requires
        0 <= i <= rules.len(),
        forall|j: int| i <= j < rules.len() ==> !(rule_applies(rules[j], p, a) && rules[j].effect
            == PolicyEffect::Deny),
    ensures
        first_deny_from(rules, p, a, i) is None,
    decreases rules.len() - i,
{
    if i < rules.len() {
        lemma_first_deny_none(rules, p, a, i + 1);
    }
}

proof fn lemma_first_deny_skip(rules: Seq<PolicyRule>, p: PrincipalContext, a: Action, i: int, k: int)
    requires
        0 <= i <= k <= rules.len(),
        forall|j: int| i <= j < k ==> !(rule_applies(rules[j], p, a) && rules[j].effect
            == PolicyEffect::Deny),
    ensures
        first_deny_from(rules, p, a, i) == first_deny_from(rules, p, a, k),
    decreases k - i,
{
    if i < k {
        lemma_first_deny_skip(rules, p, a, i + 1, k);
    }
}

/// Default-deny ABAC Policy Engine enforcing multi-tenant isolation and role-based permissions.
#[derive(Debug)]
pub struct AbacPolicyEngine {
    rules: Vec<PolicyRule>,
}

impl View for AbacPolicyEngine {
    type V = Seq<PolicyRule>;

    closed spec fn view(&self) -> Seq<PolicyRule> {
        self.rules@
    }
}

impl AbacPolicyEngine {
    /// Create a new empty policy engine.
    pub fn new() -> (r: Self)
        ensures
            r@ == Seq::<PolicyRule>::empty(),
    {
        AbacPolicyEngine { rules: Vec::new() }
    }

    /// Add a policy rule after the existing ones.
    pub fn add_rule(&mut self, rule: PolicyRule) -> (r: Result<(), KeiroxError>)
        ensures
            r is Ok,
            final(self)@ == old(self)@.push(rule),
    {
        self.rules.push(rule);
        Ok(())
    }

    /// Evaluate an authorization request: tenant isolation first, then the first
    /// applicable deny rule, then any applicable allow rule, else default deny.
    pub fn authorize(&self, principal: &PrincipalContext, action: Action, resource: &Resource) -> (r:
        Result<(), KeiroxError>)
        ensures
            r is Ok <==> decide(self@, *principal, action, *resource) is Allowed,
            decide(self@, *principal, action, *resource) matches Decision::CrossTenant(t) ==> (r matches Err(
                KeiroxError::Unauthorized(m),
            ) && m@ == cross_tenant_text(*principal, action, t)),
            decide(self@, *principal, action, *resource) matches Decision::ExplicitDeny(i) ==> (r matches Err(
                KeiroxError::Unauthorized(m),
            ) && m@ == explicit_deny_text(self@[i], action, *principal)),
            decide(self@, *principal, action, *resource) is DefaultDeny ==> (r matches Err(
                KeiroxError::Unauthorized(m),
            ) && m@ == default_deny_text(action, *resource, *principal)),
    {
        match resource.tenant_id() {
            Some(target_tenant) => {
                if !(principal.tenant_id == target_tenant) && !holds_role(
                    &principal.roles,
                    "super-admin",
                ) {
                    let mut m = String::new();
                    push_str(&mut m, "Cross-tenant access violation: principal ");
                    push_debug_str(&mut m, principal.principal_id.as_str());
                    push_str(&mut m, " (tenant ");
                    push_tenant_debug(&mut m, principal.tenant_id);
                    push_str(&mut m, ") attempted action ");
                    push_action_debug(&mut m, action);
                    push_str(&mut m, " on resource belonging to tenant ");
                    push_tenant_debug(&mut m, target_tenant);
                    assert(crosses_tenants(*principal, *resource));
                    assert(m@ == cross_tenant_text(*principal, action, target_tenant));
                    return Err(KeiroxError::Unauthorized(m));
                }
            },
            None => {},
        }
        assert(!crosses_tenants(*principal, *resource));
        let ghost rules = self.rules@;
        let mut allowed = false;
        let mut i: usize = 0;
        while i < self.rules.len()
            invariant
                rules == self.rules@,
                !crosses_tenants(*principal, *resource),
                i <= rules.len(),
                forall|j: int| 0 <= j < i ==> !(rule_applies(rules[j], *principal, action)
                    && rules[j].effect == PolicyEffect::Deny),
                allowed == exists|j: int|
                    0 <= j < i && #[trigger] rule_applies(rules[j], *principal, action)
                        && rules[j].effect == PolicyEffect::Allow,
            decreases rules.len() - i,
        {
            let rule = &self.rules[i];
            if applies(rule, principal, action) {
                match rule.effect {
                    PolicyEffect::Deny => {
                        proof {
                            lemma_first_deny_skip(rules, *principal, action, 0, i as int);
                        }
                        let mut m = String::new();
                        push_str(&mut m, "Explicit deny policy rule ");
                        push_debug_str(&mut m, rule.rule_id.as_str());
                        push_str(&mut m, " rejected action ");
                        push_action_debug(&mut m, action);
                        push_str(&mut m, " for principal ");
                        push_debug_str(&mut m, principal.principal_id.as_str());
                        return Err(KeiroxError::Unauthorized(m));
                    },
                    PolicyEffect::Allow => {
                        allowed = true;
                    },
                }
            }
            i = i + 1;
        }
        proof {
            lemma_first_deny_none(rules, *principal, action, 0);
        }
        if allowed {
            Ok(())
        } else {
            let mut m = String::new();
            push_str(&mut m, "Default-deny: No policy rule granted action ");
            push_action_debug(&mut m, action);
            push_str(&mut m, " on resource ");
            push_resource_debug(&mut m, resource);
            push_str(&mut m, " for principal ");
            push_debug_str(&mut m, principal.principal_id.as_str());
            Err(KeiroxError::Unauthorized(m))
        }
    }
}

impl Default for AbacPolicyEngine {
    fn default() -> (r: Self)
        ensures
            r@ == Seq::<PolicyRule>::empty(),
    {
        AbacPolicyEngine::new()
    }
}

/// Default deny: with no rules, nothing is allowed.
pub proof fn law_no_rules_allow_nothing(p: PrincipalContext, a: Action, r: Resource)
    ensures
        !(decide(Seq::<PolicyRule>::empty(), p, a, r) is Allowed),
{
}

/// Tenant isolation: a principal without the super-admin role is refused on another
/// tenant's resource, whatever the rules say.
pub proof fn law_cross_tenant_refused(rules: Seq<PolicyRule>, p: PrincipalContext, a: Action, r: Resource)
    requires
        resource_tenant(r) matches Some(t) && t.0@ != p.tenant_id.0@,
        !texts(p.roles@).contains("super-admin"@),
    ensures
        decide(rules, p, a, r) matches Decision::CrossTenant(t) && Some(t) == resource_tenant(r),
{
}

/// Deny overrides allow: once an applicable deny rule exists, adding any rules leaves the
/// request refused.
pub proof fn law_deny_overrides_allow(
    rules: Seq<PolicyRule>,
    more: Seq<PolicyRule>,
    p: PrincipalContext,
    a: Action,
    r: Resource,
    i: int,
)
    requires
        0 <= i < rules.len(),
        rule_applies(rules[i], p, a),
        rules[i].effect == PolicyEffect::Deny,
    ensures
        !(decide(rules + more, p, a, r) is Allowed),
{
    let all = rules + more;
    assert(all[i] == rules[i]);
    if first_deny_from(all, p, a, 0) is None {
        lemma_first_deny_found(all, p, a, 0, i);
    }
}

proof fn lemma_first_deny_found(rules: Seq<PolicyRule>, p: PrincipalContext, a: Action, i: int, k: int)
    requires
        0 <= i <= k < rules.len(),
        rule_applies(rules[k], p, a),
        rules[k].effect == PolicyEffect::Deny,
    ensures
        first_deny_from(rules, p, a, i) is Some,
    decreases k - i,
{
    if i < k {
        lemma_first_deny_found(rules, p, a, i + 1, k);
    }
}

proof fn lemma_no_deny_from(rules: Seq<PolicyRule>, p: PrincipalContext, a: Action, i: int)
    requires
        forall|j: int| 0 <= j < rules.len() ==> ((#[trigger] rules[j]).tenant_scope matches Some(t) && t.0@
            != p.tenant_id.0@),
    ensures
        first_deny_from(rules, p, a, i) is None,
    decreases rules.len() - i,
{
    if 0 <= i < rules.len() {
        assert(rules[i].tenant_scope matches Some(t) && t.0@ != p.tenant_id.0@);
        lemma_no_deny_from(rules, p, a, i + 1);
    }
}

/// A rule scoped to a tenant never applies to a principal of another tenant: when every
/// rule is scoped to tenants other than the principal's, no rule allows or denies, and
/// the request is refused, as a cross-tenant access when the resource belongs to another
/// tenant (without the super-admin role) and by default-deny otherwise.
pub proof fn law_foreign_scoped_rules_never_apply(rules: Seq<PolicyRule>, p: PrincipalContext, a: Action, r: Resource)
    requires
        forall|j: int| 0 <= j < rules.len() ==> ((#[trigger] rules[j]).tenant_scope matches Some(t) && t.0@
            != p.tenant_id.0@),
    ensures
        forall|j: int| 0 <= j < rules.len() ==> !rule_applies(#[trigger] rules[j], p, a),
        !(decide(rules, p, a, r) is Allowed),
        !crosses_tenants(p, r) ==> decide(rules, p, a, r) is DefaultDeny,
{
    lemma_no_deny_from(rules, p, a, 0);
    assert forall|j: int| 0 <= j < rules.len() implies !rule_applies(#[trigger] rules[j], p, a) by {
        assert(rules[j].tenant_scope matches Some(t) && t.0@ != p.tenant_id.0@);
    }
    if some_allow(rules, p, a) {
        let j = choose|j: int| 0 <= j < rules.len() && #[trigger] rule_applies(rules[j], p, a) && rules[j].effect
            == PolicyEffect::Allow;
        assert(!rule_applies(rules[j], p, a));
    }
}

} // verus!
