use vstd::prelude::*;

use crate::model::{
    AuditRecord, Limits, Permission, Plan, Project, Role, RolePermission, Subscription,
    SubscriptionStatus, Task, Tenant, User, UserRole,
};

verus! {

/// The relational store, one sequence per table. Lookups return the first row
/// that matches.
pub struct Store {
    pub tenants: Vec<Tenant>,
    pub plans: Vec<Plan>,
    pub subscriptions: Vec<Subscription>,
    pub users: Vec<User>,
    pub roles: Vec<Role>,
    pub permissions: Vec<Permission>,
    pub user_roles: Vec<UserRole>,
    pub role_permissions: Vec<RolePermission>,
    pub audit_logs: Vec<AuditRecord>,
    pub projects: Vec<Project>,
    pub tasks: Vec<Task>,
    /// Limits for a tenant without an active subscription; `None` denies.
    pub fallback: Option<Limits>,
    /// Id that the next audit record receives.
    pub next_audit_id: u64,
}

/// Index of the first element of `s` that satisfies `p`.
pub open spec fn first_match<T>(s: Seq<T>, p: spec_fn(T) -> bool) -> Option<int>
    decreases s.len(),
{
    if s.len() == 0 {
        None
    } else {
        match first_match(s.drop_last(), p) {
            Some(i) => Some(i),
            None => if p(s.last()) {
                Some(s.len() - 1)
            } else {
                None
            },
        }
    }
}

/// The first match lies in `s` and satisfies `p`; no earlier element does.
pub proof fn lemma_first_match<T>(s: Seq<T>, p: spec_fn(T) -> bool)
    ensures
        first_match(s, p) matches Some(i) ==> 0 <= i < s.len() && p(s[i]) && forall|j: int|
            0 <= j < i ==> !p(#[trigger] s[j]),
        first_match(s, p) is None ==> forall|j: int| 0 <= j < s.len() ==> !p(#[trigger] s[j]),
    decreases s.len(),
{
    if s.len() > 0 {
        let t = s.drop_last();
        lemma_first_match(t, p);
        assert forall|j: int| 0 <= j < t.len() implies s[j] == #[trigger] t[j] by {}
        if first_match(t, p) is None {
            assert forall|j: int| 0 <= j < s.len() - 1 implies !p(#[trigger] s[j]) by {
                assert(s[j] == t[j]);
            }
        } else {
            let i = first_match(t, p)->Some_0;
            assert(s[i] == t[i]);
            assert forall|j: int| 0 <= j < i implies !p(#[trigger] s[j]) by {
                assert(s[j] == t[j]);
            }
        }
    }
}

/// An element that satisfies `p` with none before it is the first match.
pub proof fn lemma_first_match_at<T>(s: Seq<T>, p: spec_fn(T) -> bool, i: int)
    requires
        0 <= i < s.len(),
        p(s[i]),
        forall|j: int| 0 <= j < i ==> !p(#[trigger] s[j]),
    ensures
        first_match(s, p) == Some(i),
{
    lemma_first_match(s, p);
}

/// Without a satisfying element there is no first match.
pub proof fn lemma_first_match_none<T>(s: Seq<T>, p: spec_fn(T) -> bool)
    requires
        forall|j: int| 0 <= j < s.len() ==> !p(#[trigger] s[j]),
    ensures
        first_match(s, p) is None,
{
    lemma_first_match(s, p);
    if first_match(s, p) is Some {
        let k = first_match(s, p)->Some_0;
        assert(p(s[k]));
    }
}

/// Appending an element keeps an earlier first match.
pub proof fn lemma_first_match_push<T>(s: Seq<T>, p: spec_fn(T) -> bool, x: T)
    ensures
        first_match(s, p) is Some ==> first_match(s.push(x), p) == first_match(s, p),
        first_match(s, p) is None ==> first_match(s.push(x), p) == if p(x) {
            Some(s.len() as int)
        } else {
            None
        },
{
    assert(s.push(x).drop_last() =~= s);
}

pub open spec fn tenant_has_id(id: u64) -> spec_fn(Tenant) -> bool {
    |t: Tenant| t.id == id
}

pub open spec fn user_has_id(id: u64) -> spec_fn(User) -> bool {
    |u: User| u.id == id
}

pub open spec fn plan_has_id(id: u64) -> spec_fn(Plan) -> bool {
    |p: Plan| p.id == id
}

pub open spec fn role_has_id(id: u64) -> spec_fn(Role) -> bool {
    |r: Role| r.id == id
}

pub open spec fn permission_has_id(id: u64) -> spec_fn(Permission) -> bool {
    |p: Permission| p.id == id
}

pub open spec fn permission_named(name: Seq<char>) -> spec_fn(Permission) -> bool {
    |p: Permission| p.name@ == name
}

pub open spec fn user_with_email(tenant_id: u64, email: Seq<char>) -> spec_fn(User) -> bool {
    |u: User| u.tenant_id == tenant_id && u.email@ == email
}

/// A subscription that is active for the tenant at time `now`.
pub open spec fn active_for(tenant_id: u64, now: u64) -> spec_fn(Subscription) -> bool {
    |s: Subscription|
        s.tenant_id == tenant_id && s.status == SubscriptionStatus::Active && s.period_start <= now
            && now < s.period_end
}

/// The limits that apply to a tenant at `now`: those of the plan of its first
/// active subscription, or the fallback when it has none. An active
/// subscription whose plan is missing grants nothing.
pub open spec fn limits_at(st: &Store, tenant_id: u64, now: u64) -> Option<Limits> {
    match first_match(st.subscriptions@, active_for(tenant_id, now)) {
        Some(i) => match first_match(st.plans@, plan_has_id(st.subscriptions@[i].plan_id)) {
            Some(j) => Some(
                Limits {
                    user_limit: st.plans@[j].user_limit,
                    storage_limit_gb: st.plans@[j].storage_limit_gb,
                },
            ),
            None => None,
        },
        None => st.fallback,
    }
}

/// Result of a lookup by index, stated over `first_match`.
pub open spec fn found<T>(r: Option<usize>, s: Seq<T>, p: spec_fn(T) -> bool) -> bool {
    match r {
        Some(i) => i < s.len() && first_match(s, p) == Some(i as int),
        None => first_match(s, p) is None,
    }
}

impl Store {
    /// A store with no rows, whose tenants without a subscription get `fallback`.
    pub fn new(fallback: Option<Limits>) -> (r: Store)
        ensures
            r.tenants@.len() == 0,
            r.plans@.len() == 0,
            r.subscriptions@.len() == 0,
            r.users@.len() == 0,
            r.roles@.len() == 0,
            r.permissions@.len() == 0,
            r.user_roles@.len() == 0,
            r.role_permissions@.len() == 0,
            r.audit_logs@.len() == 0,
            r.projects@.len() == 0,
            r.tasks@.len() == 0,
            r.fallback == fallback,
            r.next_audit_id == 1,
    {
        Store {
            tenants: Vec::new(),
            plans: Vec::new(),
            subscriptions: Vec::new(),
            users: Vec::new(),
            roles: Vec::new(),
            permissions: Vec::new(),
            user_roles: Vec::new(),
            role_permissions: Vec::new(),
            audit_logs: Vec::new(),
            projects: Vec::new(),
            tasks: Vec::new(),
            fallback,
            next_audit_id: 1,
        }
    }

    /// Index of the tenant with this id.
    pub fn find_tenant(&self, id: u64) -> (r: Option<usize>)
        ensures
            found(r, self.tenants@, tenant_has_id(id)),
    {
        let mut i: usize = 0;
        while i < self.tenants.len()
            invariant
                i <= self.tenants@.len(),
                forall|j: int| 0 <= j < i ==> !tenant_has_id(id)(#[trigger] self.tenants@[j]),
            decreases self.tenants@.len() - i,
        {
            if self.tenants[i].id == id {
                proof { lemma_first_match_at(self.tenants@, tenant_has_id(id), i as int); }
                return Some(i);
            }
            i += 1;
        }
        proof { lemma_first_match_none(self.tenants@, tenant_has_id(id)); }
        None
    }

    /// Index of the user with this id.
    pub fn find_user(&self, id: u64) -> (r: Option<usize>)
        ensures
            found(r, self.users@, user_has_id(id)),
    {
        let mut i: usize = 0;
        while i < self.users.len()
            invariant
                i <= self.users@.len(),
                forall|j: int| 0 <= j < i ==> !user_has_id(id)(#[trigger] self.users@[j]),
            decreases self.users@.len() - i,
        {
            if self.users[i].id == id {
                proof { lemma_first_match_at(self.users@, user_has_id(id), i as int); }
                return Some(i);
            }
            i += 1;
        }
        proof { lemma_first_match_none(self.users@, user_has_id(id)); }
        None
    }

    /// Index of the user of `tenant_id` with this email.
    pub fn find_user_by_email(&self, tenant_id: u64, email: &String) -> (r: Option<usize>)
        ensures
            found(r, self.users@, user_with_email(tenant_id, email@)),
    {
        let mut i: usize = 0;
        while i < self.users.len()
            invariant
                i <= self.users@.len(),
                forall|j: int|
                    0 <= j < i ==> !user_with_email(tenant_id, email@)(#[trigger] self.users@[j]),
            decreases self.users@.len() - i,
        {
            if self.users[i].tenant_id == tenant_id && self.users[i].email == *email {
                proof { lemma_first_match_at(self.users@, user_with_email(tenant_id, email@), i as int); }
                return Some(i);
            }
            i += 1;
        }
        proof { lemma_first_match_none(self.users@, user_with_email(tenant_id, email@)); }
        None
    }

    /// Index of the plan with this id.
    pub fn find_plan(&self, id: u64) -> (r: Option<usize>)
        ensures
            found(r, self.plans@, plan_has_id(id)),
    {
        let mut i: usize = 0;
        while i < self.plans.len()
            invariant
                i <= self.plans@.len(),
                forall|j: int| 0 <= j < i ==> !plan_has_id(id)(#[trigger] self.plans@[j]),
            decreases self.plans@.len() - i,
        {
            if self.plans[i].id == id {
                proof { lemma_first_match_at(self.plans@, plan_has_id(id), i as int); }
                return Some(i);
            }
            i += 1;
        }
        proof { lemma_first_match_none(self.plans@, plan_has_id(id)); }
        None
    }

    /// Index of the role with this id.
    pub fn find_role(&self, id: u64) -> (r: Option<usize>)
        ensures
            found(r, self.roles@, role_has_id(id)),
    {
        let mut i: usize = 0;
        while i < self.roles.len()
            invariant
                i <= self.roles@.len(),
                forall|j: int| 0 <= j < i ==> !role_has_id(id)(#[trigger] self.roles@[j]),
            decreases self.roles@.len() - i,
        {
            if self.roles[i].id == id {
                proof { lemma_first_match_at(self.roles@, role_has_id(id), i as int); }
                return Some(i);
            }
            i += 1;
        }
        proof { lemma_first_match_none(self.roles@, role_has_id(id)); }
        None
    }

    /// Index of the catalog permission with this id.
    pub fn find_permission(&self, id: u64) -> (r: Option<usize>)
        ensures
            found(r, self.permissions@, permission_has_id(id)),
    {
        let mut i: usize = 0;
        while i < self.permissions.len()
            invariant
                i <= self.permissions@.len(),
                forall|j: int| 0 <= j < i ==> !permission_has_id(id)(#[trigger] self.permissions@[j]),
            decreases self.permissions@.len() - i,
        {
            if self.permissions[i].id == id {
                proof { lemma_first_match_at(self.permissions@, permission_has_id(id), i as int); }
                return Some(i);
            }
            i += 1;
        }
        proof { lemma_first_match_none(self.permissions@, permission_has_id(id)); }
        None
    }

    /// Index of the catalog permission with this name.
    pub fn find_permission_by_name(&self, name: &String) -> (r: Option<usize>)
        ensures
            found(r, self.permissions@, permission_named(name@)),
    {
        let mut i: usize = 0;
        while i < self.permissions.len()
            invariant
                i <= self.permissions@.len(),
                forall|j: int|
                    0 <= j < i ==> !permission_named(name@)(#[trigger] self.permissions@[j]),
            decreases self.permissions@.len() - i,
        {
            if self.permissions[i].name == *name {
                proof { lemma_first_match_at(self.permissions@, permission_named(name@), i as int); }
                return Some(i);
            }
            i += 1;
        }
        proof { lemma_first_match_none(self.permissions@, permission_named(name@)); }
        None
    }

    /// Index of the tenant's first subscription active at `now`.
    pub fn find_active_subscription(&self, tenant_id: u64, now: u64) -> (r: Option<usize>)
        ensures
            found(r, self.subscriptions@, active_for(tenant_id, now)),
    {
        let mut i: usize = 0;
        while i < self.subscriptions.len()
            invariant
                i <= self.subscriptions@.len(),
                forall|j: int|
                    0 <= j < i ==> !active_for(tenant_id, now)(#[trigger] self.subscriptions@[j]),
            decreases self.subscriptions@.len() - i,
        {
            let s = &self.subscriptions[i];
            if s.tenant_id == tenant_id && s.status == SubscriptionStatus::Active && s.period_start
                <= now && now < s.period_end {
                proof { lemma_first_match_at(self.subscriptions@, active_for(tenant_id, now), i as int); }
                return Some(i);
            }
            i += 1;
        }
        proof { lemma_first_match_none(self.subscriptions@, active_for(tenant_id, now)); }
        None
    }

    /// The quota limits that apply to the tenant at `now`.
    pub fn limits_for(&self, tenant_id: u64, now: u64) -> (r: Option<Limits>)
        ensures
            r == limits_at(self, tenant_id, now),
    {
        match self.find_active_subscription(tenant_id, now) {
            Some(i) => match self.find_plan(self.subscriptions[i].plan_id) {
                Some(j) => Some(
                    Limits {
                        user_limit: self.plans[j].user_limit,
                        storage_limit_gb: self.plans[j].storage_limit_gb,
                    },
                ),
                None => None,
            },
            None => self.fallback,
        }
    }
}

} // verus!
