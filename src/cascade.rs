use vstd::prelude::*;

use crate::authz::contains_id;
use crate::model::{
    AuditRecord, EngineError, Project, Role, RolePermission, RoleScope, Subscription, Task,
    Tenant, User, UserRole,
};
use crate::store::{first_match, tenant_has_id, Store};

verus! {

pub open spec fn keep_tenant(tenant_id: u64) -> spec_fn(Tenant) -> bool {
    |t: Tenant| t.id != tenant_id
}

pub open spec fn keep_user(tenant_id: u64) -> spec_fn(User) -> bool {
    |u: User| u.tenant_id != tenant_id
}

pub open spec fn keep_subscription(tenant_id: u64) -> spec_fn(Subscription) -> bool {
    |s: Subscription| s.tenant_id != tenant_id
}

pub open spec fn keep_audit(tenant_id: u64) -> spec_fn(AuditRecord) -> bool {
    |a: AuditRecord| a.tenant_id != tenant_id
}

pub open spec fn keep_project(tenant_id: u64) -> spec_fn(Project) -> bool {
    |p: Project| p.tenant_id != tenant_id
}

pub open spec fn keep_task(tenant_id: u64) -> spec_fn(Task) -> bool {
    |t: Task| t.tenant_id != tenant_id
}

pub open spec fn keep_role(tenant_id: u64) -> spec_fn(Role) -> bool {
    |r: Role| r.scope != RoleScope::Tenant(tenant_id)
}

/// Ids of the tenant's users.
pub open spec fn tenant_user_ids(users: Seq<User>, tenant_id: u64) -> Set<u64> {
    Set::new(
        |x: u64|
            exists|i: int|
                0 <= i < users.len() && (#[trigger] users[i]).id == x && users[i].tenant_id
                    == tenant_id,
    )
}

/// Ids of the tenant's own roles.
pub open spec fn tenant_role_ids(roles: Seq<Role>, tenant_id: u64) -> Set<u64> {
    Set::new(
        |x: u64|
            exists|i: int|
                0 <= i < roles.len() && (#[trigger] roles[i]).id == x && roles[i].scope
                    == RoleScope::Tenant(tenant_id),
    )
}

/// An assignment survives unless its user or its role goes.
pub open spec fn keep_user_role(gone_users: Set<u64>, gone_roles: Set<u64>) -> spec_fn(UserRole) -> bool {
    |e: UserRole| !gone_users.contains(e.user_id) && !gone_roles.contains(e.role_id)
}

/// A grant survives unless its role goes.
pub open spec fn keep_role_permission(gone_roles: Set<u64>) -> spec_fn(RolePermission) -> bool {
    |e: RolePermission| !gone_roles.contains(e.role_id)
}

/// `new` is `old` after the tenant and everything it owns were removed.
pub open spec fn cascaded(old: &Store, new: &Store, tenant_id: u64) -> bool {
    let gone_users = tenant_user_ids(old.users@, tenant_id);
    let gone_roles = tenant_role_ids(old.roles@, tenant_id);
    &&& new.tenants@ == old.tenants@.filter(keep_tenant(tenant_id))
    &&& new.users@ == old.users@.filter(keep_user(tenant_id))
    &&& new.subscriptions@ == old.subscriptions@.filter(keep_subscription(tenant_id))
    &&& new.audit_logs@ == old.audit_logs@.filter(keep_audit(tenant_id))
    &&& new.projects@ == old.projects@.filter(keep_project(tenant_id))
    &&& new.tasks@ == old.tasks@.filter(keep_task(tenant_id))
    &&& new.roles@ == old.roles@.filter(keep_role(tenant_id))
    &&& new.user_roles@ == old.user_roles@.filter(keep_user_role(gone_users, gone_roles))
    &&& new.role_permissions@ == old.role_permissions@.filter(keep_role_permission(gone_roles))
    &&& new.plans@ == old.plans@
    &&& new.permissions@ == old.permissions@
    &&& new.fallback == old.fallback
    &&& new.next_audit_id == old.next_audit_id
}

/// Filtering keeps exactly the members that satisfy the predicate.
pub proof fn lemma_filter_members<T>(s: Seq<T>, p: spec_fn(T) -> bool)
    ensures
        forall|x: T| #[trigger] s.filter(p).contains(x) <==> s.contains(x) && p(x),
{
    assert forall|x: T| #[trigger] s.filter(p).contains(x) <==> s.contains(x) && p(x) by {
        if s.contains(x) && p(x) {
            let i = choose|i: int| 0 <= i < s.len() && s[i] == x;
            s.lemma_filter_contains(p, i);
        }
        if s.filter(p).contains(x) {
            s.lemma_filter_contains_rev(p, x);
            let i = choose|i: int| 0 <= i < s.filter(p).len() && s.filter(p)[i] == x;
            s.lemma_filter_pred(p, i);
        }
    }
}

/// Deleting a tenant removes every user, role, subscription, audit record,
/// project and task it owns, and keeps every such row of other tenants.
pub proof fn lemma_cascade_delete(old: &Store, new: &Store, tenant_id: u64)
    requires
        cascaded(old, new, tenant_id),
    ensures
        forall|u: User| #[trigger] new.users@.contains(u) <==> old.users@.contains(u) && u.tenant_id != tenant_id,
        forall|r: Role|
            #[trigger] new.roles@.contains(r) <==> old.roles@.contains(r) && r.scope != RoleScope::Tenant(tenant_id),
        forall|s: Subscription|
            #[trigger] new.subscriptions@.contains(s) <==> old.subscriptions@.contains(s) && s.tenant_id != tenant_id,
        forall|a: AuditRecord|
            #[trigger] new.audit_logs@.contains(a) <==> old.audit_logs@.contains(a) && a.tenant_id != tenant_id,
        forall|p: Project|
            #[trigger] new.projects@.contains(p) <==> old.projects@.contains(p) && p.tenant_id != tenant_id,
        forall|t: Task| #[trigger] new.tasks@.contains(t) <==> old.tasks@.contains(t) && t.tenant_id != tenant_id,
        forall|t: Tenant| #[trigger] new.tenants@.contains(t) <==> old.tenants@.contains(t) && t.id != tenant_id,
{
    lemma_filter_members(old.users@, keep_user(tenant_id));
    lemma_filter_members(old.roles@, keep_role(tenant_id));
    lemma_filter_members(old.subscriptions@, keep_subscription(tenant_id));
    lemma_filter_members(old.audit_logs@, keep_audit(tenant_id));
    lemma_filter_members(old.projects@, keep_project(tenant_id));
    lemma_filter_members(old.tasks@, keep_task(tenant_id));
    lemma_filter_members(old.tenants@, keep_tenant(tenant_id));
}

proof fn lemma_filter_step<T>(s: Seq<T>, p: spec_fn(T) -> bool, j: int)
    requires
        0 <= j < s.len(),
    ensures
        s.subrange(0, j + 1).filter(p) == if p(s[j]) {
            s.subrange(0, j).filter(p).push(s[j])
        } else {
            s.subrange(0, j).filter(p)
        },
{
    reveal(Seq::filter);
    assert(s.subrange(0, j + 1).drop_last() =~= s.subrange(0, j));
    assert(s.subrange(0, j + 1).last() == s[j]);
}

/// Removes, in place and in order, the rows that `keep` rejects.
pub(crate) fn retain_rows<T, F: Fn(&T) -> bool>(v: &mut Vec<T>, keep: F, Ghost(p): Ghost<spec_fn(T) -> bool>)
    requires
        forall|x: &T| #[trigger] keep.requires((x,)),
        forall|x: &T, b: bool| keep.ensures((x,), b) ==> b == p(*x),
    ensures
        final(v)@ == old(v)@.filter(p),
{
    let ghost orig = v@;
    let mut i: usize = 0;
    let ghost mut j: int = 0;
    proof {
        reveal(Seq::filter);
        assert(orig.subrange(0, 0) =~= Seq::<T>::empty());
        assert(v@.subrange(0, 0) =~= Seq::<T>::empty());
        assert(v@.subrange(0, v@.len() as int) =~= orig.subrange(0, orig.len() as int));
    }
    while i < v.len()
        invariant
            forall|x: &T| #[trigger] keep.requires((x,)),
            forall|x: &T, b: bool| keep.ensures((x,), b) ==> b == p(*x),
            0 <= j <= orig.len(),
            i <= v@.len(),
            v@.len() - i == orig.len() - j,
            v@.subrange(0, i as int) == orig.subrange(0, j).filter(p),
            v@.subrange(i as int, v@.len() as int) == orig.subrange(j, orig.len() as int),
        decreases v@.len() - i,
    {
        let ghost before = v@;
        let ghost tail = before.subrange(i as int, before.len() as int);
        proof {
            assert(before[i as int] == before.subrange(i as int, before.len() as int)[0]);
            assert(orig[j] == orig.subrange(j, orig.len() as int)[0]);
            lemma_filter_step(orig, p, j);
        }
        let k = keep(&v[i]);
        if k {
            i += 1;
            proof {
                assert(v@.subrange(0, i as int) =~= before.subrange(0, i - 1).push(before[i - 1]));
                assert forall|k: int| 0 <= k < v@.len() - i implies #[trigger] v@.subrange(
                    i as int,
                    v@.len() as int,
                )[k] == orig.subrange(j + 1, orig.len() as int)[k] by {
                    assert(tail[k + 1] == before[i + k]);
                    assert(orig.subrange(j, orig.len() as int)[k + 1] == orig[j + 1 + k]);
                }
                assert(v@.subrange(i as int, v@.len() as int) =~= orig.subrange(j + 1, orig.len() as int));
            }
        } else {
            v.remove(i);
            proof {
                assert(v@.subrange(0, i as int) =~= before.subrange(0, i as int));
                assert forall|k: int| 0 <= k < v@.len() - i implies #[trigger] v@.subrange(
                    i as int,
                    v@.len() as int,
                )[k] == orig.subrange(j + 1, orig.len() as int)[k] by {
                    assert(v@[i + k] == before[i + k + 1]);
                    assert(tail[k + 1] == before[i + k + 1]);
                    assert(orig.subrange(j, orig.len() as int)[k + 1] == orig[j + 1 + k]);
                }
                assert(v@.subrange(i as int, v@.len() as int) =~= orig.subrange(j + 1, orig.len() as int));
            }
        }
        proof {
            j = j + 1;
        }
    }
    proof {
        assert(orig.subrange(0, j) =~= orig);
        assert(v@.subrange(0, i as int) =~= v@);
    }
}

/// Ids of the tenant's users, as a list.
fn collect_user_ids(users: &Vec<User>, tenant_id: u64) -> (r: Vec<u64>)
    ensures
        forall|x: u64| r@.contains(x) <==> tenant_user_ids(users@, tenant_id).contains(x),
{
    let mut out: Vec<u64> = Vec::new();
    let mut i: usize = 0;
    while i < users.len()
        invariant
            i <= users@.len(),
            forall|x: u64|
                out@.contains(x) <==> exists|k: int|
                    0 <= k < i && (#[trigger] users@[k]).id == x && users@[k].tenant_id == tenant_id,
        decreases users@.len() - i,
    {
        let ghost prev = out@;
        if users[i].tenant_id == tenant_id {
            out.push(users[i].id);
        }
        proof {
            assert forall|x: u64|
                out@.contains(x) <==> exists|k: int|
                    0 <= k < i + 1 && (#[trigger] users@[k]).id == x && users@[k].tenant_id
                        == tenant_id by {
                if out@.contains(x) && !prev.contains(x) {
                    assert(out@ == prev.push(users@[i as int].id));
                    let j = choose|j: int| 0 <= j < out@.len() && out@[j] == x;
                    if j < prev.len() {
                        assert(prev[j] == x);
                    }
                }
                if prev.contains(x) && out@ != prev {
                    let j = choose|j: int| 0 <= j < prev.len() && prev[j] == x;
                    assert(out@[j] == x);
                }
                if users@[i as int].id == x && users@[i as int].tenant_id == tenant_id {
                    assert(out@[out@.len() - 1] == x);
                }
            }
        }
        i += 1;
    }
    out
}

/// Ids of the tenant's own roles, as a list.
fn collect_role_ids(roles: &Vec<Role>, tenant_id: u64) -> (r: Vec<u64>)
    ensures
        forall|x: u64| r@.contains(x) <==> tenant_role_ids(roles@, tenant_id).contains(x),
{
    let mut out: Vec<u64> = Vec::new();
    let mut i: usize = 0;
    while i < roles.len()
        invariant
            i <= roles@.len(),
            forall|x: u64|
                out@.contains(x) <==> exists|k: int|
                    0 <= k < i && (#[trigger] roles@[k]).id == x && roles@[k].scope
                        == RoleScope::Tenant(tenant_id),
        decreases roles@.len() - i,
    {
        let ghost prev = out@;
        if roles[i].scope == RoleScope::Tenant(tenant_id) {
            out.push(roles[i].id);
        }
        proof {
            assert forall|x: u64|
                out@.contains(x) <==> exists|k: int|
                    0 <= k < i + 1 && (#[trigger] roles@[k]).id == x && roles@[k].scope
                        == RoleScope::Tenant(tenant_id) by {
                if out@.contains(x) && !prev.contains(x) {
                    assert(out@ == prev.push(roles@[i as int].id));
                    let j = choose|j: int| 0 <= j < out@.len() && out@[j] == x;
                    if j < prev.len() {
                        assert(prev[j] == x);
                    }
                }
                if prev.contains(x) && out@ != prev {
                    let j = choose|j: int| 0 <= j < prev.len() && prev[j] == x;
                    assert(out@[j] == x);
                }
                if roles@[i as int].id == x && roles@[i as int].scope == RoleScope::Tenant(tenant_id) {
                    assert(out@[out@.len() - 1] == x);
                }
            }
        }
        i += 1;
    }
    out
}

impl Store {
    /// Deletes the tenant with every row it owns: users, roles, role
    /// assignments and grants of those, subscriptions, audit records, projects
    /// and tasks. `NotFound` when there is no such tenant.
    pub fn delete_tenant(&mut self, tenant_id: u64) -> (r: Result<(), EngineError>)
        ensures
            r is Err <==> first_match(old(self).tenants@, tenant_has_id(tenant_id)) is None,
            r is Err ==> r == Err::<(), EngineError>(EngineError::NotFound) && *final(self) == *old(self),
            r is Ok ==> cascaded(old(self), final(self), tenant_id),
    {
        if self.find_tenant(tenant_id).is_none() {
            return Err(EngineError::NotFound);
        }
        let ghost gone_users = tenant_user_ids(self.users@, tenant_id);
        let ghost gone_roles = tenant_role_ids(self.roles@, tenant_id);
        let users_gone = collect_user_ids(&self.users, tenant_id);
        let roles_gone = collect_role_ids(&self.roles, tenant_id);
        let keep = (|e: &UserRole| -> (b: bool)
            ensures
                b == (!users_gone@.contains(e.user_id) && !roles_gone@.contains(e.role_id)),
            { !contains_id(&users_gone, e.user_id) && !contains_id(&roles_gone, e.role_id) });
        retain_rows(&mut self.user_roles, keep, Ghost(keep_user_role(gone_users, gone_roles)));
        let keep = (|e: &RolePermission| -> (b: bool)
            ensures
                b == !roles_gone@.contains(e.role_id),
            { !contains_id(&roles_gone, e.role_id) });
        retain_rows(&mut self.role_permissions, keep, Ghost(keep_role_permission(gone_roles)));
        let keep = (|x: &Tenant| -> (b: bool)
            ensures
                b == (x.id != tenant_id),
            { x.id != tenant_id });
        retain_rows(&mut self.tenants, keep, Ghost(keep_tenant(tenant_id)));
        let keep = (|x: &User| -> (b: bool)
            ensures
                b == (x.tenant_id != tenant_id),
            { x.tenant_id != tenant_id });
        retain_rows(&mut self.users, keep, Ghost(keep_user(tenant_id)));
        let keep = (|x: &Subscription| -> (b: bool)
            ensures
                b == (x.tenant_id != tenant_id),
            { x.tenant_id != tenant_id });
        retain_rows(&mut self.subscriptions, keep, Ghost(keep_subscription(tenant_id)));
        let keep = (|x: &AuditRecord| -> (b: bool)
            ensures
                b == (x.tenant_id != tenant_id),
            { x.tenant_id != tenant_id });
        retain_rows(&mut self.audit_logs, keep, Ghost(keep_audit(tenant_id)));
        let keep = (|x: &Project| -> (b: bool)
            ensures
                b == (x.tenant_id != tenant_id),
            { x.tenant_id != tenant_id });
        retain_rows(&mut self.projects, keep, Ghost(keep_project(tenant_id)));
        let keep = (|x: &Task| -> (b: bool)
            ensures
                b == (x.tenant_id != tenant_id),
            { x.tenant_id != tenant_id });
        retain_rows(&mut self.tasks, keep, Ghost(keep_task(tenant_id)));
        let keep = (|x: &Role| -> (b: bool)
            ensures
                b == (x.scope != RoleScope::Tenant(tenant_id)),
            { x.scope != RoleScope::Tenant(tenant_id) });
        retain_rows(&mut self.roles, keep, Ghost(keep_role(tenant_id)));
        Ok(())
    }
}

} // verus!
