use vstd::prelude::*;

use crate::model::{EngineError, Role, RolePermission, RoleScope, UserRole};
use crate::store::{
    first_match, permission_has_id, permission_named, tenant_has_id, user_has_id, Store,
};

verus! {

/// A role of this scope may be held by the users of `tenant_id`.
pub open spec fn scope_admits(scope: RoleScope, tenant_id: u64) -> bool {
    scope == RoleScope::Global || scope == RoleScope::Tenant(tenant_id)
}

/// Some role with this id is global or belongs to `tenant_id`.
pub open spec fn role_in_scope(roles: Seq<Role>, role_id: u64, tenant_id: u64) -> bool {
    exists|i: int|
        0 <= i < roles.len() && (#[trigger] roles[i]).id == role_id && scope_admits(
            roles[i].scope,
            tenant_id,
        )
}

/// Some role with this id belongs to a tenant other than `tenant_id`.
pub open spec fn role_foreign(roles: Seq<Role>, role_id: u64, tenant_id: u64) -> bool {
    exists|i: int|
        0 <= i < roles.len() && (#[trigger] roles[i]).id == role_id && roles[i].scope
            is Tenant && roles[i].scope != RoleScope::Tenant(tenant_id)
}

/// The user holds the role: a `user_roles` edge joins them.
pub open spec fn holds_role(user_roles: Seq<UserRole>, user_id: u64, role_id: u64) -> bool {
    exists|i: int|
        0 <= i < user_roles.len() && #[trigger] user_roles[i] == (UserRole { user_id, role_id })
}

/// The roles through which a user of `tenant_id` draws permissions.
pub open spec fn assigned_roles(
    roles: Seq<Role>,
    user_roles: Seq<UserRole>,
    user_id: u64,
    tenant_id: u64,
) -> Set<u64> {
    Set::new(
        |r: u64| holds_role(user_roles, user_id, r) && role_in_scope(roles, r, tenant_id),
    )
}

/// The permissions that a role grants.
pub open spec fn role_grants(role_permissions: Seq<RolePermission>, role_id: u64) -> Set<u64> {
    Set::new(
        |p: u64|
            exists|k: int|
                0 <= k < role_permissions.len() && #[trigger] role_permissions[k] == (
                RolePermission { role_id, permission_id: p }),
    )
}

/// The edge grants its permission to the user, through a role the user holds
/// and may hold.
pub open spec fn edge_applies(
    roles: Seq<Role>,
    user_roles: Seq<UserRole>,
    user_id: u64,
    tenant_id: u64,
    e: RolePermission,
) -> bool {
    holds_role(user_roles, user_id, e.role_id) && role_in_scope(roles, e.role_id, tenant_id)
}

/// Ids of the permissions reachable from the user through its roles.
pub open spec fn effective_ids(
    roles: Seq<Role>,
    user_roles: Seq<UserRole>,
    role_permissions: Seq<RolePermission>,
    user_id: u64,
    tenant_id: u64,
) -> Set<u64> {
    Set::new(
        |p: u64|
            exists|k: int|
                0 <= k < role_permissions.len() && (#[trigger] role_permissions[k]).permission_id
                    == p && edge_applies(roles, user_roles, user_id, tenant_id, role_permissions[k]),
    )
}

pub open spec fn effective_set(st: &Store, user_id: u64, tenant_id: u64) -> Set<u64> {
    effective_ids(st.roles@, st.user_roles@, st.role_permissions@, user_id, tenant_id)
}

/// The tenant exists and the user exists and belongs to it.
pub open spec fn user_in_tenant(st: &Store, tenant_id: u64, user_id: u64) -> bool {
    first_match(st.tenants@, tenant_has_id(tenant_id)) is Some && match first_match(
        st.users@,
        user_has_id(user_id),
    ) {
        Some(i) => st.users@[i].tenant_id == tenant_id,
        None => false,
    }
}

/// Name under which the catalog lists the permission with this id.
pub open spec fn catalog_name(st: &Store, id: u64) -> Option<Seq<char>> {
    match first_match(st.permissions@, permission_has_id(id)) {
        Some(j) => Some(st.permissions@[j].name@),
        None => None,
    }
}

/// Names of the user's effective permissions.
pub open spec fn effective_names(st: &Store, user_id: u64, tenant_id: u64) -> Set<Seq<char>> {
    Set::new(
        |n: Seq<char>|
            exists|p: u64|
                effective_set(st, user_id, tenant_id).contains(p) && #[trigger] catalog_name(st, p)
                    == Some(n),
    )
}

/// Some string of `v` reads `n`.
pub open spec fn lists_name(v: Seq<String>, n: Seq<char>) -> bool {
    exists|j: int| 0 <= j < v.len() && (#[trigger] v[j])@ == n
}

/// Some of the first `i` ids is listed in the catalog as `n`.
spec fn names_one_of(st: &Store, ids: Seq<u64>, i: int, n: Seq<char>) -> bool {
    exists|k: int| 0 <= k < i && #[trigger] catalog_name(st, ids[k]) == Some(n)
}

/// Role ids that the user holds but that belong to another tenant.
pub open spec fn anomalous_roles(st: &Store, user_id: u64, tenant_id: u64) -> Set<u64> {
    Set::new(
        |r: u64| holds_role(st.user_roles@, user_id, r) && role_foreign(st.roles@, r, tenant_id),
    )
}

/// What `authorize` answers.
pub open spec fn authorize_result(st: &Store, tenant_id: u64, user_id: u64, name: Seq<char>) -> Result<
    (),
    EngineError,
> {
    if !user_in_tenant(st, tenant_id, user_id) {
        Err(EngineError::NotFound)
    } else {
        match first_match(st.permissions@, permission_named(name)) {
            None => Err(EngineError::NotFound),
            Some(j) => if effective_set(st, user_id, tenant_id).contains(st.permissions@[j].id) {
                Ok(())
            } else {
                Err(EngineError::Forbidden)
            },
        }
    }
}

/// A user's effective permissions are exactly the union of the permissions
/// granted by the roles it holds and may hold.
pub proof fn lemma_permission_union(
    roles: Seq<Role>,
    user_roles: Seq<UserRole>,
    role_permissions: Seq<RolePermission>,
    user_id: u64,
    tenant_id: u64,
)
    ensures
        forall|p: u64|
            effective_ids(roles, user_roles, role_permissions, user_id, tenant_id).contains(p)
                <==> exists|r: u64|
                assigned_roles(roles, user_roles, user_id, tenant_id).contains(r) && #[trigger] role_grants(
                    role_permissions,
                    r,
                ).contains(p),
{
    let eff = effective_ids(roles, user_roles, role_permissions, user_id, tenant_id);
    let rs = assigned_roles(roles, user_roles, user_id, tenant_id);
    assert forall|p: u64| eff.contains(p) <==> exists|r: u64|
        rs.contains(r) && #[trigger] role_grants(role_permissions, r).contains(p) by {
        if eff.contains(p) {
            let k = choose|k: int|
                0 <= k < role_permissions.len() && (#[trigger] role_permissions[k]).permission_id == p
                    && edge_applies(roles, user_roles, user_id, tenant_id, role_permissions[k]);
            let r = role_permissions[k].role_id;
            assert(role_permissions[k] == (RolePermission { role_id: r, permission_id: p }));
            assert(role_grants(role_permissions, r).contains(p));
            assert(rs.contains(r));
        }
        if exists|r: u64| rs.contains(r) && #[trigger] role_grants(role_permissions, r).contains(p) {
            let r = choose|r: u64| rs.contains(r) && #[trigger] role_grants(role_permissions, r).contains(p);
            let k = choose|k: int|
                0 <= k < role_permissions.len() && #[trigger] role_permissions[k] == (
                RolePermission { role_id: r, permission_id: p });
            assert(edge_applies(roles, user_roles, user_id, tenant_id, role_permissions[k]));
        }
    }
}

/// Giving a user one more role never takes an effective permission away.
pub proof fn lemma_assign_monotonic(
    roles: Seq<Role>,
    user_roles: Seq<UserRole>,
    role_permissions: Seq<RolePermission>,
    user_id: u64,
    tenant_id: u64,
    edge: UserRole,
)
    ensures
        effective_ids(roles, user_roles, role_permissions, user_id, tenant_id).subset_of(
            effective_ids(roles, user_roles.push(edge), role_permissions, user_id, tenant_id),
        ),
{
    let grown = user_roles.push(edge);
    assert forall|r: u64| holds_role(user_roles, user_id, r) implies holds_role(grown, user_id, r) by {
        let i = choose|i: int|
            0 <= i < user_roles.len() && #[trigger] user_roles[i] == (UserRole { user_id, role_id: r });
        assert(grown[i] == user_roles[i]);
    }
    assert forall|p: u64|
        effective_ids(roles, user_roles, role_permissions, user_id, tenant_id).contains(p) implies
        effective_ids(roles, grown, role_permissions, user_id, tenant_id).contains(p) by {
        let k = choose|k: int|
            0 <= k < role_permissions.len() && (#[trigger] role_permissions[k]).permission_id == p
                && edge_applies(roles, user_roles, user_id, tenant_id, role_permissions[k]);
        assert(edge_applies(roles, grown, user_id, tenant_id, role_permissions[k]));
    }
}

/// A role of another tenant, and a role assignment of another user, leave a
/// user's effective permissions unchanged: they never enter its computation.
pub proof fn lemma_tenant_isolation(
    roles: Seq<Role>,
    user_roles: Seq<UserRole>,
    role_permissions: Seq<RolePermission>,
    user_id: u64,
    tenant_id: u64,
    other_tenant: u64,
    other_role: Role,
    other_edge: UserRole,
)
    requires
        other_tenant != tenant_id,
        other_role.scope == RoleScope::Tenant(other_tenant),
        other_edge.user_id != user_id,
    ensures
        effective_ids(roles.push(other_role), user_roles.push(other_edge), role_permissions, user_id, tenant_id)
            == effective_ids(roles, user_roles, role_permissions, user_id, tenant_id),
{
    let ro2 = roles.push(other_role);
    let ur2 = user_roles.push(other_edge);
    assert forall|r: u64| role_in_scope(ro2, r, tenant_id) == role_in_scope(roles, r, tenant_id) by {
        if role_in_scope(ro2, r, tenant_id) {
            let i = choose|i: int|
                0 <= i < ro2.len() && (#[trigger] ro2[i]).id == r && scope_admits(ro2[i].scope, tenant_id);
            assert(i < roles.len());
            assert(ro2[i] == roles[i]);
        }
        if role_in_scope(roles, r, tenant_id) {
            let i = choose|i: int|
                0 <= i < roles.len() && (#[trigger] roles[i]).id == r && scope_admits(roles[i].scope, tenant_id);
            assert(ro2[i] == roles[i]);
        }
    }
    assert forall|r: u64| holds_role(ur2, user_id, r) == holds_role(user_roles, user_id, r) by {
        if holds_role(ur2, user_id, r) {
            let i = choose|i: int|
                0 <= i < ur2.len() && #[trigger] ur2[i] == (UserRole { user_id, role_id: r });
            assert(i < user_roles.len());
            assert(ur2[i] == user_roles[i]);
        }
        if holds_role(user_roles, user_id, r) {
            let i = choose|i: int|
                0 <= i < user_roles.len() && #[trigger] user_roles[i] == (UserRole { user_id, role_id: r });
            assert(ur2[i] == user_roles[i]);
        }
    }
    assert(effective_ids(ro2, ur2, role_permissions, user_id, tenant_id) =~= effective_ids(
        roles,
        user_roles,
        role_permissions,
        user_id,
        tenant_id,
    ));
}

/// Whether some string of `v` equals `s`.
pub fn lists(v: &Vec<String>, s: &String) -> (r: bool)
    ensures
        r == lists_name(v@, s@),
{
    let mut i: usize = 0;
    while i < v.len()
        invariant
            i <= v@.len(),
            forall|j: int| 0 <= j < i ==> (#[trigger] v@[j])@ != s@,
        decreases v@.len() - i,
    {
        if v[i] == *s {
            return true;
        }
        i += 1;
    }
    false
}

/// Whether `x` occurs in `v`.
pub fn contains_id(v: &Vec<u64>, x: u64) -> (r: bool)
    ensures
        r == v@.contains(x),
{
    let mut i: usize = 0;
    while i < v.len()
        invariant
            i <= v@.len(),
            forall|j: int| 0 <= j < i ==> v@[j] != x,
        decreases v@.len() - i,
    {
        if v[i] == x {
            return true;
        }
        i += 1;
    }
    false
}

impl Store {
    /// Whether a `user_roles` edge joins the user to the role.
    pub fn holds_role(&self, user_id: u64, role_id: u64) -> (r: bool)
        ensures
            r == holds_role(self.user_roles@, user_id, role_id),
    {
        let mut i: usize = 0;
        while i < self.user_roles.len()
            invariant
                i <= self.user_roles@.len(),
                forall|j: int|
                    0 <= j < i ==> #[trigger] self.user_roles@[j] != (UserRole { user_id, role_id }),
            decreases self.user_roles@.len() - i,
        {
            let e = self.user_roles[i];
            if e.user_id == user_id && e.role_id == role_id {
                return true;
            }
            i += 1;
        }
        false
    }

    /// Whether some role with this id is global or belongs to `tenant_id`.
    pub fn role_in_scope(&self, role_id: u64, tenant_id: u64) -> (r: bool)
        ensures
            r == role_in_scope(self.roles@, role_id, tenant_id),
    {
        let mut i: usize = 0;
        while i < self.roles.len()
            invariant
                i <= self.roles@.len(),
                forall|j: int|
                    0 <= j < i ==> !((#[trigger] self.roles@[j]).id == role_id && scope_admits(
                        self.roles@[j].scope,
                        tenant_id,
                    )),
            decreases self.roles@.len() - i,
        {
            let admits = match self.roles[i].scope {
                RoleScope::Global => true,
                RoleScope::Tenant(t) => t == tenant_id,
            };
            if self.roles[i].id == role_id && admits {
                return true;
            }
            i += 1;
        }
        false
    }

    /// Whether some role with this id belongs to another tenant.
    pub fn role_foreign(&self, role_id: u64, tenant_id: u64) -> (r: bool)
        ensures
            r == role_foreign(self.roles@, role_id, tenant_id),
    {
        let mut i: usize = 0;
        while i < self.roles.len()
            invariant
                i <= self.roles@.len(),
                forall|j: int|
                    0 <= j < i ==> !((#[trigger] self.roles@[j]).id == role_id && self.roles@[j].scope
                        is Tenant && self.roles@[j].scope != RoleScope::Tenant(tenant_id)),
            decreases self.roles@.len() - i,
        {
            let foreign = match self.roles[i].scope {
                RoleScope::Global => false,
                RoleScope::Tenant(t) => t != tenant_id,
            };
            if self.roles[i].id == role_id && foreign {
                return true;
            }
            i += 1;
        }
        false
    }

    /// Distinct ids of the permissions reachable from the user, ignoring roles
    /// that the user's tenant may not hold.
    pub fn effective_permission_ids(&self, user_id: u64, tenant_id: u64) -> (r: Vec<u64>)
        ensures
            r@.no_duplicates(),
            forall|p: u64| r@.contains(p) <==> effective_set(self, user_id, tenant_id).contains(p),
    {
        let ghost rp = self.role_permissions@;
        let ghost ro = self.roles@;
        let ghost ur = self.user_roles@;
        let mut out: Vec<u64> = Vec::new();
        let mut k: usize = 0;
        while k < self.role_permissions.len()
            invariant
                rp == self.role_permissions@,
                ro == self.roles@,
                ur == self.user_roles@,
                k <= rp.len(),
                out@.no_duplicates(),
                forall|j: int|
                    #![trigger out@[j]]
                    0 <= j < out@.len() ==> exists|kk: int|
                        0 <= kk < k && (#[trigger] rp[kk]).permission_id == out@[j] && edge_applies(
                            ro,
                            ur,
                            user_id,
                            tenant_id,
                            rp[kk],
                        ),
                forall|kk: int|
                    0 <= kk < k && edge_applies(ro, ur, user_id, tenant_id, #[trigger] rp[kk])
                        ==> out@.contains(rp[kk].permission_id),
            decreases rp.len() - k,
        {
            let e = self.role_permissions[k];
            if self.holds_role(user_id, e.role_id) && self.role_in_scope(e.role_id, tenant_id)
                && !contains_id(&out, e.permission_id) {
                proof {
                    assert(edge_applies(ro, ur, user_id, tenant_id, rp[k as int]));
                }
                let ghost prev = out@;
                out.push(e.permission_id);
                proof {
                    assert(out@ == prev.push(e.permission_id));
                    assert forall|j: int| #![trigger out@[j]] 0 <= j < out@.len() implies exists|kk: int|
                        0 <= kk < k + 1 && (#[trigger] rp[kk]).permission_id == out@[j]
                            && edge_applies(ro, ur, user_id, tenant_id, rp[kk]) by {
                        if j == out@.len() - 1 {
                            assert(rp[k as int].permission_id == out@[j]);
                        }
                    }
                    assert forall|kk: int|
                        0 <= kk < k + 1 && edge_applies(ro, ur, user_id, tenant_id, #[trigger] rp[kk])
                            implies out@.contains(rp[kk].permission_id) by {
                        if kk < k {
                            assert(prev.contains(rp[kk].permission_id));
                            let j = choose|j: int| 0 <= j < prev.len() && prev[j] == rp[kk].permission_id;
                            assert(out@[j] == prev[j]);
                        } else {
                            assert(out@[out@.len() - 1] == rp[kk].permission_id);
                        }
                    }
                }
            }
            k += 1;
        }
        proof {
            let eff = effective_set(self, user_id, tenant_id);
            assert forall|p: u64| out@.contains(p) <==> eff.contains(p) by {
                if out@.contains(p) {
                    let j = choose|j: int| 0 <= j < out@.len() && out@[j] == p;
                    assert(out@[j] == p);
                }
                if eff.contains(p) {
                    let kk = choose|kk: int|
                        0 <= kk < rp.len() && (#[trigger] rp[kk]).permission_id == p
                            && edge_applies(ro, ur, user_id, tenant_id, rp[kk]);
                    assert(edge_applies(ro, ur, user_id, tenant_id, rp[kk]));
                }
            }
        }
        out
    }

    /// Whether the tenant exists and the user exists and belongs to it.
    pub fn check_membership(&self, tenant_id: u64, user_id: u64) -> (r: bool)
        ensures
            r == user_in_tenant(self, tenant_id, user_id),
    {
        match self.find_tenant(tenant_id) {
            None => false,
            Some(_) => match self.find_user(user_id) {
                None => false,
                Some(i) => self.users[i].tenant_id == tenant_id,
            },
        }
    }

    /// The names of the user's effective permissions, one per permission;
    /// `NotFound` when the tenant or the user is missing or the user belongs
    /// elsewhere.
    pub fn effective_permissions(&self, tenant_id: u64, user_id: u64) -> (r: Result<
        Vec<String>,
        EngineError,
    >)
        ensures
            !user_in_tenant(self, tenant_id, user_id) ==> r == Err::<Vec<String>, EngineError>(
                EngineError::NotFound,
            ),
            user_in_tenant(self, tenant_id, user_id) ==> r is Ok,
            r matches Ok(v) ==> (forall|n: Seq<char>|
                #[trigger] lists_name(v@, n) <==> effective_names(self, user_id, tenant_id).contains(n))
                && forall|a: int, b: int| 0 <= a < b < v@.len() ==> (#[trigger] v@[a])@ != (#[trigger] v@[b])@,
    {
        if !self.check_membership(tenant_id, user_id) {
            return Err(EngineError::NotFound);
        }
        let ids = self.effective_permission_ids(user_id, tenant_id);
        let ghost eff = effective_set(self, user_id, tenant_id);
        let mut names: Vec<String> = Vec::new();
        let mut i: usize = 0;
        while i < ids.len()
            invariant
                i <= ids@.len(),
                forall|p: u64| ids@.contains(p) <==> eff.contains(p),
                eff == effective_set(self, user_id, tenant_id),
                forall|n: Seq<char>|
                    #[trigger] lists_name(names@, n) <==> names_one_of(self, ids@, i as int, n),
                forall|a: int, b: int|
                    0 <= a < b < names@.len() ==> (#[trigger] names@[a])@ != (#[trigger] names@[b])@,
            decreases ids@.len() - i,
        {
            let ghost prev = names@;
            match self.find_permission(ids[i]) {
                Some(j) => {
                    let n = self.permissions[j].name.clone();
                    if !lists(&names, &n) {
                        names.push(n);
                    }
                },
                None => {},
            }
            proof {
                assert forall|n: Seq<char>|
                    #[trigger] lists_name(names@, n) <==> names_one_of(self, ids@, i + 1, n) by {
                    if lists_name(names@, n) {
                        let j = choose|j: int| 0 <= j < names@.len() && (#[trigger] names@[j])@ == n;
                        if j < prev.len() {
                            assert(prev[j] == names@[j]);
                            assert(lists_name(prev, n));
                            let k = choose|k: int| 0 <= k < i && #[trigger] catalog_name(self, ids@[k]) == Some(n);
                            assert(catalog_name(self, ids@[k]) == Some(n));
                        } else {
                            assert(catalog_name(self, ids@[i as int]) == Some(n));
                        }
                    }
                    if names_one_of(self, ids@, i + 1, n) {
                        let k = choose|k: int| 0 <= k < i + 1 && #[trigger] catalog_name(self, ids@[k]) == Some(n);
                        if k < i {
                            assert(names_one_of(self, ids@, i as int, n));
                            assert(lists_name(prev, n));
                            let j = choose|j: int| 0 <= j < prev.len() && (#[trigger] prev[j])@ == n;
                            assert(names@[j] == prev[j]);
                        } else if names@.len() == prev.len() {
                            assert(names@ == prev);
                        } else {
                            assert(names@.len() == prev.len() + 1);
                            assert(names@[names@.len() - 1]@ == n);
                            assert(lists_name(names@, n));
                        }
                    }
                }
            }
            i += 1;
        }
        proof {
            assert forall|n: Seq<char>|
                #[trigger] lists_name(names@, n) <==> effective_names(self, user_id, tenant_id).contains(n) by {
                if names_one_of(self, ids@, ids@.len() as int, n) {
                    let k = choose|k: int| 0 <= k < ids@.len() && #[trigger] catalog_name(self, ids@[k]) == Some(n);
                    assert(ids@.contains(ids@[k]));
                }
                if effective_names(self, user_id, tenant_id).contains(n) {
                    let p = choose|p: u64| eff.contains(p) && #[trigger] catalog_name(self, p) == Some(n);
                    assert(ids@.contains(p));
                    let k = choose|k: int| 0 <= k < ids@.len() && ids@[k] == p;
                    assert(catalog_name(self, ids@[k]) == Some(n));
                    assert(names_one_of(self, ids@, ids@.len() as int, n));
                }
            }
        }
        Ok(names)
    }

    /// Allows the user to act under the named permission when one of its roles
    /// grants it; `Forbidden` otherwise.
    pub fn authorize(&self, tenant_id: u64, user_id: u64, permission: &String) -> (r: Result<
        (),
        EngineError,
    >)
        ensures
            r == authorize_result(self, tenant_id, user_id, permission@),
    {
        if !self.check_membership(tenant_id, user_id) {
            return Err(EngineError::NotFound);
        }
        match self.find_permission_by_name(permission) {
            None => Err(EngineError::NotFound),
            Some(j) => {
                let ids = self.effective_permission_ids(user_id, tenant_id);
                if contains_id(&ids, self.permissions[j].id) {
                    Ok(())
                } else {
                    Err(EngineError::Forbidden)
                }
            },
        }
    }

    /// Roles that the user holds although they belong to another tenant: data
    /// integrity anomalies, which `authorize` ignores.
    pub fn integrity_anomalies(&self, tenant_id: u64, user_id: u64) -> (r: Vec<u64>)
        ensures
            r@.no_duplicates(),
            forall|x: u64| r@.contains(x) <==> anomalous_roles(self, user_id, tenant_id).contains(x),
    {
        let ghost ur = self.user_roles@;
        let mut out: Vec<u64> = Vec::new();
        let mut k: usize = 0;
        while k < self.user_roles.len()
            invariant
                ur == self.user_roles@,
                k <= ur.len(),
                out@.no_duplicates(),
                forall|x: u64|
                    out@.contains(x) <==> (exists|kk: int|
                        0 <= kk < k && #[trigger] ur[kk] == (UserRole { user_id, role_id: x }))
                        && role_foreign(self.roles@, x, tenant_id),
            decreases ur.len() - k,
        {
            let e = self.user_roles[k];
            let ghost prev = out@;
            if e.user_id == user_id && self.role_foreign(e.role_id, tenant_id) && !contains_id(
                &out,
                e.role_id,
            ) {
                out.push(e.role_id);
            }
            proof {
                assert forall|x: u64|
                    out@.contains(x) <==> (exists|kk: int|
                        0 <= kk < k + 1 && #[trigger] ur[kk] == (UserRole { user_id, role_id: x }))
                        && role_foreign(self.roles@, x, tenant_id) by {
                    if x == e.role_id && e.user_id == user_id {
                        assert(ur[k as int] == (UserRole { user_id, role_id: x }));
                    }
                    if out@.contains(x) && !prev.contains(x) {
                        assert(out@ == prev.push(e.role_id));
                        let j = choose|j: int| 0 <= j < out@.len() && out@[j] == x;
                        if j < prev.len() {
                            assert(prev[j] == x);
                        }
                        assert(ur[k as int] == (UserRole { user_id, role_id: x }));
                    }
                    if (exists|kk: int|
                        0 <= kk < k + 1 && #[trigger] ur[kk] == (UserRole { user_id, role_id: x }))
                        && role_foreign(self.roles@, x, tenant_id) {
                        let kk = choose|kk: int|
                            0 <= kk < k + 1 && #[trigger] ur[kk] == (UserRole { user_id, role_id: x });
                        if kk < k {
                            assert(prev.contains(x));
                        } else if !prev.contains(x) {
                            assert(out@ == prev.push(e.role_id));
                            assert(out@[prev.len() as int] == x);
                        }
                    }
                    if prev.contains(x) && out@ != prev {
                        assert(out@ == prev.push(e.role_id));
                        let j = choose|j: int| 0 <= j < prev.len() && prev[j] == x;
                        assert(out@[j] == x);
                    }
                }
            }
            k += 1;
        }
        out
    }
}

} // verus!
