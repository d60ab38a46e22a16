use vstd::prelude::*;

use crate::audit::record_result;
use crate::authz::{
    effective_set, holds_role, lemma_assign_monotonic, scope_admits, user_in_tenant,
};
use crate::model::{
    tenant_transition_allowed, tenant_transition_ok, user_transition_allowed, user_transition_ok,
    AuditAction, AuditRecord, EngineError, ResourceKind, RolePermission, RoleScope, Tenant,
    TenantStatus, User, UserRole,
    UserStatus,
};
use crate::quota::quota_result;
use crate::cascade::retain_rows;
use crate::store::{
    first_match, lemma_first_match, permission_has_id, role_has_id, tenant_has_id, user_has_id,
    Store,
};

verus! {

/// The audit record of an action by `user_id` in `tenant_id`, numbered with the
/// store's next audit id; its details are left free.
pub open spec fn audited_as(
    st: &Store,
    rec: AuditRecord,
    tenant_id: u64,
    user_id: u64,
    action: AuditAction,
    now: u64,
) -> bool {
    &&& rec.id == st.next_audit_id
    &&& rec.tenant_id == tenant_id
    &&& rec.user_id == user_id
    &&& rec.action == action
    &&& rec.created_at == now
}

/// What `assign_role` answers, checks in this order: both users belong to
/// the tenant, the role exists, the tenant may hold it, the user does not
/// hold it yet, the audit log accepts the record.
pub open spec fn assign_result(
    st: &Store,
    tenant_id: u64,
    actor_id: u64,
    user_id: u64,
    role_id: u64,
) -> Result<(), EngineError> {
    if !user_in_tenant(st, tenant_id, actor_id) || !user_in_tenant(st, tenant_id, user_id) {
        Err(EngineError::NotFound)
    } else {
        match first_match(st.roles@, role_has_id(role_id)) {
            None => Err(EngineError::NotFound),
            Some(i) => if !scope_admits(st.roles@[i].scope, tenant_id) {
                Err(EngineError::IntegrityAnomaly)
            } else if holds_role(st.user_roles@, user_id, role_id) {
                Err(EngineError::Conflict)
            } else if st.next_audit_id == u64::MAX {
                Err(EngineError::StoreUnavailable)
            } else {
                Ok(())
            },
        }
    }
}

/// `new` is `old` with one role assignment added and one audit record appended.
pub open spec fn granted(old: &Store, new: &Store, edge: UserRole) -> bool {
    &&& new.user_roles@ == old.user_roles@.push(edge)
    &&& new.audit_logs@.len() == old.audit_logs@.len() + 1
    &&& new.audit_logs@.drop_last() == old.audit_logs@
    &&& new.next_audit_id == old.next_audit_id + 1
    &&& new.tenants@ == old.tenants@
    &&& new.plans@ == old.plans@
    &&& new.subscriptions@ == old.subscriptions@
    &&& new.users@ == old.users@
    &&& new.roles@ == old.roles@
    &&& new.permissions@ == old.permissions@
    &&& new.role_permissions@ == old.role_permissions@
    &&& new.projects@ == old.projects@
    &&& new.tasks@ == old.tasks@
    &&& new.fallback == old.fallback
}

/// What `reserve_storage` answers: the acting user belongs to the tenant, the
/// quota admits the growth, the audit log accepts the record.
pub open spec fn reserve_result(st: &Store, tenant_id: u64, actor_id: u64, gb: u64, now: u64) -> Result<
    (),
    EngineError,
> {
    if !user_in_tenant(st, tenant_id, actor_id) {
        Err(EngineError::NotFound)
    } else if quota_result(st, tenant_id, ResourceKind::StorageGb, gb, now) is Err {
        quota_result(st, tenant_id, ResourceKind::StorageGb, gb, now)
    } else if st.next_audit_id == u64::MAX {
        Err(EngineError::StoreUnavailable)
    } else {
        Ok(())
    }
}

/// `new` is `old` with the tenant at index `i` holding `gb` more storage and
/// one audit record appended.
pub open spec fn reserved(old: &Store, new: &Store, i: int, gb: u64) -> bool {
    &&& 0 <= i < old.tenants@.len()
    &&& new.tenants@ == old.tenants@.update(
        i,
        (Tenant {
            storage_used_gb: (old.tenants@[i].storage_used_gb + gb) as u64,
            ..old.tenants@[i]
        }),
    )
    &&& new.audit_logs@.len() == old.audit_logs@.len() + 1
    &&& new.audit_logs@.drop_last() == old.audit_logs@
    &&& new.next_audit_id == old.next_audit_id + 1
    &&& new.plans@ == old.plans@
    &&& new.subscriptions@ == old.subscriptions@
    &&& new.users@ == old.users@
    &&& new.roles@ == old.roles@
    &&& new.permissions@ == old.permissions@
    &&& new.user_roles@ == old.user_roles@
    &&& new.role_permissions@ == old.role_permissions@
    &&& new.projects@ == old.projects@
    &&& new.tasks@ == old.tasks@
    &&& new.fallback == old.fallback
}

/// The audited action that moving a user to `to` records.
pub open spec fn status_action(to: UserStatus) -> AuditAction {
    if to == UserStatus::Disabled {
        AuditAction::UserDisabled
    } else {
        AuditAction::UserActivated
    }
}

/// What `set_user_status` answers: both users belong to the tenant, the
/// status advances, the audit log accepts the record.
pub open spec fn status_result(
    st: &Store,
    tenant_id: u64,
    actor_id: u64,
    user_id: u64,
    to: UserStatus,
) -> Result<(), EngineError> {
    if !user_in_tenant(st, tenant_id, actor_id) || !user_in_tenant(st, tenant_id, user_id) {
        Err(EngineError::NotFound)
    } else if !user_transition_allowed(
        st.users@[first_match(st.users@, user_has_id(user_id))->Some_0].status,
        to,
    ) {
        Err(EngineError::Conflict)
    } else if st.next_audit_id == u64::MAX {
        Err(EngineError::StoreUnavailable)
    } else {
        Ok(())
    }
}

/// `new` is `old` with the user at index `i` moved to status `to` and one
/// audit record appended.
pub open spec fn status_changed(old: &Store, new: &Store, i: int, to: UserStatus) -> bool {
    &&& 0 <= i < old.users@.len()
    &&& new.users@ == old.users@.update(i, (User { status: to, ..old.users@[i] }))
    &&& new.audit_logs@.len() == old.audit_logs@.len() + 1
    &&& new.audit_logs@.drop_last() == old.audit_logs@
    &&& new.next_audit_id == old.next_audit_id + 1
    &&& new.tenants@ == old.tenants@
    &&& new.plans@ == old.plans@
    &&& new.subscriptions@ == old.subscriptions@
    &&& new.roles@ == old.roles@
    &&& new.permissions@ == old.permissions@
    &&& new.user_roles@ == old.user_roles@
    &&& new.role_permissions@ == old.role_permissions@
    &&& new.projects@ == old.projects@
    &&& new.tasks@ == old.tasks@
    &&& new.fallback == old.fallback
}

pub open spec fn other_assignment(edge: UserRole) -> spec_fn(UserRole) -> bool {
    |e: UserRole| e != edge
}

pub open spec fn other_grant(edge: RolePermission) -> spec_fn(RolePermission) -> bool {
    |e: RolePermission| e != edge
}

/// The role grants the permission: a `role_permissions` edge joins them.
pub open spec fn has_grant(role_permissions: Seq<RolePermission>, edge: RolePermission) -> bool {
    exists|i: int| 0 <= i < role_permissions.len() && #[trigger] role_permissions[i] == edge
}

/// `new` is `old` with the role edges replaced by `edges` and one audit
/// record appended.
pub open spec fn edges_changed(
    old: &Store,
    new: &Store,
    user_roles: Seq<UserRole>,
    role_permissions: Seq<RolePermission>,
) -> bool {
    &&& new.user_roles@ == user_roles
    &&& new.role_permissions@ == role_permissions
    &&& new.audit_logs@.len() == old.audit_logs@.len() + 1
    &&& new.audit_logs@.drop_last() == old.audit_logs@
    &&& new.next_audit_id == old.next_audit_id + 1
    &&& new.tenants@ == old.tenants@
    &&& new.plans@ == old.plans@
    &&& new.subscriptions@ == old.subscriptions@
    &&& new.users@ == old.users@
    &&& new.roles@ == old.roles@
    &&& new.permissions@ == old.permissions@
    &&& new.projects@ == old.projects@
    &&& new.tasks@ == old.tasks@
    &&& new.fallback == old.fallback
}

/// What `revoke_role` answers: both users belong to the tenant, the user
/// holds the role, the audit log accepts the record.
pub open spec fn revoke_role_result(
    st: &Store,
    tenant_id: u64,
    actor_id: u64,
    user_id: u64,
    role_id: u64,
) -> Result<(), EngineError> {
    if !user_in_tenant(st, tenant_id, actor_id) || !user_in_tenant(st, tenant_id, user_id) {
        Err(EngineError::NotFound)
    } else if !holds_role(st.user_roles@, user_id, role_id) {
        Err(EngineError::NotFound)
    } else if st.next_audit_id == u64::MAX {
        Err(EngineError::StoreUnavailable)
    } else {
        Ok(())
    }
}

/// What `grant_permission` and `revoke_permission` check first: the acting
/// user belongs to the tenant, and the role and the permission exist; a role
/// of another tenant, or a global one, is not the tenant's to change.
pub open spec fn grant_edit_result(
    st: &Store,
    tenant_id: u64,
    actor_id: u64,
    role_id: u64,
    permission_id: u64,
) -> Result<(), EngineError> {
    if !user_in_tenant(st, tenant_id, actor_id) {
        Err(EngineError::NotFound)
    } else {
        match first_match(st.roles@, role_has_id(role_id)) {
            None => Err(EngineError::NotFound),
            Some(i) => if first_match(st.permissions@, permission_has_id(permission_id)) is None {
                Err(EngineError::NotFound)
            } else if st.roles@[i].scope != RoleScope::Tenant(tenant_id) {
                Err(EngineError::Forbidden)
            } else {
                Ok(())
            },
        }
    }
}

/// What `grant_permission` answers.
pub open spec fn grant_result(
    st: &Store,
    tenant_id: u64,
    actor_id: u64,
    role_id: u64,
    permission_id: u64,
) -> Result<(), EngineError> {
    let edge = RolePermission { role_id, permission_id };
    if grant_edit_result(st, tenant_id, actor_id, role_id, permission_id) is Err {
        grant_edit_result(st, tenant_id, actor_id, role_id, permission_id)
    } else if has_grant(st.role_permissions@, edge) {
        Err(EngineError::Conflict)
    } else if st.next_audit_id == u64::MAX {
        Err(EngineError::StoreUnavailable)
    } else {
        Ok(())
    }
}

/// What `revoke_permission` answers.
pub open spec fn revoke_grant_result(
    st: &Store,
    tenant_id: u64,
    actor_id: u64,
    role_id: u64,
    permission_id: u64,
) -> Result<(), EngineError> {
    let edge = RolePermission { role_id, permission_id };
    if grant_edit_result(st, tenant_id, actor_id, role_id, permission_id) is Err {
        grant_edit_result(st, tenant_id, actor_id, role_id, permission_id)
    } else if !has_grant(st.role_permissions@, edge) {
        Err(EngineError::NotFound)
    } else if st.next_audit_id == u64::MAX {
        Err(EngineError::StoreUnavailable)
    } else {
        Ok(())
    }
}

impl Store {
    /// Whether a `role_permissions` edge joins the role to the permission.
    pub fn has_grant(&self, role_id: u64, permission_id: u64) -> (r: bool)
        ensures
            r == has_grant(self.role_permissions@, RolePermission { role_id, permission_id }),
    {
        let mut i: usize = 0;
        while i < self.role_permissions.len()
            invariant
                i <= self.role_permissions@.len(),
                forall|j: int|
                    0 <= j < i ==> #[trigger] self.role_permissions@[j] != (RolePermission {
                        role_id,
                        permission_id,
                    }),
            decreases self.role_permissions@.len() - i,
        {
            let e = self.role_permissions[i];
            if e.role_id == role_id && e.permission_id == permission_id {
                return true;
            }
            i += 1;
        }
        false
    }

    /// The checks that precede a change of a role's grants.
    fn check_grant_edit(&self, tenant_id: u64, actor_id: u64, role_id: u64, permission_id: u64) -> (r:
        Result<(), EngineError>)
        ensures
            r == grant_edit_result(self, tenant_id, actor_id, role_id, permission_id),
    {
        if !self.check_membership(tenant_id, actor_id) {
            return Err(EngineError::NotFound);
        }
        let i = match self.find_role(role_id) {
            None => {
                return Err(EngineError::NotFound);
            },
            Some(i) => i,
        };
        if self.find_permission(permission_id).is_none() {
            return Err(EngineError::NotFound);
        }
        if self.roles[i].scope != RoleScope::Tenant(tenant_id) {
            return Err(EngineError::Forbidden);
        }
        Ok(())
    }

    /// Takes a role away from a user of the tenant, on behalf of `actor_id`,
    /// and audits it.
    pub fn revoke_role(
        &mut self,
        tenant_id: u64,
        actor_id: u64,
        user_id: u64,
        role_id: u64,
        now: u64,
    ) -> (r: Result<(), EngineError>)
        ensures
            r == revoke_role_result(old(self), tenant_id, actor_id, user_id, role_id),
            r is Ok ==> edges_changed(
                old(self),
                final(self),
                old(self).user_roles@.filter(other_assignment(UserRole { user_id, role_id })),
                old(self).role_permissions@,
            ) && audited_as(
                old(self),
                final(self).audit_logs@.last(),
                tenant_id,
                actor_id,
                AuditAction::RoleRevoked,
                now,
            ),
            r is Err ==> *final(self) == *old(self),
    {
        if !self.check_membership(tenant_id, actor_id) || !self.check_membership(tenant_id, user_id) {
            return Err(EngineError::NotFound);
        }
        if !self.holds_role(user_id, role_id) {
            return Err(EngineError::NotFound);
        }
        if self.next_audit_id == u64::MAX {
            return Err(EngineError::StoreUnavailable);
        }
        let ghost before = *self;
        let keep = (|e: &UserRole| -> (b: bool)
            ensures
                b == (*e != UserRole { user_id, role_id }),
            { !(e.user_id == user_id && e.role_id == role_id) });
        retain_rows(&mut self.user_roles, keep, Ghost(other_assignment(UserRole { user_id, role_id })));
        let logged = self.record(tenant_id, actor_id, AuditAction::RoleRevoked, String::new(), now);
        proof {
            assert(logged is Ok);
            assert(self.audit_logs@.drop_last() =~= before.audit_logs@);
        }
        Ok(())
    }

    /// Lets a role of the tenant grant a permission, on behalf of `actor_id`,
    /// and audits it.
    pub fn grant_permission(
        &mut self,
        tenant_id: u64,
        actor_id: u64,
        role_id: u64,
        permission_id: u64,
        now: u64,
    ) -> (r: Result<(), EngineError>)
        ensures
            r == grant_result(old(self), tenant_id, actor_id, role_id, permission_id),
            r is Ok ==> edges_changed(
                old(self),
                final(self),
                old(self).user_roles@,
                old(self).role_permissions@.push(RolePermission { role_id, permission_id }),
            ) && audited_as(
                old(self),
                final(self).audit_logs@.last(),
                tenant_id,
                actor_id,
                AuditAction::PermissionGranted,
                now,
            ),
            r is Err ==> *final(self) == *old(self),
    {
        match self.check_grant_edit(tenant_id, actor_id, role_id, permission_id) {
            Err(e) => {
                return Err(e);
            },
            Ok(()) => {},
        }
        if self.has_grant(role_id, permission_id) {
            return Err(EngineError::Conflict);
        }
        if self.next_audit_id == u64::MAX {
            return Err(EngineError::StoreUnavailable);
        }
        let ghost before = *self;
        self.role_permissions.push(RolePermission { role_id, permission_id });
        let logged = self.record(
            tenant_id,
            actor_id,
            AuditAction::PermissionGranted,
            String::new(),
            now,
        );
        proof {
            assert(logged is Ok);
            assert(self.audit_logs@.drop_last() =~= before.audit_logs@);
        }
        Ok(())
    }

    /// Stops a role of the tenant from granting a permission, on behalf of
    /// `actor_id`, and audits it.
    pub fn revoke_permission(
        &mut self,
        tenant_id: u64,
        actor_id: u64,
        role_id: u64,
        permission_id: u64,
        now: u64,
    ) -> (r: Result<(), EngineError>)
        ensures
            r == revoke_grant_result(old(self), tenant_id, actor_id, role_id, permission_id),
            r is Ok ==> edges_changed(
                old(self),
                final(self),
                old(self).user_roles@,
                old(self).role_permissions@.filter(
                    other_grant(RolePermission { role_id, permission_id }),
                ),
            ) && audited_as(
                old(self),
                final(self).audit_logs@.last(),
                tenant_id,
                actor_id,
                AuditAction::PermissionRevoked,
                now,
            ),
            r is Err ==> *final(self) == *old(self),
    {
        match self.check_grant_edit(tenant_id, actor_id, role_id, permission_id) {
            Err(e) => {
                return Err(e);
            },
            Ok(()) => {},
        }
        if !self.has_grant(role_id, permission_id) {
            return Err(EngineError::NotFound);
        }
        if self.next_audit_id == u64::MAX {
            return Err(EngineError::StoreUnavailable);
        }
        let ghost before = *self;
        let keep = (|e: &RolePermission| -> (b: bool)
            ensures
                b == (*e != RolePermission { role_id, permission_id }),
            { !(e.role_id == role_id && e.permission_id == permission_id) });
        retain_rows(
            &mut self.role_permissions,
            keep,
            Ghost(other_grant(RolePermission { role_id, permission_id })),
        );
        let logged = self.record(
            tenant_id,
            actor_id,
            AuditAction::PermissionRevoked,
            String::new(),
            now,
        );
        proof {
            assert(logged is Ok);
            assert(self.audit_logs@.drop_last() =~= before.audit_logs@);
        }
        Ok(())
    }

    /// Moves a user of the tenant forward in its lifecycle, on behalf of
    /// `actor_id`, and audits it; a move backwards is a `Conflict`.
    pub fn set_user_status(
        &mut self,
        tenant_id: u64,
        actor_id: u64,
        user_id: u64,
        to: UserStatus,
        now: u64,
    ) -> (r: Result<(), EngineError>)
        ensures
            r == status_result(old(self), tenant_id, actor_id, user_id, to),
            r is Ok ==> (first_match(old(self).users@, user_has_id(user_id)) matches Some(i)
                && status_changed(old(self), final(self), i, to)) && audited_as(
                old(self),
                final(self).audit_logs@.last(),
                tenant_id,
                actor_id,
                status_action(to),
                now,
            ),
            r is Err ==> *final(self) == *old(self),
    {
        if !self.check_membership(tenant_id, actor_id) || !self.check_membership(tenant_id, user_id) {
            return Err(EngineError::NotFound);
        }
        let i = match self.find_user(user_id) {
            None => {
                return Err(EngineError::NotFound);
            },
            Some(i) => i,
        };
        if !user_transition_ok(self.users[i].status, to) {
            return Err(EngineError::Conflict);
        }
        if self.next_audit_id == u64::MAX {
            return Err(EngineError::StoreUnavailable);
        }
        let action = match to {
            UserStatus::Disabled => AuditAction::UserDisabled,
            _ => AuditAction::UserActivated,
        };
        let ghost before = *self;
        self.users[i].status = to;
        proof {
            lemma_first_match(before.users@, user_has_id(actor_id));
            lemma_first_match(before.users@, user_has_id(user_id));
            let a = first_match(before.users@, user_has_id(actor_id))->Some_0;
            assert forall|j: int| 0 <= j < a implies !user_has_id(actor_id)(#[trigger] self.users@[j]) by {
                if j == i {
                    assert(!user_has_id(actor_id)(before.users@[j]));
                } else {
                    assert(self.users@[j] == before.users@[j]);
                }
            }
            if a == i {
                assert(user_has_id(actor_id)(self.users@[a]));
            } else {
                assert(self.users@[a] == before.users@[a]);
            }
            crate::store::lemma_first_match_at(self.users@, user_has_id(actor_id), a);
            assert(record_result(self, tenant_id, actor_id) is Ok);
        }
        let logged = self.record(tenant_id, actor_id, action, String::new(), now);
        proof {
            assert(logged is Ok);
            assert(self.audit_logs@.drop_last() =~= before.audit_logs@);
        }
        Ok(())
    }

    /// Changes the tenant's status: forward only, except that a suspended
    /// tenant may be reactivated.
    pub fn set_tenant_status(&mut self, tenant_id: u64, to: TenantStatus) -> (r: Result<
        (),
        EngineError,
    >)
        ensures
            first_match(old(self).tenants@, tenant_has_id(tenant_id)) is None ==> r == Err::<
                (),
                EngineError,
            >(EngineError::NotFound),
            first_match(old(self).tenants@, tenant_has_id(tenant_id)) matches Some(i) ==> {
                &&& !tenant_transition_allowed(old(self).tenants@[i].status, to) ==> r == Err::<
                    (),
                    EngineError,
                >(EngineError::Conflict)
                &&& tenant_transition_allowed(old(self).tenants@[i].status, to) ==> r is Ok
                    && final(self).tenants@ == old(self).tenants@.update(
                    i,
                    (Tenant { status: to, ..old(self).tenants@[i] }),
                )
            },
            r is Ok ==> final(self).users@ == old(self).users@ && final(self).audit_logs@ == old(
                self,
            ).audit_logs@ && final(self).subscriptions@ == old(self).subscriptions@
                && final(self).roles@ == old(self).roles@ && final(self).user_roles@ == old(
                self,
            ).user_roles@ && final(self).role_permissions@ == old(self).role_permissions@
                && final(self).plans@ == old(self).plans@ && final(self).permissions@ == old(
                self,
            ).permissions@ && final(self).projects@ == old(self).projects@ && final(self).tasks@
                == old(self).tasks@ && final(self).fallback == old(self).fallback
                && final(self).next_audit_id == old(self).next_audit_id,
            r is Err ==> *final(self) == *old(self),
    {
        let i = match self.find_tenant(tenant_id) {
            None => {
                return Err(EngineError::NotFound);
            },
            Some(i) => i,
        };
        if !tenant_transition_ok(self.tenants[i].status, to) {
            return Err(EngineError::Conflict);
        }
        self.tenants[i].status = to;
        Ok(())
    }

    /// Gives a user of the tenant a role, on behalf of `actor_id`, and audits
    /// it. A role of another tenant is refused as an integrity anomaly.
    pub fn assign_role(
        &mut self,
        tenant_id: u64,
        actor_id: u64,
        user_id: u64,
        role_id: u64,
        now: u64,
    ) -> (r: Result<(), EngineError>)
        ensures
            r == assign_result(old(self), tenant_id, actor_id, user_id, role_id),
            r is Ok ==> granted(old(self), final(self), UserRole { user_id, role_id })
                && audited_as(
                old(self),
                final(self).audit_logs@.last(),
                tenant_id,
                actor_id,
                AuditAction::RoleGranted,
                now,
            ) && forall|u: u64, t: u64|
                #[trigger] effective_set(old(self), u, t).subset_of(effective_set(final(self), u, t)),
            r is Err ==> *final(self) == *old(self),
    {
        if !self.check_membership(tenant_id, actor_id) || !self.check_membership(tenant_id, user_id) {
            return Err(EngineError::NotFound);
        }
        let i = match self.find_role(role_id) {
            None => {
                return Err(EngineError::NotFound);
            },
            Some(i) => i,
        };
        let admits = match self.roles[i].scope {
            crate::model::RoleScope::Global => true,
            crate::model::RoleScope::Tenant(t) => t == tenant_id,
        };
        if !admits {
            return Err(EngineError::IntegrityAnomaly);
        }
        if self.holds_role(user_id, role_id) {
            return Err(EngineError::Conflict);
        }
        if self.next_audit_id == u64::MAX {
            return Err(EngineError::StoreUnavailable);
        }
        let ghost before = *self;
        self.user_roles.push(UserRole { user_id, role_id });
        let logged = self.record(tenant_id, actor_id, AuditAction::RoleGranted, String::new(), now);
        proof {
            assert(logged is Ok);
            assert(self.audit_logs@.drop_last() =~= before.audit_logs@);
            assert forall|u: u64, t: u64|
                #[trigger] effective_set(&before, u, t).subset_of(effective_set(self, u, t)) by {
                lemma_assign_monotonic(
                    before.roles@,
                    before.user_roles@,
                    before.role_permissions@,
                    u,
                    t,
                    UserRole { user_id, role_id },
                );
            }
        }
        Ok(())
    }

    /// Reserves `gb` more storage for the tenant, on behalf of `actor_id`,
    /// when its plan allows it, and audits it.
    pub fn reserve_storage(&mut self, tenant_id: u64, actor_id: u64, gb: u64, now: u64) -> (r:
        Result<(), EngineError>)
        ensures
            r == reserve_result(old(self), tenant_id, actor_id, gb, now),
            r is Ok ==> (first_match(old(self).tenants@, tenant_has_id(tenant_id)) matches Some(i)
                && reserved(old(self), final(self), i, gb)) && audited_as(
                old(self),
                final(self).audit_logs@.last(),
                tenant_id,
                actor_id,
                AuditAction::StorageReserved,
                now,
            ),
            r is Err ==> *final(self) == *old(self),
    {
        if !self.check_membership(tenant_id, actor_id) {
            return Err(EngineError::NotFound);
        }
        match self.check_and_reserve(tenant_id, ResourceKind::StorageGb, gb, now) {
            Err(e) => {
                return Err(e);
            },
            Ok(()) => {},
        }
        if self.next_audit_id == u64::MAX {
            return Err(EngineError::StoreUnavailable);
        }
        let i = match self.find_tenant(tenant_id) {
            None => {
                return Err(EngineError::NotFound);
            },
            Some(i) => i,
        };
        let ghost before = *self;
        let used = self.tenants[i].storage_used_gb;
        self.tenants[i].storage_used_gb = used + gb;
        proof {
            assert(first_match(self.tenants@, tenant_has_id(tenant_id)) == Some(i as int)) by {
                crate::store::lemma_first_match(before.tenants@, tenant_has_id(tenant_id));
                assert forall|j: int| 0 <= j < i implies !tenant_has_id(tenant_id)(
                    #[trigger] self.tenants@[j],
                ) by {
                    assert(self.tenants@[j] == before.tenants@[j]);
                }
                crate::store::lemma_first_match_at(self.tenants@, tenant_has_id(tenant_id), i as int);
            }
            assert(record_result(self, tenant_id, actor_id) is Ok);
        }
        let logged = self.record(
            tenant_id,
            actor_id,
            AuditAction::StorageReserved,
            String::new(),
            now,
        );
        proof {
            assert(logged is Ok);
            assert(self.audit_logs@.drop_last() =~= before.audit_logs@);
        }
        Ok(())
    }
}

} // verus!
