use vstd::prelude::*;

use crate::model::{AuditAction, AuditRecord, EngineError};
use crate::store::{first_match, tenant_has_id, user_has_id, Store};

verus! {

/// The stable identifier of an audited action.
pub open spec fn action_text(a: AuditAction) -> Seq<char> {
    match a {
        AuditAction::UserInvited => "user.invited"@,
        AuditAction::UserActivated => "user.activated"@,
        AuditAction::UserDisabled => "user.disabled"@,
        AuditAction::RoleGranted => "role.granted"@,
        AuditAction::RoleRevoked => "role.revoked"@,
        AuditAction::PermissionGranted => "permission.granted"@,
        AuditAction::PermissionRevoked => "permission.revoked"@,
        AuditAction::StorageReserved => "storage.reserved"@,
    }
}

impl AuditAction {
    /// The action's stable identifier, such as `user.invited`.
    pub fn as_str(&self) -> (r: &'static str)
        ensures
            r@ == action_text(*self),
    {
        match self {
            AuditAction::UserInvited => "user.invited",
            AuditAction::UserActivated => "user.activated",
            AuditAction::UserDisabled => "user.disabled",
            AuditAction::RoleGranted => "role.granted",
            AuditAction::RoleRevoked => "role.revoked",
            AuditAction::PermissionGranted => "permission.granted",
            AuditAction::PermissionRevoked => "permission.revoked",
            AuditAction::StorageReserved => "storage.reserved",
        }
    }
}

/// The record that `record` appends.
pub open spec fn audit_entry(
    st: &Store,
    tenant_id: u64,
    user_id: u64,
    action: AuditAction,
    details: String,
    now: u64,
) -> AuditRecord {
    AuditRecord { id: st.next_audit_id, tenant_id, user_id, action, details, created_at: now }
}

/// What `record` answers: `NotFound` for a missing tenant or user,
/// `StoreUnavailable` once the log's ids are spent, else the new record's id.
pub open spec fn record_result(st: &Store, tenant_id: u64, user_id: u64) -> Result<u64, EngineError> {
    if first_match(st.tenants@, tenant_has_id(tenant_id)) is None || first_match(
        st.users@,
        user_has_id(user_id),
    ) is None {
        Err(EngineError::NotFound)
    } else if st.next_audit_id == u64::MAX {
        Err(EngineError::StoreUnavailable)
    } else {
        Ok(st.next_audit_id)
    }
}

/// `new` is `old` with one record appended to the audit log, all else kept.
pub open spec fn appended(old: &Store, new: &Store, rec: AuditRecord) -> bool {
    &&& new.audit_logs@ == old.audit_logs@.push(rec)
    &&& new.next_audit_id == old.next_audit_id + 1
    &&& new.tenants@ == old.tenants@
    &&& new.plans@ == old.plans@
    &&& new.subscriptions@ == old.subscriptions@
    &&& new.users@ == old.users@
    &&& new.roles@ == old.roles@
    &&& new.permissions@ == old.permissions@
    &&& new.user_roles@ == old.user_roles@
    &&& new.role_permissions@ == old.role_permissions@
    &&& new.projects@ == old.projects@
    &&& new.tasks@ == old.tasks@
    &&& new.fallback == old.fallback
}

impl Store {
    /// Appends an audit record; on failure the store is left as it was.
    pub fn record(
        &mut self,
        tenant_id: u64,
        user_id: u64,
        action: AuditAction,
        details: String,
        now: u64,
    ) -> (r: Result<u64, EngineError>)
        ensures
            r == record_result(old(self), tenant_id, user_id),
            r is Ok ==> appended(
                old(self),
                final(self),
                audit_entry(old(self), tenant_id, user_id, action, details, now),
            ),
            r is Err ==> *final(self) == *old(self),
    {
        if self.find_tenant(tenant_id).is_none() || self.find_user(user_id).is_none() {
            return Err(EngineError::NotFound);
        }
        if self.next_audit_id == u64::MAX {
            return Err(EngineError::StoreUnavailable);
        }
        let id = self.next_audit_id;
        self.audit_logs.push(
            AuditRecord { id, tenant_id, user_id, action, details, created_at: now },
        );
        self.next_audit_id = id + 1;
        Ok(id)
    }
}

} // verus!
