use vstd::prelude::*;

verus! {

/// Lifecycle status of a tenant.
#[derive(Clone, Copy, Debug, PartialEq, Eq, Structural)]
pub enum TenantStatus {
    Trial,
    Active,
    Suspended,
}

/// Whether a tenant may move from `from` to `to`: forward only, except that a
/// suspended tenant may be reactivated.
pub open spec fn tenant_transition_allowed(from: TenantStatus, to: TenantStatus) -> bool {
    match from {
        TenantStatus::Trial => true,
        TenantStatus::Active => to != TenantStatus::Trial,
        TenantStatus::Suspended => to != TenantStatus::Trial,
    }
}

/// Executable check of `tenant_transition_allowed`.
pub fn tenant_transition_ok(from: TenantStatus, to: TenantStatus) -> (r: bool)
    ensures
        r == tenant_transition_allowed(from, to),
{
    match from {
        TenantStatus::Trial => true,
        _ => !matches!(to, TenantStatus::Trial),
    }
}

} // verus!

verus! {

/// A tenant: the root of isolation for every other entity but permissions.
#[derive(Clone, Debug)]
pub struct Tenant {
    pub id: u64,
    pub name: String,
    pub status: TenantStatus,
    /// Storage, in whole gigabytes, that the tenant currently holds.
    pub storage_used_gb: u64,
}

/// A subscription plan and the quota limits it grants.
#[derive(Clone, Debug)]
pub struct Plan {
    pub id: u64,
    pub name: String,
    pub price: u64,
    pub user_limit: u64,
    pub storage_limit_gb: u64,
}

#[derive(Clone, Copy, Debug, PartialEq, Eq, Structural)]
pub enum SubscriptionStatus {
    Active,
    Superseded,
    Cancelled,
}

/// A tenant's subscription to a plan over the half-open period
/// `[period_start, period_end)`.
#[derive(Clone, Debug)]
pub struct Subscription {
    pub id: u64,
    pub tenant_id: u64,
    pub plan_id: u64,
    pub status: SubscriptionStatus,
    pub period_start: u64,
    pub period_end: u64,
}

#[derive(Clone, Copy, Debug, PartialEq, Eq, Structural)]
pub enum UserStatus {
    Invited,
    Active,
    Disabled,
}

/// Position of a user status in its lifecycle.
pub open spec fn user_status_rank(s: UserStatus) -> int {
    match s {
        UserStatus::Invited => 0,
        UserStatus::Active => 1,
        UserStatus::Disabled => 2,
    }
}

/// A user's status only advances: invited, then active, then disabled.
pub open spec fn user_transition_allowed(from: UserStatus, to: UserStatus) -> bool {
    user_status_rank(from) < user_status_rank(to)
}

/// Executable check of `user_transition_allowed`.
pub fn user_transition_ok(from: UserStatus, to: UserStatus) -> (r: bool)
    ensures
        r == user_transition_allowed(from, to),
{
    match (from, to) {
        (UserStatus::Invited, UserStatus::Active) => true,
        (UserStatus::Invited, UserStatus::Disabled) => true,
        (UserStatus::Active, UserStatus::Disabled) => true,
        _ => false,
    }
}

#[derive(Clone, Debug)]
pub struct User {
    pub id: u64,
    pub tenant_id: u64,
    pub email: String,
    pub password_hash: String,
    pub status: UserStatus,
}

/// Which users may hold a role: everyone, or the users of one tenant.
#[derive(Clone, Copy, Debug, PartialEq, Eq, Structural)]
pub enum RoleScope {
    Global,
    Tenant(u64),
}

#[derive(Clone, Debug)]
pub struct Role {
    pub id: u64,
    pub scope: RoleScope,
    pub name: String,
}

/// An entry of the process-wide permission catalog.
#[derive(Clone, Debug)]
pub struct Permission {
    pub id: u64,
    pub name: String,
    pub description: String,
}

/// Edge: a user holds a role.
#[derive(Clone, Copy, Debug, PartialEq, Eq, Structural)]
pub struct UserRole {
    pub user_id: u64,
    pub role_id: u64,
}

/// Edge: a role grants a permission.
#[derive(Clone, Copy, Debug, PartialEq, Eq, Structural)]
pub struct RolePermission {
    pub role_id: u64,
    pub permission_id: u64,
}

/// The closed vocabulary of audited actions.
#[derive(Clone, Copy, Debug, PartialEq, Eq, Structural)]
pub enum AuditAction {
    UserInvited,
    UserActivated,
    UserDisabled,
    RoleGranted,
    RoleRevoked,
    PermissionGranted,
    PermissionRevoked,
    StorageReserved,
}

/// An immutable audit log entry.
#[derive(Clone, Debug)]
pub struct AuditRecord {
    pub id: u64,
    pub tenant_id: u64,
    pub user_id: u64,
    pub action: AuditAction,
    pub details: String,
    pub created_at: u64,
}

#[derive(Clone, Debug)]
pub struct Project {
    pub id: u64,
    pub tenant_id: u64,
    pub name: String,
    pub created_by_user_id: u64,
}

#[derive(Clone, Debug)]
pub struct Task {
    pub id: u64,
    pub tenant_id: u64,
    pub project_id: u64,
    pub title: String,
    pub assignee_user_id: Option<u64>,
}

/// Quota limits that apply to a tenant.
#[derive(Clone, Copy, Debug, PartialEq, Eq, Structural)]
pub struct Limits {
    pub user_limit: u64,
    pub storage_limit_gb: u64,
}

#[derive(Clone, Copy, Debug, PartialEq, Eq, Structural)]
pub enum ResourceKind {
    UserCount,
    StorageGb,
}

/// The stable error kinds of the engine.
#[derive(Clone, Copy, Debug, PartialEq, Eq, Structural)]
pub enum EngineError {
    NotFound,
    Forbidden,
    QuotaExceeded,
    Conflict,
    IntegrityAnomaly,
    StoreUnavailable,
}

} // verus!
