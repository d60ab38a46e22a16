use tenancy::model::{
    AuditAction, AuditRecord, EngineError, Limits, Permission, Plan, Project, ResourceKind, Role,
    RolePermission, RoleScope, Subscription, SubscriptionStatus, Task, Tenant, TenantStatus,
    User, UserRole, UserStatus,
};
use tenancy::model::{tenant_transition_ok, user_transition_ok};
use tenancy::store::Store;

const NOW: u64 = 50;

fn tenant(id: u64) -> Tenant {
    Tenant { id, name: format!("tenant-{}", id), status: TenantStatus::Active, storage_used_gb: 0 }
}

fn user(id: u64, tenant_id: u64, email: &str) -> User {
    User {
        id,
        tenant_id,
        email: email.to_string(),
        password_hash: "hash".to_string(),
        status: UserStatus::Active,
    }
}

fn role(id: u64, scope: RoleScope, name: &str) -> Role {
    Role { id, scope, name: name.to_string() }
}

fn permission(id: u64, name: &str) -> Permission {
    Permission { id, name: name.to_string(), description: String::new() }
}

fn plan(id: u64, user_limit: u64, storage_limit_gb: u64) -> Plan {
    Plan { id, name: format!("plan-{}", id), price: 0, user_limit, storage_limit_gb }
}

fn subscription(id: u64, tenant_id: u64, plan_id: u64) -> Subscription {
    Subscription {
        id,
        tenant_id,
        plan_id,
        status: SubscriptionStatus::Active,
        period_start: 0,
        period_end: 100,
    }
}

/// Tenant 1 on a plan of two users, with user 100 holding the tenant's role
/// "admin", which grants "manage_users".
fn scenario_a_store() -> Store {
    let mut st = Store::new(None);
    st.tenants.push(tenant(1));
    st.plans.push(plan(10, 2, 5));
    st.subscriptions.push(subscription(1000, 1, 10));
    st.users.push(user(100, 1, "u1@example.com"));
    st.roles.push(role(20, RoleScope::Tenant(1), "admin"));
    st.permissions.push(permission(30, "manage_users"));
    st.permissions.push(permission(31, "view_reports"));
    st.user_roles.push(UserRole { user_id: 100, role_id: 20 });
    st.role_permissions.push(RolePermission { role_id: 20, permission_id: 30 });
    st
}

fn name(s: &str) -> String {
    s.to_string()
}

fn sorted_names(st: &Store, tenant_id: u64, user_id: u64) -> Vec<String> {
    let mut v = st.effective_permissions(tenant_id, user_id).unwrap();
    v.sort();
    v
}

#[test]
fn scenario_a_authorize_and_quota() {
    let mut st = scenario_a_store();
    assert_eq!(st.authorize(1, 100, &name("manage_users")), Ok(()));
    assert_eq!(st.check_and_reserve(1, ResourceKind::UserCount, 1, NOW), Ok(()));
    assert_eq!(
        st.invite_user(1, 100, 101, name("u2@example.com"), name("h2"), NOW),
        Ok(101)
    );
    assert_eq!(
        st.check_and_reserve(1, ResourceKind::UserCount, 1, NOW),
        Err(EngineError::QuotaExceeded)
    );
}

#[test]
fn scenario_b_cross_tenant_role_is_ignored() {
    let mut st = Store::new(None);
    st.tenants.push(tenant(1));
    st.tenants.push(tenant(2));
    st.users.push(user(100, 1, "u@example.com"));
    st.roles.push(role(20, RoleScope::Tenant(2), "admin"));
    st.permissions.push(permission(30, "manage_users"));
    st.user_roles.push(UserRole { user_id: 100, role_id: 20 });
    st.role_permissions.push(RolePermission { role_id: 20, permission_id: 30 });
    assert_eq!(st.authorize(1, 100, &name("manage_users")), Err(EngineError::Forbidden));
    assert_eq!(st.integrity_anomalies(1, 100), vec![20]);
    assert_eq!(st.effective_permissions(1, 100), Ok(Vec::new()));
    assert_eq!(st.effective_permission_ids(100, 1), Vec::<u64>::new());
    assert_eq!(st.effective_permission_ids(100, 2), vec![30]);
}

#[test]
fn quota_admits_one_of_two_invitations() {
    let mut st = scenario_a_store();
    let first = st.invite_user(1, 100, 101, name("a@example.com"), name("h"), NOW);
    let second = st.invite_user(1, 100, 102, name("b@example.com"), name("h"), NOW);
    assert_eq!(first, Ok(101));
    assert_eq!(second, Err(EngineError::QuotaExceeded));
    assert_eq!(st.count_users(1), 2);
}

#[test]
fn permission_union_over_roles() {
    let mut st = scenario_a_store();
    st.roles.push(role(21, RoleScope::Global, "reader"));
    st.role_permissions.push(RolePermission { role_id: 21, permission_id: 31 });
    st.role_permissions.push(RolePermission { role_id: 21, permission_id: 30 });
    assert_eq!(st.effective_permissions(1, 100), Ok(vec![name("manage_users")]));
    st.user_roles.push(UserRole { user_id: 100, role_id: 21 });
    assert_eq!(sorted_names(&st, 1, 100), vec![name("manage_users"), name("view_reports")]);
    let mut ids = st.effective_permission_ids(100, 1);
    ids.sort();
    assert_eq!(ids, vec![30, 31]);
    assert_eq!(st.authorize(1, 100, &name("view_reports")), Ok(()));
}

#[test]
fn assigning_a_role_adds_permissions_and_keeps_old_ones() {
    let mut st = scenario_a_store();
    st.roles.push(role(21, RoleScope::Global, "reader"));
    st.role_permissions.push(RolePermission { role_id: 21, permission_id: 31 });
    assert_eq!(st.assign_role(1, 100, 100, 21, NOW), Ok(()));
    assert_eq!(sorted_names(&st, 1, 100), vec![name("manage_users"), name("view_reports")]);
    assert_eq!(st.assign_role(1, 100, 100, 21, NOW), Err(EngineError::Conflict));
    assert_eq!(st.audit_logs.len(), 1);
    assert_eq!(st.audit_logs[0].action, AuditAction::RoleGranted);
    assert_eq!(st.audit_logs[0].user_id, 100);
}

#[test]
fn tenant_isolation_of_roles_and_users() {
    let mut st = scenario_a_store();
    st.tenants.push(tenant(2));
    st.users.push(user(200, 2, "other@example.com"));
    st.roles.push(role(40, RoleScope::Tenant(2), "owner"));
    st.role_permissions.push(RolePermission { role_id: 40, permission_id: 31 });
    st.user_roles.push(UserRole { user_id: 200, role_id: 40 });
    assert_eq!(st.effective_permissions(1, 100), Ok(vec![name("manage_users")]));
    assert_eq!(st.effective_permissions(2, 200), Ok(vec![name("view_reports")]));
    assert_eq!(st.authorize(2, 100, &name("manage_users")), Err(EngineError::NotFound));
    assert_eq!(st.effective_permissions(2, 100), Err(EngineError::NotFound));
    assert_eq!(st.assign_role(1, 100, 100, 40, NOW), Err(EngineError::IntegrityAnomaly));
    assert_eq!(st.assign_role(1, 100, 200, 20, NOW), Err(EngineError::NotFound));
}

#[test]
fn permissions_missing_from_catalog_have_no_name() {
    let mut st = scenario_a_store();
    st.role_permissions.push(RolePermission { role_id: 20, permission_id: 99 });
    assert_eq!(st.effective_permissions(1, 100), Ok(vec![name("manage_users")]));
    let mut ids = st.effective_permission_ids(100, 1);
    ids.sort();
    assert_eq!(ids, vec![30, 99]);
    assert_eq!(st.find_permission(99), None);
    assert_eq!(st.find_permission(31), Some(1));
}

#[test]
fn authorize_not_found_cases() {
    let st = scenario_a_store();
    assert_eq!(st.authorize(9, 100, &name("manage_users")), Err(EngineError::NotFound));
    assert_eq!(st.authorize(1, 999, &name("manage_users")), Err(EngineError::NotFound));
    assert_eq!(st.authorize(1, 100, &name("no_such")), Err(EngineError::NotFound));
    assert_eq!(st.authorize(1, 100, &name("view_reports")), Err(EngineError::Forbidden));
}

#[test]
fn successful_invitation_is_audited_once() {
    let mut st = scenario_a_store();
    assert_eq!(st.invite_user(1, 100, 101, name("n@example.com"), name("h"), NOW), Ok(101));
    assert_eq!(st.audit_logs.len(), 1);
    let rec: &AuditRecord = &st.audit_logs[0];
    assert_eq!(rec.tenant_id, 1);
    assert_eq!(rec.user_id, 100);
    assert_eq!(rec.action, AuditAction::UserInvited);
    assert_eq!(rec.details, "n@example.com");
    assert_eq!(rec.created_at, NOW);
    assert_eq!(st.users[1].status, UserStatus::Invited);
    assert_eq!(st.users[1].tenant_id, 1);
}

#[test]
fn failed_invitation_leaves_no_record() {
    let mut st = scenario_a_store();
    assert_eq!(
        st.invite_user(1, 100, 101, name("u1@example.com"), name("h"), NOW),
        Err(EngineError::Conflict)
    );
    assert_eq!(
        st.invite_user(1, 100, 100, name("fresh@example.com"), name("h"), NOW),
        Err(EngineError::Conflict)
    );
    assert_eq!(
        st.invite_user(1, 555, 101, name("fresh@example.com"), name("h"), NOW),
        Err(EngineError::NotFound)
    );
    assert_eq!(st.audit_logs.len(), 0);
    assert_eq!(st.users.len(), 1);
}

#[test]
fn exhausted_audit_log_fails_the_operation() {
    let mut st = scenario_a_store();
    st.next_audit_id = u64::MAX;
    assert_eq!(
        st.invite_user(1, 100, 101, name("n@example.com"), name("h"), NOW),
        Err(EngineError::StoreUnavailable)
    );
    assert_eq!(st.users.len(), 1);
    assert_eq!(
        st.record(1, 100, AuditAction::UserDisabled, String::new(), NOW),
        Err(EngineError::StoreUnavailable)
    );
}

#[test]
fn record_appends_with_increasing_ids() {
    let mut st = scenario_a_store();
    assert_eq!(st.record(1, 100, AuditAction::RoleRevoked, name("x"), 7), Ok(1));
    assert_eq!(st.record(1, 100, AuditAction::RoleRevoked, name("y"), 8), Ok(2));
    assert_eq!(st.record(2, 100, AuditAction::RoleRevoked, name("z"), 9), Err(EngineError::NotFound));
    assert_eq!(st.audit_logs.len(), 2);
    assert_eq!(st.audit_logs[1].id, 2);
}

#[test]
fn quota_without_active_subscription() {
    let mut st = scenario_a_store();
    assert_eq!(
        st.check_and_reserve(1, ResourceKind::UserCount, 1, 100),
        Err(EngineError::QuotaExceeded)
    );
    st.fallback = Some(Limits { user_limit: 3, storage_limit_gb: 1 });
    assert_eq!(st.check_and_reserve(1, ResourceKind::UserCount, 2, 100), Ok(()));
    assert_eq!(
        st.check_and_reserve(1, ResourceKind::UserCount, 3, 100),
        Err(EngineError::QuotaExceeded)
    );
    assert_eq!(
        st.check_and_reserve(7, ResourceKind::UserCount, 0, NOW),
        Err(EngineError::NotFound)
    );
    st.subscriptions[0].status = SubscriptionStatus::Superseded;
    assert_eq!(st.check_and_reserve(1, ResourceKind::UserCount, 2, NOW), Ok(()));
}

#[test]
fn quota_with_missing_plan_denies() {
    let mut st = scenario_a_store();
    st.subscriptions[0].plan_id = 77;
    assert_eq!(
        st.check_and_reserve(1, ResourceKind::UserCount, 0, NOW),
        Err(EngineError::QuotaExceeded)
    );
}

#[test]
fn storage_reservation() {
    let mut st = scenario_a_store();
    assert_eq!(st.check_and_reserve(1, ResourceKind::StorageGb, 5, NOW), Ok(()));
    assert_eq!(st.reserve_storage(1, 100, 3, NOW), Ok(()));
    assert_eq!(st.tenants[0].storage_used_gb, 3);
    assert_eq!(st.reserve_storage(1, 100, 3, NOW), Err(EngineError::QuotaExceeded));
    assert_eq!(st.reserve_storage(1, 100, 2, NOW), Ok(()));
    assert_eq!(st.tenants[0].storage_used_gb, 5);
    assert_eq!(st.audit_logs.len(), 2);
    assert_eq!(st.audit_logs[1].action, AuditAction::StorageReserved);
    assert_eq!(
        st.check_and_reserve(1, ResourceKind::StorageGb, u64::MAX, NOW),
        Err(EngineError::QuotaExceeded)
    );
}

#[test]
fn delete_tenant_cascades_and_spares_others() {
    let mut st = scenario_a_store();
    st.tenants.push(tenant(2));
    st.subscriptions.push(subscription(1001, 2, 10));
    st.users.push(user(200, 2, "other@example.com"));
    st.roles.push(role(40, RoleScope::Tenant(2), "owner"));
    st.roles.push(role(41, RoleScope::Global, "reader"));
    st.user_roles.push(UserRole { user_id: 200, role_id: 40 });
    st.user_roles.push(UserRole { user_id: 100, role_id: 41 });
    st.role_permissions.push(RolePermission { role_id: 40, permission_id: 31 });
    st.projects.push(Project { id: 1, tenant_id: 1, name: name("p1"), created_by_user_id: 100 });
    st.projects.push(Project { id: 2, tenant_id: 2, name: name("p2"), created_by_user_id: 200 });
    st.tasks.push(Task { id: 1, tenant_id: 1, project_id: 1, title: name("t1"), assignee_user_id: None });
    st.tasks.push(Task {
        id: 2,
        tenant_id: 2,
        project_id: 2,
        title: name("t2"),
        assignee_user_id: Some(200),
    });
    assert_eq!(st.record(1, 100, AuditAction::RoleGranted, String::new(), NOW), Ok(1));
    assert_eq!(st.record(2, 200, AuditAction::RoleGranted, String::new(), NOW), Ok(2));

    assert_eq!(st.delete_tenant(1), Ok(()));
    assert_eq!(st.tenants.len(), 1);
    assert_eq!(st.tenants[0].id, 2);
    assert_eq!(st.users.len(), 1);
    assert_eq!(st.users[0].id, 200);
    assert_eq!(st.subscriptions.len(), 1);
    assert_eq!(st.subscriptions[0].tenant_id, 2);
    assert_eq!(st.roles.len(), 2);
    assert_eq!(st.roles[0].id, 40);
    assert_eq!(st.roles[1].id, 41);
    assert_eq!(st.user_roles, vec![UserRole { user_id: 200, role_id: 40 }]);
    assert_eq!(st.role_permissions, vec![RolePermission { role_id: 40, permission_id: 31 }]);
    assert_eq!(st.audit_logs.len(), 1);
    assert_eq!(st.audit_logs[0].tenant_id, 2);
    assert_eq!(st.projects.len(), 1);
    assert_eq!(st.projects[0].id, 2);
    assert_eq!(st.tasks.len(), 1);
    assert_eq!(st.tasks[0].id, 2);
    assert_eq!(st.plans.len(), 1);
    assert_eq!(st.permissions.len(), 2);
    assert_eq!(st.delete_tenant(1), Err(EngineError::NotFound));
}

#[test]
fn lookups_return_first_match() {
    let mut st = scenario_a_store();
    st.users.push(user(100, 1, "dup@example.com"));
    assert_eq!(st.find_user(100), Some(0));
    assert_eq!(st.find_user(5), None);
    assert_eq!(st.find_tenant(1), Some(0));
    assert_eq!(st.find_plan(10), Some(0));
    assert_eq!(st.find_role(20), Some(0));
    assert_eq!(st.find_user_by_email(1, &name("dup@example.com")), Some(1));
    assert_eq!(st.find_user_by_email(2, &name("dup@example.com")), None);
    assert_eq!(st.find_permission_by_name(&name("view_reports")), Some(1));
    assert_eq!(st.find_active_subscription(1, NOW), Some(0));
    assert_eq!(st.find_active_subscription(1, 100), None);
    assert_eq!(st.limits_for(1, NOW), Some(Limits { user_limit: 2, storage_limit_gb: 5 }));
}

#[test]
fn audit_action_identifiers() {
    assert_eq!(AuditAction::UserInvited.as_str(), "user.invited");
    assert_eq!(AuditAction::RoleGranted.as_str(), "role.granted");
    assert_eq!(AuditAction::StorageReserved.as_str(), "storage.reserved");
}

#[test]
fn tenant_status_transitions() {
    assert!(tenant_transition_ok(TenantStatus::Trial, TenantStatus::Active));
    assert!(tenant_transition_ok(TenantStatus::Active, TenantStatus::Suspended));
    assert!(tenant_transition_ok(TenantStatus::Suspended, TenantStatus::Active));
    assert!(!tenant_transition_ok(TenantStatus::Active, TenantStatus::Trial));
    assert!(!tenant_transition_ok(TenantStatus::Suspended, TenantStatus::Trial));
}

#[test]
fn user_status_advances_and_is_audited() {
    let mut st = scenario_a_store();
    assert_eq!(st.invite_user(1, 100, 101, name("n@example.com"), name("h"), NOW), Ok(101));
    assert_eq!(st.set_user_status(1, 100, 101, UserStatus::Active, NOW), Ok(()));
    assert_eq!(st.users[1].status, UserStatus::Active);
    assert_eq!(st.audit_logs[1].action, AuditAction::UserActivated);
    assert_eq!(st.set_user_status(1, 100, 101, UserStatus::Invited, NOW), Err(EngineError::Conflict));
    assert_eq!(st.set_user_status(1, 100, 101, UserStatus::Disabled, NOW), Ok(()));
    assert_eq!(st.audit_logs[2].action, AuditAction::UserDisabled);
    assert_eq!(st.audit_logs[2].user_id, 100);
    assert_eq!(st.set_user_status(1, 100, 101, UserStatus::Active, NOW), Err(EngineError::Conflict));
    assert_eq!(st.set_user_status(2, 100, 101, UserStatus::Disabled, NOW), Err(EngineError::NotFound));
    assert_eq!(st.audit_logs.len(), 3);
    assert!(user_transition_ok(UserStatus::Invited, UserStatus::Disabled));
    assert!(!user_transition_ok(UserStatus::Active, UserStatus::Active));
}

#[test]
fn tenant_status_changes() {
    let mut st = scenario_a_store();
    st.tenants[0].status = TenantStatus::Trial;
    assert_eq!(st.set_tenant_status(1, TenantStatus::Active), Ok(()));
    assert_eq!(st.set_tenant_status(1, TenantStatus::Suspended), Ok(()));
    assert_eq!(st.tenants[0].status, TenantStatus::Suspended);
    assert_eq!(st.set_tenant_status(1, TenantStatus::Trial), Err(EngineError::Conflict));
    assert_eq!(st.set_tenant_status(1, TenantStatus::Active), Ok(()));
    assert_eq!(st.tenants[0].status, TenantStatus::Active);
    assert_eq!(st.set_tenant_status(3, TenantStatus::Active), Err(EngineError::NotFound));
    assert_eq!(AuditAction::UserActivated.as_str(), "user.activated");
}

#[test]
fn effective_names_are_deduplicated() {
    let mut st = scenario_a_store();
    st.permissions.push(permission(32, "manage_users"));
    st.role_permissions.push(RolePermission { role_id: 20, permission_id: 32 });
    st.role_permissions.push(RolePermission { role_id: 20, permission_id: 30 });
    assert_eq!(st.effective_permissions(1, 100), Ok(vec![name("manage_users")]));
    let mut ids = st.effective_permission_ids(100, 1);
    ids.sort();
    assert_eq!(ids, vec![30, 32]);
}

#[test]
fn revoking_a_role_removes_its_permissions() {
    let mut st = scenario_a_store();
    assert_eq!(st.revoke_role(1, 100, 100, 20, NOW), Ok(()));
    assert!(st.user_roles.is_empty());
    assert_eq!(st.authorize(1, 100, &name("manage_users")), Err(EngineError::Forbidden));
    assert_eq!(st.audit_logs.len(), 1);
    assert_eq!(st.audit_logs[0].action, AuditAction::RoleRevoked);
    assert_eq!(st.revoke_role(1, 100, 100, 20, NOW), Err(EngineError::NotFound));
    assert_eq!(st.audit_logs.len(), 1);
}

#[test]
fn granting_and_revoking_permissions() {
    let mut st = scenario_a_store();
    assert_eq!(st.authorize(1, 100, &name("view_reports")), Err(EngineError::Forbidden));
    assert_eq!(st.grant_permission(1, 100, 20, 31, NOW), Ok(()));
    assert!(st.has_grant(20, 31));
    assert_eq!(st.authorize(1, 100, &name("view_reports")), Ok(()));
    assert_eq!(st.grant_permission(1, 100, 20, 31, NOW), Err(EngineError::Conflict));
    assert_eq!(st.grant_permission(1, 100, 20, 99, NOW), Err(EngineError::NotFound));
    assert_eq!(st.grant_permission(1, 100, 77, 31, NOW), Err(EngineError::NotFound));
    assert_eq!(st.revoke_permission(1, 100, 20, 31, NOW), Ok(()));
    assert!(!st.has_grant(20, 31));
    assert_eq!(st.authorize(1, 100, &name("view_reports")), Err(EngineError::Forbidden));
    assert_eq!(st.revoke_permission(1, 100, 20, 31, NOW), Err(EngineError::NotFound));
    assert_eq!(st.audit_logs.len(), 2);
    assert_eq!(st.audit_logs[0].action, AuditAction::PermissionGranted);
    assert_eq!(st.audit_logs[1].action, AuditAction::PermissionRevoked);
}

#[test]
fn grants_of_foreign_or_global_roles_are_forbidden() {
    let mut st = scenario_a_store();
    st.roles.push(role(21, RoleScope::Global, "reader"));
    st.roles.push(role(22, RoleScope::Tenant(2), "other"));
    assert_eq!(st.grant_permission(1, 100, 21, 31, NOW), Err(EngineError::Forbidden));
    assert_eq!(st.grant_permission(1, 100, 22, 31, NOW), Err(EngineError::Forbidden));
    assert!(st.audit_logs.is_empty());
    assert_eq!(st.role_permissions.len(), 1);
}
