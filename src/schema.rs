use vstd::prelude::*;

verus! {

/// The tables of the relational schema.
#[derive(Clone, Copy, Debug, PartialEq, Eq, Structural)]
pub enum Table {
    Tenants,
    Plans,
    Users,
    Subscriptions,
    Roles,
    Permissions,
    UserRoles,
    RolePermissions,
    AuditLogs,
    Projects,
    Tasks,
}

/// `a` holds a foreign key into `b`.
pub open spec fn references(a: Table, b: Table) -> bool {
    match a {
        Table::Tenants => false,
        Table::Plans => false,
        Table::Users => b == Table::Tenants,
        Table::Subscriptions => b == Table::Tenants || b == Table::Plans,
        Table::Roles => b == Table::Tenants,
        Table::Permissions => false,
        Table::UserRoles => b == Table::Users || b == Table::Roles,
        Table::RolePermissions => b == Table::Roles || b == Table::Permissions,
        Table::AuditLogs => b == Table::Tenants || b == Table::Users,
        Table::Projects => b == Table::Tenants || b == Table::Users,
        Table::Tasks => b == Table::Tenants || b == Table::Projects || b == Table::Users,
    }
}

/// Order in which the initial migration creates the tables.
pub open spec fn creation_order() -> Seq<Table> {
    seq![
        Table::Tenants,
        Table::Plans,
        Table::Users,
        Table::Subscriptions,
        Table::Roles,
        Table::Permissions,
        Table::UserRoles,
        Table::RolePermissions,
        Table::AuditLogs,
        Table::Projects,
        Table::Tasks,
    ]
}

/// Order in which the rollback drops the tables: the creation order reversed.
pub open spec fn drop_order() -> Seq<Table> {
    creation_order().reverse()
}

/// SQL name of each table.
pub open spec fn table_name(t: Table) -> Seq<char> {
    match t {
        Table::Tenants => "tenants"@,
        Table::Plans => "plans"@,
        Table::Users => "users"@,
        Table::Subscriptions => "subscriptions"@,
        Table::Roles => "roles"@,
        Table::Permissions => "permissions"@,
        Table::UserRoles => "user_roles"@,
        Table::RolePermissions => "role_permissions"@,
        Table::AuditLogs => "audit_logs"@,
        Table::Projects => "projects"@,
        Table::Tasks => "tasks"@,
    }
}

impl Table {
    /// The table's SQL name.
    pub fn name(&self) -> (r: &'static str)
        ensures
            r@ == table_name(*self),
    {
        match self {
            Table::Tenants => "tenants",
            Table::Plans => "plans",
            Table::Users => "users",
            Table::Subscriptions => "subscriptions",
            Table::Roles => "roles",
            Table::Permissions => "permissions",
            Table::UserRoles => "user_roles",
            Table::RolePermissions => "role_permissions",
            Table::AuditLogs => "audit_logs",
            Table::Projects => "projects",
            Table::Tasks => "tasks",
        }
    }
}

/// Statements that create the schema.
pub const SCHEMA_UP: &'static str = r#"-- Enable UUID generation
CREATE EXTENSION IF NOT EXISTS "uuid-ossp";

-- Table: tenants
CREATE TABLE tenants (
    id UUID PRIMARY KEY DEFAULT uuid_generate_v4(),
    name VARCHAR(255) NOT NULL,
    status VARCHAR(50) NOT NULL DEFAULT 'trial',
    created_at TIMESTAMPTZ NOT NULL DEFAULT NOW(),
    updated_at TIMESTAMPTZ NOT NULL DEFAULT NOW()
);

-- Table: plans
CREATE TABLE plans (
    id UUID PRIMARY KEY DEFAULT uuid_generate_v4(),
    name VARCHAR(100) NOT NULL,
    price INT NOT NULL DEFAULT 0,
    user_limit INT NOT NULL DEFAULT 1,
    storage_limit_gb INT NOT NULL DEFAULT 1,
    features JSONB
);

-- Table: users
CREATE TABLE users (
    id UUID PRIMARY KEY DEFAULT uuid_generate_v4(),
    tenant_id UUID NOT NULL REFERENCES tenants(id) ON DELETE CASCADE,
    email VARCHAR(255) NOT NULL,
    password_hash VARCHAR(255) NOT NULL,
    status VARCHAR(50) NOT NULL DEFAULT 'invited',
    created_at TIMESTAMPTZ NOT NULL DEFAULT NOW(),
    updated_at TIMESTAMPTZ NOT NULL DEFAULT NOW(),
    UNIQUE(tenant_id, email)
);

-- Table: subscriptions
CREATE TABLE subscriptions (
    id UUID PRIMARY KEY DEFAULT uuid_generate_v4(),
    tenant_id UUID NOT NULL REFERENCES tenants(id) ON DELETE CASCADE,
    plan_id UUID NOT NULL REFERENCES plans(id),
    status VARCHAR(50) NOT NULL,
    current_period_start TIMESTAMPTZ NOT NULL,
    current_period_end TIMESTAMPTZ NOT NULL
);

-- Table: roles
CREATE TABLE roles (
    id UUID PRIMARY KEY DEFAULT uuid_generate_v4(),
    tenant_id UUID REFERENCES tenants(id) ON DELETE CASCADE,
    name VARCHAR(100) NOT NULL
);

-- Table: permissions
CREATE TABLE permissions (
    id UUID PRIMARY KEY DEFAULT uuid_generate_v4(),
    name VARCHAR(100) NOT NULL UNIQUE,
    description TEXT
);

-- Table: user_roles (Many-to-Many)
CREATE TABLE user_roles (
    user_id UUID NOT NULL REFERENCES users(id) ON DELETE CASCADE,
    role_id UUID NOT NULL REFERENCES roles(id) ON DELETE CASCADE,
    PRIMARY KEY (user_id, role_id)
);

-- Table: role_permissions (Many-to-Many)
CREATE TABLE role_permissions (
    role_id UUID NOT NULL REFERENCES roles(id) ON DELETE CASCADE,
    permission_id UUID NOT NULL REFERENCES permissions(id) ON DELETE CASCADE,
    PRIMARY KEY (role_id, permission_id)
);

-- Table: audit_logs
CREATE TABLE audit_logs (
    id UUID PRIMARY KEY DEFAULT uuid_generate_v4(),
    tenant_id UUID NOT NULL REFERENCES tenants(id) ON DELETE CASCADE,
    user_id UUID NOT NULL REFERENCES users(id),
    action VARCHAR(100) NOT NULL,
    details JSONB,
    created_at TIMESTAMPTZ NOT NULL DEFAULT NOW()
);

-- Table: projects (Example Business Table)
CREATE TABLE projects (
    id UUID PRIMARY KEY DEFAULT uuid_generate_v4(),
    tenant_id UUID NOT NULL REFERENCES tenants(id) ON DELETE CASCADE,
    name VARCHAR(255) NOT NULL,
    created_by_user_id UUID NOT NULL REFERENCES users(id),
    created_at TIMESTAMPTZ NOT NULL DEFAULT NOW()
);

-- Table: tasks (Example Business Table)
CREATE TABLE tasks (
    id UUID PRIMARY KEY DEFAULT uuid_generate_v4(),
    tenant_id UUID NOT NULL REFERENCES tenants(id) ON DELETE CASCADE,
    project_id UUID NOT NULL REFERENCES projects(id) ON DELETE CASCADE,
    title VARCHAR(255) NOT NULL,
    assignee_user_id UUID REFERENCES users(id),
    created_at TIMESTAMPTZ NOT NULL DEFAULT NOW()
);

-- Add indexes for foreign keys and common lookups
CREATE INDEX idx_users_tenant_id ON users(tenant_id);
CREATE INDEX idx_subscriptions_tenant_id ON subscriptions(tenant_id);
CREATE INDEX idx_roles_tenant_id ON roles(tenant_id);
CREATE INDEX idx_audit_logs_tenant_id ON audit_logs(tenant_id);
CREATE INDEX idx_projects_tenant_id ON projects(tenant_id);
CREATE INDEX idx_tasks_tenant_id ON tasks(tenant_id);
CREATE INDEX idx_tasks_project_id ON tasks(project_id);
"#;

/// Statements that drop the schema, referencing tables first.
pub const SCHEMA_DOWN: &'static str = r#"DROP TABLE IF EXISTS tasks;
DROP TABLE IF EXISTS projects;
DROP TABLE IF EXISTS audit_logs;
DROP TABLE IF EXISTS role_permissions;
DROP TABLE IF EXISTS user_roles;
DROP TABLE IF EXISTS permissions;
DROP TABLE IF EXISTS roles;
DROP TABLE IF EXISTS subscriptions;
DROP TABLE IF EXISTS users;
DROP TABLE IF EXISTS plans;
DROP TABLE IF EXISTS tenants;
"#;

/// The initial schema migration.
pub struct Migration;

/// The list of migrations, oldest first.
pub struct Migrator;

impl Migration {
    /// The migration's stable name.
    pub fn name(&self) -> (r: &'static str)
        ensures
            r@ == "m20250713_113736_initial_schema"@,
    {
        "m20250713_113736_initial_schema"
    }

    /// SQL that applies the migration.
    pub fn up_sql(&self) -> (r: &'static str)
        ensures
            r == SCHEMA_UP,
    {
        SCHEMA_UP
    }

    /// SQL that reverts the migration.
    pub fn down_sql(&self) -> (r: &'static str)
        ensures
            r == SCHEMA_DOWN,
    {
        SCHEMA_DOWN
    }

    /// The tables in the order the migration creates them.
    pub fn created_tables(&self) -> (r: Vec<Table>)
        ensures
            r@ == creation_order(),
    {
        let r = vec![
            Table::Tenants,
            Table::Plans,
            Table::Users,
            Table::Subscriptions,
            Table::Roles,
            Table::Permissions,
            Table::UserRoles,
            Table::RolePermissions,
            Table::AuditLogs,
            Table::Projects,
            Table::Tasks,
        ];
        proof {
            assert(r@ =~= creation_order());
        }
        r
    }

    /// The tables in the order the rollback drops them.
    pub fn dropped_tables(&self) -> (r: Vec<Table>)
        ensures
            r@ == drop_order(),
    {
        let r = vec![
            Table::Tasks,
            Table::Projects,
            Table::AuditLogs,
            Table::RolePermissions,
            Table::UserRoles,
            Table::Permissions,
            Table::Roles,
            Table::Subscriptions,
            Table::Users,
            Table::Plans,
            Table::Tenants,
        ];
        proof {
            assert(r@ =~= drop_order());
        }
        r
    }
}

impl Migrator {
    /// The migrations to apply, oldest first.
    pub fn migrations() -> (r: Vec<Migration>)
        ensures
            r@.len() == 1,
    {
        vec![Migration]
    }
}

/// Every table is created after the tables it references, and dropped before
/// them, so both scripts run without breaking a foreign key.
pub proof fn lemma_schema_order()
    ensures
        forall|i: int, j: int|
            0 <= i < j < creation_order().len() ==> !references(
                #[trigger] creation_order()[i],
                #[trigger] creation_order()[j],
            ),
        forall|i: int, j: int|
            0 <= i < j < drop_order().len() ==> !references(
                #[trigger] drop_order()[j],
                #[trigger] drop_order()[i],
            ),
{
    let c = creation_order();
    assert forall|i: int, j: int| 0 <= i < j < c.len() implies !references(
        #[trigger] c[i],
        #[trigger] c[j],
    ) by {
        assert(c[0] == Table::Tenants);
    }
    assert forall|i: int, j: int| 0 <= i < j < drop_order().len() implies !references(
        #[trigger] drop_order()[j],
        #[trigger] drop_order()[i],
    ) by {
        assert(drop_order()[i] == c[c.len() - 1 - i]);
        assert(drop_order()[j] == c[c.len() - 1 - j]);
    }
}

} // verus!
