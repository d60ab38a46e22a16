use tenancy::schema::{Migration, Migrator, Table};

#[test]
fn migration_scripts() {
    let m = Migration;
    assert_eq!(m.name(), "m20250713_113736_initial_schema");
    let up = m.up_sql();
    assert!(up.starts_with("-- Enable UUID generation\nCREATE EXTENSION IF NOT EXISTS \"uuid-ossp\";"));
    assert!(up.contains("CREATE TABLE tenants (\n    id UUID PRIMARY KEY DEFAULT uuid_generate_v4(),"));
    assert!(up.contains("    UNIQUE(tenant_id, email)\n);"));
    assert!(up.ends_with("CREATE INDEX idx_tasks_project_id ON tasks(project_id);\n"));
    let down = m.down_sql();
    assert!(down.starts_with("DROP TABLE IF EXISTS tasks;\nDROP TABLE IF EXISTS projects;"));
    assert!(down.ends_with("DROP TABLE IF EXISTS tenants;\n"));
}

#[test]
fn table_orders() {
    let m = Migration;
    let created = m.created_tables();
    let dropped = m.dropped_tables();
    assert_eq!(created.len(), 11);
    assert_eq!(created[0], Table::Tenants);
    assert_eq!(dropped[0], Table::Tasks);
    let mut reversed = created.clone();
    reversed.reverse();
    assert_eq!(reversed, dropped);
    let names: Vec<&str> = dropped.iter().map(|t| t.name()).collect();
    let down = m.down_sql();
    let expected: String = names.iter().map(|n| format!("DROP TABLE IF EXISTS {};\n", n)).collect();
    assert_eq!(down, expected);
    assert_eq!(Migrator::migrations().len(), 1);
}
