use db_subset::config::{
    BatchConfig, Config, DbConfig, DbTechnology, LogLevel, LogsConfig, TablesConfig, TargetPath,
};
use db_subset::custom_error::CustomError;
use db_subset::providers::{
    BatchTableQueryProvider, BatchTableSelectQueryProvider, DoubleStagedTableQueryProvider,
    DoubleStagedTableSelectQueryProvider, SimpleTableSelectQueryProvider,
};
use db_subset::schema::{Catalog, ColumnProps, FkColumnUsage, TableSchema};

fn db() -> DbConfig {
    DbConfig {
        username: "user".to_string(),
        password: "pw".to_string(),
        host: "localhost".to_string(),
        port: "3306".to_string(),
        database: "src".to_string(),
    }
}

fn config(subject_id: Option<i64>, job_id: Option<i64>) -> Config {
    Config {
        source: db(),
        redshift_db: db(),
        target_db: None,
        target_path: TargetPath { path: "out".to_string() },
        tables: TablesConfig {
            batch_tables: vec!["orders".to_string()],
            partitioned_tables: vec![],
            double_partitioned_tables: vec!["events".to_string()],
            triple_partitioned_tables: vec![],
            redshift_tables: vec![],
        },
        technology: DbTechnology { category: "mysql".to_string() },
        business: BatchConfig {
            study_id: 1,
            area_id: 2,
            lifecycle_id: 3,
            subject_id,
            job_id,
            limit: None,
        },
        log: LogsConfig { log_level: LogLevel::Info },
    }
}

fn column(name: &str) -> ColumnProps {
    ColumnProps {
        name: name.to_string(),
        data_type: "int".to_string(),
        is_nullable: "NO".to_string(),
        key: "".to_string(),
        default_value: None,
        extra: "".to_string(),
    }
}

fn edge(column: &str, table: &str, referenced: &str) -> FkColumnUsage {
    FkColumnUsage {
        column_name: column.to_string(),
        referenced_table_name: table.to_string(),
        referenced_column_name: referenced.to_string(),
    }
}

fn table(name: &str, columns: &[&str], edges: Vec<FkColumnUsage>) -> TableSchema {
    TableSchema {
        name: name.to_string(),
        columns: columns.iter().map(|c| column(c)).collect(),
        references: edges,
    }
}

fn catalog(tables: Vec<TableSchema>) -> Catalog {
    let mut c = Catalog::new();
    for t in tables {
        c.add_table(t);
    }
    c
}

#[test]
fn scenario_a_single_edge() {
    let cfg = config(None, None);
    let cat = catalog(vec![
        table("orders", &["id", "customer_id"], vec![edge("customer_id", "customers", "id")]),
        table("customers", &["id"], vec![]),
    ]);
    let provider = BatchTableQueryProvider { config: &cfg };
    let q = provider.get_select_query(&cat, &"orders".to_string(), None).unwrap();
    assert_eq!(q, "SELECT * FROM orders\nWHERE customer_id IN (\nSELECT id FROM customers\n)");
}

#[test]
fn scenario_b_run_table_scope() {
    let cfg = config(None, Some(9));
    let cat = catalog(vec![table("cb_batch_runs", &["id", "study_id"], vec![])]);
    let provider = BatchTableQueryProvider { config: &cfg };
    let q = provider.get_select_query(&cat, &"cb_batch_runs".to_string(), None).unwrap();
    assert_eq!(
        q,
        "SELECT * FROM cb_batch_runs WHERE study_id = 1 AND area_id = 2 AND lifecycle_id = 3 AND job_id = 9"
    );
}

#[test]
fn closure_one_in_per_edge_in_discovery_order() {
    let cfg = config(None, None);
    let cat = catalog(vec![
        table(
            "orders",
            &["id"],
            vec![edge("customer_id", "customers", "id"), edge("product_id", "products", "code")],
        ),
        table("customers", &["id"], vec![edge("region_id", "regions", "id")]),
        table("products", &["code"], vec![]),
        table("regions", &["id"], vec![]),
    ]);
    let provider = BatchTableSelectQueryProvider { config: &cfg };
    let q = provider.get_select_query(&cat, &"orders".to_string(), None).unwrap();
    assert_eq!(
        q,
        "SELECT * FROM orders\nWHERE customer_id IN (\nSELECT id FROM customers\nWHERE region_id IN (\nSELECT id FROM regions\n)\n) AND product_id IN (\nSELECT code FROM products\n)"
    );
    assert_eq!(q.matches(" IN (").count(), 3);
}

#[test]
fn cyclic_edges_stop_at_an_ancestor() {
    let cfg = config(None, None);
    let cat = catalog(vec![
        table("a", &["id"], vec![edge("b_id", "b", "id")]),
        table("b", &["id"], vec![edge("a_id", "a", "id"), edge("self_id", "b", "id")]),
    ]);
    let provider = BatchTableQueryProvider { config: &cfg };
    let q = provider.get_select_query(&cat, &"a".to_string(), None).unwrap();
    assert_eq!(q, "SELECT * FROM a\nWHERE b_id IN (\nSELECT id FROM b\n)");
}

#[test]
fn run_table_with_edges_continues_with_and() {
    let cfg = config(None, None);
    let cat = catalog(vec![
        table("cb_batch_runs", &["id"], vec![edge("job_id", "jobs", "id")]),
        table("jobs", &["id"], vec![]),
    ]);
    let provider = BatchTableQueryProvider { config: &cfg };
    let q = provider.get_select_query(&cat, &"cb_batch_runs".to_string(), Some("id".to_string())).unwrap();
    assert_eq!(
        q,
        "SELECT id FROM cb_batch_runs WHERE study_id = 1 AND area_id = 2 AND lifecycle_id = 3 AND job_id IN (\nSELECT id FROM jobs\n)"
    );
}

#[test]
fn subject_absent_gives_no_subject_predicate() {
    let cfg = config(None, None);
    let cat = catalog(vec![table("cb_batch_runs", &["id"], vec![])]);
    let provider = BatchTableQueryProvider { config: &cfg };
    let q = provider.get_select_query(&cat, &"cb_batch_runs".to_string(), None).unwrap();
    assert!(!q.contains("subject_id"));
}

#[test]
fn subject_present_gives_one_subject_predicate() {
    let cfg = config(Some(7), None);
    let cat = catalog(vec![table("cb_batch_runs", &["id"], vec![])]);
    let provider = BatchTableQueryProvider { config: &cfg };
    let q = provider.get_select_query(&cat, &"cb_batch_runs".to_string(), None).unwrap();
    assert_eq!(q.matches("subject_id").count(), 1);
    assert_eq!(
        q,
        "SELECT * FROM cb_batch_runs WHERE study_id = 1 AND area_id = 2 AND lifecycle_id = 3 AND subject_id = 7"
    );
}

#[test]
fn bare_select_for_table_without_columns_or_edges() {
    let cfg = config(Some(7), Some(9));
    let cat = catalog(vec![table("lookup", &[], vec![])]);
    let provider = BatchTableQueryProvider { config: &cfg };
    let q = provider.get_select_query(&cat, &"lookup".to_string(), Some("code".to_string())).unwrap();
    assert_eq!(q, "SELECT code FROM lookup");
}

#[test]
fn missing_table_is_a_structure_error() {
    let cfg = config(None, None);
    let cat = catalog(vec![table("orders", &["id"], vec![edge("customer_id", "customers", "id")])]);
    let provider = BatchTableQueryProvider { config: &cfg };
    let r = provider.get_select_query(&cat, &"orders".to_string(), None);
    assert!(matches!(r, Err(CustomError::DbTableStructure)));
    let r = provider.get_select_query(&cat, &"nowhere".to_string(), None);
    assert!(matches!(r, Err(CustomError::DbTableStructure)));
}

#[test]
fn partitioned_table_name() {
    let cfg = config(None, None);
    let provider = DoubleStagedTableQueryProvider { config: &cfg };
    assert_eq!(provider.get_table_name(&"events".to_string()), "events_3_2");
    let provider = DoubleStagedTableSelectQueryProvider { config: &cfg };
    assert_eq!(provider.get_table_name(&"issues".to_string()), "issues_3_2");
}

#[test]
fn partitioned_scope_columns() {
    let cfg = config(Some(7), Some(9));
    let cat = catalog(vec![table(
        "events_3_2",
        &["id", "study_id", "subject_id", "job_id", "issue_id"],
        vec![],
    )]);
    let provider = DoubleStagedTableQueryProvider { config: &cfg };
    let q = provider.get_select_query(&cat, &"events".to_string(), None).unwrap();
    assert_eq!(
        q,
        "SELECT * FROM events_3_2 WHERE study_id = 1 AND subject_id = 7 AND job_id = 9 AND issue_id IN (SELECT id FROM issues_3_2 WHERE study_id = 1 AND subject_id = 7)"
    );
}

#[test]
fn partitioned_without_study_column_starts_with_where() {
    let cfg = config(None, Some(9));
    let cat = catalog(vec![
        table("events_3_2", &["id", "job_id", "kind_id"], vec![edge("kind_id", "kinds", "id")]),
        table("kinds", &["id"], vec![]),
    ]);
    let provider = DoubleStagedTableSelectQueryProvider { config: &cfg };
    let q = provider.get_select_query(&cat, &"events".to_string(), None).unwrap();
    assert_eq!(
        q,
        "SELECT * FROM events_3_2 WHERE job_id = 9 AND kind_id IN (\nSELECT id FROM kinds\n)"
    );
}

#[test]
fn simple_provider_scopes_only_the_run_table() {
    let cfg = config(Some(7), None);
    let provider = SimpleTableSelectQueryProvider::new(&cfg);
    assert_eq!(
        provider.get_select_query(&"cb_batch_runs".to_string()),
        "SELECT * FROM cb_batch_runs WHERE study_id = 1 AND area_id = 2 AND lifecycle_id = 3 AND subject_id = 7;\n\n"
    );
    assert_eq!(provider.get_select_query(&"cb_items".to_string()), "SELECT * FROM cb_items");
}

#[test]
fn introspection_is_repeatable() {
    let cat = catalog(vec![table("orders", &["id", "customer_id"], vec![edge("customer_id", "customers", "id")])]);
    let name = "orders".to_string();
    let first: Vec<String> = cat.get_columns(&name).unwrap().iter().map(|c| c.name.clone()).collect();
    let second: Vec<String> = cat.get_columns(&name).unwrap().iter().map(|c| c.name.clone()).collect();
    assert_eq!(first, vec!["id".to_string(), "customer_id".to_string()]);
    assert_eq!(first, second);
    let e1: Vec<String> = cat.get_table_references(&name).unwrap().iter().map(|e| e.referenced_table_name.clone()).collect();
    let e2: Vec<String> = cat.get_table_references(&name).unwrap().iter().map(|e| e.referenced_table_name.clone()).collect();
    assert_eq!(e1, vec!["customers".to_string()]);
    assert_eq!(e1, e2);
    assert!(cat.get_columns(&"customers".to_string()).is_none());
}

#[test]
fn catalog_keeps_first_entry_and_reports_unknown_references() {
    let mut cat = catalog(vec![table("orders", &["id"], vec![edge("customer_id", "customers", "id")])]);
    assert_eq!(cat.first_unknown_reference(), Some("customers".to_string()));
    cat.add_table(table("customers", &["id"], vec![]));
    assert_eq!(cat.first_unknown_reference(), None);
    cat.add_table(table("orders", &["other"], vec![]));
    assert_eq!(cat.get_columns(&"orders".to_string()).unwrap()[0].name, "id");
    assert!(cat.contains_table(&"customers".to_string()));
    let roots = vec!["orders".to_string(), "audit_log".to_string()];
    assert_eq!(cat.next_table_to_read(&roots), Some("audit_log".to_string()));
    cat.add_table(table("audit_log", &["id"], vec![edge("user_id", "users", "id")]));
    assert_eq!(cat.next_table_to_read(&roots), Some("users".to_string()));
    cat.add_table(table("users", &["id"], vec![]));
    assert_eq!(cat.next_table_to_read(&roots), None);
    assert!(!cat.contains_table(&"regions".to_string()));
}
