use db_subset::config::{
    get_url, BatchConfig, Config, DbConfig, DbTechnology, LogLevel, LogsConfig, TablesConfig,
    TargetPath,
};
use db_subset::custom_error::CustomError;
use db_subset::generators::{
    assemble_script, BatchTablesQueryGenerator, DoubleStagedTablesQueryGenerator,
    RedshiftTablesQueryGenerator, TablesInsertQueryGeneratorTrait,
};
use db_subset::insert::{generate_insert_query, ColumnValue, NamedValue};
use db_subset::literal::{parse_mysql_value_to_string, SimpleTablesQueryGenerator, SqlValue};
use db_subset::redshift::{
    self, pg_value_kind, pg_value_to_string, PgKind, PgValue, RedshiftTableQueryProvider,
    Timestamp,
};
use db_subset::saver::{output_files, DataSaver, InsertQueries, InsertQueryGenerator};
use db_subset::schema::{Catalog, ColumnProps, TableSchema};

fn db() -> DbConfig {
    DbConfig {
        username: "user".to_string(),
        password: "pw".to_string(),
        host: "db.local".to_string(),
        port: "3306".to_string(),
        database: "src".to_string(),
    }
}

fn config(subject_id: Option<i64>, job_id: Option<i64>, limit: Option<i64>) -> Config {
    Config {
        source: db(),
        redshift_db: db(),
        target_db: None,
        target_path: TargetPath { path: "out".to_string() },
        tables: TablesConfig {
            batch_tables: vec!["widgets".to_string()],
            partitioned_tables: vec![],
            double_partitioned_tables: vec!["events".to_string()],
            triple_partitioned_tables: vec![],
            redshift_tables: vec!["records_trail".to_string(), "audit".to_string()],
        },
        technology: DbTechnology { category: "mysql".to_string() },
        business: BatchConfig {
            study_id: 1,
            area_id: 2,
            lifecycle_id: 3,
            subject_id,
            job_id,
            limit,
        },
        log: LogsConfig { log_level: LogLevel::Info },
    }
}

fn props(name: &str, data_type: &str) -> ColumnProps {
    ColumnProps {
        name: name.to_string(),
        data_type: data_type.to_string(),
        is_nullable: "YES".to_string(),
        key: "".to_string(),
        default_value: None,
        extra: "".to_string(),
    }
}

fn cell(name: &str, data_type: &str, value: Option<&[u8]>) -> ColumnValue {
    ColumnValue {
        props: props(name, data_type),
        value: match value {
            Some(b) => SqlValue::Bytes(b.to_vec()),
            None => SqlValue::Null,
        },
    }
}

fn widgets() -> Vec<Vec<ColumnValue>> {
    vec![
        vec![cell("id", "int", Some(b"1")), cell("name", "varchar(10)", Some(b"a"))],
        vec![cell("id", "int", Some(b"2")), cell("name", "varchar(10)", None)],
    ]
}

#[test]
fn scenario_c_two_rows() {
    let q = generate_insert_query(&widgets(), &"widgets".to_string()).unwrap();
    assert_eq!(q, "INSERT INTO\nwidgets (`id`, `name`)\nVALUES\n('1', 'a'), \n('2', NULL);");
}

#[test]
fn scenario_d_quote_is_escaped() {
    let s = parse_mysql_value_to_string(&props("name", "varchar(20)"), &SqlValue::Bytes(b"O'Brien".to_vec()));
    assert_eq!(s, Some("'O\\'Brien'".to_string()));
}

#[test]
fn null_is_bare_keyword() {
    let s = parse_mysql_value_to_string(&props("name", "binary(4)"), &SqlValue::Null);
    assert_eq!(s, Some("NULL".to_string()));
}

#[test]
fn binary_column_is_upper_hex() {
    let s = parse_mysql_value_to_string(&props("hash", "binary(16)"), &SqlValue::Bytes(vec![0x00, 0xab, 0x7f, 0xff]));
    assert_eq!(s, Some("X'00AB7FFF'".to_string()));
    let s = parse_mysql_value_to_string(&props("hash", "binary(0)"), &SqlValue::Bytes(vec![]));
    assert_eq!(s, Some("X''".to_string()));
}

#[test]
fn varbinary_is_quoted_text() {
    let s = parse_mysql_value_to_string(&props("v", "varbinary(4)"), &SqlValue::Bytes(b"ab".to_vec()));
    assert_eq!(s, Some("'ab'".to_string()));
}

#[test]
fn text_round_trips_through_the_literal_grammar() {
    let text = "it's é ok ''";
    let s = parse_mysql_value_to_string(&props("t", "text"), &SqlValue::Bytes(text.as_bytes().to_vec())).unwrap();
    assert_eq!(s, "'it\\'s é ok \\'\\''");
    let body = &s[1..s.len() - 1];
    assert_eq!(body.replace("\\'", "'"), text);
}

#[test]
fn non_utf8_text_has_no_literal() {
    let s = parse_mysql_value_to_string(&props("t", "blob"), &SqlValue::Bytes(vec![0xff, 0xfe]));
    assert_eq!(s, None);
    let rows = vec![vec![cell("t", "blob", Some(&[0xff, 0xfe]))]];
    let r = generate_insert_query(&rows, &"blobs".to_string());
    assert!(matches!(r, Err(CustomError::DbTableStructure)));
}

#[test]
fn zero_rows_give_empty_text() {
    let q = generate_insert_query(&vec![], &"widgets".to_string()).unwrap();
    assert_eq!(q, "");
}

#[test]
fn rows_keep_fetch_order() {
    let rows = vec![
        vec![cell("id", "int", Some(b"3"))],
        vec![cell("id", "int", Some(b"1"))],
        vec![cell("id", "int", Some(b"2"))],
    ];
    let q = generate_insert_query(&rows, &"t".to_string()).unwrap();
    assert_eq!(q, "INSERT INTO\nt (`id`)\nVALUES\n('3'), \n('1'), \n('2');");
    assert_eq!(q.matches("('").count(), 3);
}

#[test]
fn batch_script_joins_statements() {
    let cfg = config(None, None, None);
    let generator = BatchTablesQueryGenerator { config: &cfg };
    let script = generator.insert_script(&vec![widgets()]).unwrap();
    assert_eq!(
        script,
        Some("INSERT INTO\nwidgets (`id`, `name`)\nVALUES\n('1', 'a'), \n('2', NULL);".to_string())
    );
    let none = generator.generate(&vec![vec![]]).unwrap();
    assert_eq!(none, None);
    let wrong = generator.insert_script(&vec![]);
    assert!(matches!(wrong, Err(CustomError::DbTableStructure)));
}

#[test]
fn script_assembly_skips_empty_statements() {
    let stmts = vec!["A;".to_string(), "".to_string(), "B;".to_string()];
    assert_eq!(assemble_script(&stmts), Some("A;\n\nB;".to_string()));
    assert_eq!(assemble_script(&vec!["".to_string()]), None);
    assert_eq!(assemble_script(&vec![]), None);
}

#[test]
fn batch_select_queries_are_terminated() {
    let cfg = config(None, None, None);
    let mut cat = Catalog::new();
    cat.add_table(TableSchema { name: "widgets".to_string(), columns: vec![], references: vec![] });
    let generator = BatchTablesQueryGenerator { config: &cfg };
    assert_eq!(generator.select_queries(&cat).unwrap(), vec!["SELECT * FROM widgets;".to_string()]);
    let generator = DoubleStagedTablesQueryGenerator { config: &cfg };
    assert!(matches!(generator.select_queries(&cat), Err(CustomError::DbTableStructure)));
    assert_eq!(generator.table_names(), vec!["events_3_2".to_string()]);
}

#[test]
fn partitioned_script_uses_physical_names() {
    let cfg = config(None, None, None);
    let generator = DoubleStagedTablesQueryGenerator { config: &cfg };
    let rows = vec![vec![vec![cell("id", "int", Some(b"5"))]]];
    let script = generator.insert_script(&rows).unwrap();
    assert_eq!(script, Some("INSERT INTO\nevents_3_2 (`id`)\nVALUES\n('5');".to_string()));
}

#[test]
fn mysql_generator_fills_its_categories() {
    let cfg = config(None, None, None);
    let generator = InsertQueryGenerator { config: &cfg };
    let q = generator.generate(&vec![widgets()], &vec![vec![]]).unwrap();
    assert!(q.batch_tables.is_some());
    assert_eq!(q.double_staged_tables, None);
    assert_eq!(q.triple_staged_tables, None);
    assert_eq!(q.redshift_tables, None);
}

#[test]
fn load_statements_bracket_the_scripts() {
    let cfg = config(None, None, None);
    let saver = DataSaver { config: &cfg };
    let data = InsertQueries {
        batch_tables: Some("B;".to_string()),
        double_staged_tables: None,
        triple_staged_tables: Some("T;".to_string()),
        redshift_tables: Some("R;".to_string()),
    };
    assert_eq!(
        saver.get_db_statements(&data),
        vec![
            "SET FOREIGN_KEY_CHECKS = 0".to_string(),
            "B;".to_string(),
            "T;".to_string(),
            "SET FOREIGN_KEY_CHECKS = 1".to_string()
        ]
    );
    let files = saver.get_output_files(&data);
    let listed: Vec<(String, String)> = files.into_iter().map(|f| (f.path, f.content)).collect();
    assert_eq!(
        listed,
        vec![
            ("out/batch_tables.sql".to_string(), "B;".to_string()),
            ("out/triple_staged_tables.sql".to_string(), "T;".to_string()),
            ("out/redshift_tables.sql".to_string(), "R;".to_string()),
        ]
    );
    let empty = InsertQueries {
        batch_tables: None,
        double_staged_tables: None,
        triple_staged_tables: None,
        redshift_tables: None,
    };
    assert!(output_files(&empty, &"x".to_string()).is_empty());
}

#[test]
fn connection_urls() {
    assert_eq!(get_url(&db()), "mysql://user:pw@db.local:3306/src");
    assert_eq!(redshift::get_url(&db()), "redshift://user:pw@db.local:3306/src");
}

#[test]
fn redshift_records_trail_and_audit() {
    let cfg = config(Some(7), Some(9), Some(100));
    let provider = RedshiftTableQueryProvider { config: &cfg };
    assert_eq!(
        provider.get_select_query(&"records_trail".to_string(), None).unwrap(),
        "SELECT * FROM records_trail_3 WHERE study_id=1 AND (parent_area_id=2 OR child_area_id=2) AND subject_id=7 AND job_id=9 LIMIT 100"
    );
    assert_eq!(
        provider.get_select_query(&"audit".to_string(), None).unwrap(),
        "SELECT * FROM audit WHERE study_id=1 AND lifecycle_id=3 AND area_id=2 AND subject_id=7 AND job_id=9 LIMIT 100"
    );
    assert_eq!(provider.get_select_query(&"users".to_string(), None).unwrap(), "SELECT * FROM users");
    let cfg = config(None, None, None);
    let generator = RedshiftTablesQueryGenerator { config: &cfg };
    assert_eq!(
        generator.select_queries(),
        vec![
            "SELECT * FROM records_trail_3 WHERE study_id=1 AND (parent_area_id=2 OR child_area_id=2);".to_string(),
            "SELECT * FROM audit WHERE study_id=1 AND lifecycle_id=3 AND area_id=2;".to_string(),
        ]
    );
}

#[test]
fn type_codes_pick_value_kinds() {
    assert_eq!(pg_value_kind(16), PgKind::Bool);
    assert_eq!(pg_value_kind(20), PgKind::Int8);
    assert_eq!(pg_value_kind(21), PgKind::Int2);
    assert_eq!(pg_value_kind(23), PgKind::Int4);
    assert_eq!(pg_value_kind(700), PgKind::Float4);
    assert_eq!(pg_value_kind(701), PgKind::Float8);
    assert_eq!(pg_value_kind(1114), PgKind::Timestamp);
    assert_eq!(pg_value_kind(1184), PgKind::TimestampTz);
    assert_eq!(pg_value_kind(25), PgKind::Other);
}

#[test]
fn type_code_values_as_text() {
    assert_eq!(pg_value_to_string(&PgValue::Null), "NULL");
    assert_eq!(pg_value_to_string(&PgValue::Bool(true)), "true");
    assert_eq!(pg_value_to_string(&PgValue::Bool(false)), "false");
    assert_eq!(pg_value_to_string(&PgValue::Int(-42)), "-42");
    assert_eq!(pg_value_to_string(&PgValue::Int(i64::MIN)), "-9223372036854775808");
    assert_eq!(pg_value_to_string(&PgValue::Text("abc".to_string())), "abc");
    let t = Timestamp { year: 2024, month: 3, day: 7, hour: 5, minute: 4, second: 9 };
    assert_eq!(pg_value_to_string(&PgValue::Timestamp(t)), "2024-03-07 05:04:09");
    let t = Timestamp { year: 987, month: 12, day: 31, hour: 23, minute: 59, second: 60 };
    assert_eq!(pg_value_to_string(&PgValue::Timestamp(t)), "0987-12-31 23:59:60");
    let t = Timestamp { year: -5, month: 1, day: 1, hour: 0, minute: 0, second: 0 };
    assert_eq!(pg_value_to_string(&PgValue::Timestamp(t)), "-0005-01-01 00:00:00");
    let t = Timestamp { year: 12345, month: 1, day: 1, hour: 0, minute: 0, second: 0 };
    assert_eq!(pg_value_to_string(&PgValue::Timestamp(t)), "+12345-01-01 00:00:00");
}

#[test]
fn redshift_insert_keeps_names_unquoted() {
    let cfg = config(None, None, None);
    let provider = RedshiftTableQueryProvider { config: &cfg };
    let rows = vec![
        vec![
            NamedValue { name: "id".to_string(), text: "1".to_string() },
            NamedValue { name: "ok".to_string(), text: "true".to_string() },
        ],
        vec![
            NamedValue { name: "id".to_string(), text: "2".to_string() },
            NamedValue { name: "ok".to_string(), text: "NULL".to_string() },
        ],
    ];
    assert_eq!(
        provider.generate_insert_query(&rows, &"audit".to_string()).unwrap(),
        "INSERT INTO\naudit (id, ok)\nVALUES\n(1, true), \n(2, NULL);"
    );
    assert_eq!(provider.generate_insert_query(&vec![], &"audit".to_string()).unwrap(), "");
    let generator = redshift::InsertQueryGenerator { config: &cfg };
    let q = generator.generate(&vec![rows, vec![]]).unwrap();
    assert_eq!(
        q.redshift_tables,
        Some("INSERT INTO\nrecords_trail (id, ok)\nVALUES\n(1, true), \n(2, NULL);".to_string())
    );
    assert_eq!(q.batch_tables, None);
}

#[test]
fn redshift_cannot_load_a_target_database() {
    let cfg = config(None, None, None);
    let saver = redshift::DataSaver { config: &cfg };
    let data = InsertQueries {
        batch_tables: None,
        double_staged_tables: None,
        triple_staged_tables: None,
        redshift_tables: Some("R;".to_string()),
    };
    assert!(matches!(saver.save_to_db(&data, &db()), Err(CustomError::NotImplemented)));
    assert_eq!(saver.get_output_files(&data).len(), 1);
}

#[test]
fn untyped_values_are_never_hex() {
    let cfg = config(None, None, None);
    let generator = SimpleTablesQueryGenerator { config: &cfg };
    assert_eq!(generator.parse_mysql_value_to_string(&SqlValue::Null), Some("NULL".to_string()));
    assert_eq!(
        generator.parse_mysql_value_to_string(&SqlValue::Bytes(b"a'b".to_vec())),
        Some("'a\\'b'".to_string())
    );
    assert_eq!(generator.parse_mysql_value_to_string(&SqlValue::Bytes(vec![0xc3])), None);
}

#[test]
fn rows_with_columns_in_another_order_are_refused() {
    let rows = vec![
        vec![cell("id", "int", Some(b"1")), cell("name", "varchar(10)", Some(b"a"))],
        vec![cell("name", "varchar(10)", Some(b"b")), cell("id", "int", Some(b"2"))],
    ];
    let cfg = config(None, None, None);
    let generator = BatchTablesQueryGenerator { config: &cfg };
    assert!(matches!(generator.generate(&vec![rows]), Err(CustomError::DbTableStructure)));
    let generator = DoubleStagedTablesQueryGenerator { config: &cfg };
    assert_eq!(
        generator.generate(&vec![vec![vec![cell("id", "int", Some(b"5"))]]]).unwrap(),
        Some("INSERT INTO\nevents_3_2 (`id`)\nVALUES\n('5');".to_string())
    );
}

#[test]
fn redshift_rows_with_columns_in_another_order_are_refused() {
    let cfg = config(None, None, None);
    let generator = RedshiftTablesQueryGenerator { config: &cfg };
    let rows = vec![
        vec![
            NamedValue { name: "id".to_string(), text: "1".to_string() },
            NamedValue { name: "ok".to_string(), text: "true".to_string() },
        ],
        vec![
            NamedValue { name: "ok".to_string(), text: "false".to_string() },
            NamedValue { name: "id".to_string(), text: "2".to_string() },
        ],
    ];
    assert_eq!(generator.generate(&vec![rows, vec![]]), None);
}
