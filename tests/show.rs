use meta_srv::show::{
    create_column_def, create_sql_options_with, create_table_stmt, create_table_stmt_with,
    decimal_string, signed_decimal_string, ColumnDefaultConstraint, ColumnSchema,
    ConcreteDataType, SqlValue, TableInfo, TableMeta, TableOptions, TimeUnit,
};

fn column(name: &str, data_type: ConcreteDataType, is_nullable: bool) -> ColumnSchema {
    ColumnSchema {
        name: name.to_string(),
        data_type,
        is_nullable,
        default_constraint: None,
        comment: None,
        is_time_index: false,
    }
}

fn no_options() -> TableOptions {
    TableOptions { ttl: None, compaction_time_window: None, extra_options: vec![] }
}

fn system_metrics(options: TableOptions, regions: Vec<u32>) -> TableInfo {
    let mut ts = column("ts", ConcreteDataType::Timestamp(TimeUnit::Millisecond), false);
    ts.default_constraint =
        Some(ColumnDefaultConstraint::Function(String::from("current_timestamp()")));
    ts.is_time_index = true;
    let schema = vec![
        column("id", ConcreteDataType::UInt32, true),
        column("host", ConcreteDataType::String, true),
        column("cpu", ConcreteDataType::Float64, true),
        column("disk", ConcreteDataType::Float32, true),
        ts,
    ];
    TableInfo {
        table_id: 1024,
        name: "system_metrics".to_string(),
        catalog_name: "greptime".to_string(),
        schema_name: "public".to_string(),
        meta: TableMeta {
            schema,
            primary_key_indices: vec![0, 1],
            engine: "mito".to_string(),
            region_numbers: regions,
            options,
        },
    }
}

#[test]
fn test_show_create_table_sql() {
    let info = system_metrics(no_options(), vec![0, 1, 2]);
    let stmt = create_table_stmt(&info);

    let sql = format!("\n{}", stmt.to_sql());
    assert_eq!(
        r#"
CREATE TABLE IF NOT EXISTS system_metrics (
  id INT UNSIGNED NULL,
  host STRING NULL,
  cpu DOUBLE NULL,
  disk FLOAT NULL,
  ts TIMESTAMP(3) NOT NULL DEFAULT current_timestamp(),
  TIME INDEX (ts),
  PRIMARY KEY (id, host)
)
ENGINE=mito
WITH(
  regions = 3
)"#,
        sql
    );
}

#[test]
fn statement_carries_table_identity() {
    let info = system_metrics(no_options(), vec![]);
    let stmt = create_table_stmt(&info);
    assert!(stmt.if_not_exists);
    assert_eq!(stmt.table_id, 1024);
    assert_eq!(stmt.name, "system_metrics");
    assert_eq!(stmt.engine, "mito");
    assert_eq!(stmt.columns.len(), 5);
    assert_eq!(stmt.constraints.len(), 2);
    // no regions and no options: no WITH block
    assert!(stmt.options.is_empty());
    assert!(stmt.to_sql().ends_with(")\nENGINE=mito"));
}

#[test]
fn ttl_is_written_by_humantime() {
    let opts = TableOptions { ttl: Some(90_061), compaction_time_window: None, extra_options: vec![] };
    let stmt = create_table_stmt(&system_metrics(opts, vec![0]));
    assert!(stmt.to_sql().ends_with("WITH(\n  regions = 1,\n  ttl = '1day 1h 1m 1s'\n)"));
    let zero = TableOptions { ttl: Some(0), compaction_time_window: None, extra_options: vec![] };
    let stmt = create_table_stmt(&system_metrics(zero, vec![]));
    assert!(stmt.to_sql().ends_with("WITH(\n  ttl = '0s'\n)"));
}

#[test]
fn options_follow_their_order() {
    let opts = TableOptions {
        ttl: Some(7),
        compaction_time_window: Some(-60),
        extra_options: vec![("b".to_string(), "2".to_string()), ("a".to_string(), "x y".to_string())],
    };
    let meta = system_metrics(opts, vec![1, 2]).meta;
    let options = create_sql_options_with(&meta, Some("7 seconds".to_string()));
    let names: Vec<&str> = options.iter().map(|o| o.name.as_str()).collect();
    assert_eq!(names, vec!["regions", "ttl", "compaction_time_window", "b", "a"]);
    let info = system_metrics(
        TableOptions {
            ttl: Some(7),
            compaction_time_window: Some(-60),
            extra_options: vec![("b".to_string(), "2".to_string())],
        },
        vec![1, 2],
    );
    let sql = create_table_stmt_with(&info, Some("seven".to_string())).to_sql();
    assert!(sql.ends_with(
        "WITH(\n  regions = 2,\n  ttl = 'seven',\n  compaction_time_window = -60,\n  b = '2'\n)"
    ));
}

#[test]
fn column_definition_lists_default_and_comment() {
    let mut c = column("v", ConcreteDataType::Int64, false);
    c.default_constraint =
        Some(ColumnDefaultConstraint::Value(SqlValue::SingleQuotedString("n/a".to_string())));
    c.comment = Some("value".to_string());
    let def = create_column_def(&c);
    assert_eq!(def.options.len(), 3);
    assert!(def.options.iter().all(|o| o.name.is_none()));
    let info = TableInfo {
        table_id: 1,
        name: "t".to_string(),
        catalog_name: "c".to_string(),
        schema_name: "s".to_string(),
        meta: TableMeta {
            schema: vec![c, column("w", ConcreteDataType::Boolean, true)],
            primary_key_indices: vec![],
            engine: "file".to_string(),
            region_numbers: vec![],
            options: no_options(),
        },
    };
    assert_eq!(
        create_table_stmt(&info).to_sql(),
        "CREATE TABLE IF NOT EXISTS t (\n  v BIGINT NOT NULL DEFAULT 'n/a' COMMENT 'value',\n  w BOOLEAN NULL\n)\nENGINE=file"
    );
}

#[test]
fn decimals_have_no_leading_zeros() {
    assert_eq!(decimal_string(0), "0");
    assert_eq!(decimal_string(1024), "1024");
    assert_eq!(decimal_string(u64::MAX), u64::MAX.to_string());
    assert_eq!(signed_decimal_string(-7), "-7");
    assert_eq!(signed_decimal_string(i64::MIN), i64::MIN.to_string());
    assert_eq!(signed_decimal_string(0), "0");
}
