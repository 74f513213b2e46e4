use meta_srv::catalog::{
    format_full_table_name, DeregisterTableRequest, RegisterSchemaRequest, RegisterTableRequest,
    RenameTableRequest,
};
use meta_srv::file_format::{Format, FormatError};
use meta_srv::http::{health, HealthQuery, HealthResponse, PromqlQuery, RequestError, SqlQuery};
use meta_srv::{manifest_path, ImmutableMetadata, INIT_META_VERSION};

#[test]
fn manifest_path_appends_file_name() {
    assert_eq!(manifest_path("data/demo/"), "data/demo/_immutable_manifest");
    assert_eq!(manifest_path(""), "_immutable_manifest");
    let m = ImmutableMetadata { table_name: "demo".to_string(), table_id: 1, version: INIT_META_VERSION };
    assert_eq!(m.clone(), m);
}

#[test]
fn format_names_ignore_ascii_case() {
    assert_eq!(Format::from_name(None), Ok(Format::Parquet));
    assert_eq!(Format::from_name(Some("csv")), Ok(Format::Csv));
    assert_eq!(Format::from_name(Some("Json")), Ok(Format::Json));
    assert_eq!(Format::from_name(Some("PARQUET")), Ok(Format::Parquet));
    assert_eq!(Format::from_name(Some("orc")), Err(FormatError::UnsupportedFormat));
    assert_eq!(Format::from_name(Some("csvx")), Err(FormatError::UnsupportedFormat));
    assert_eq!(Format::from_name(Some("")), Err(FormatError::UnsupportedFormat));
}

#[test]
fn full_table_names_are_dotted() {
    assert_eq!(format_full_table_name("greptime", "public", "demo"), "greptime.public.demo");
    let r = RegisterTableRequest {
        catalog: "c".to_string(),
        schema: "s".to_string(),
        table_name: "t".to_string(),
        table_id: 1024,
    };
    assert_eq!(r.full_table_name(), "c.s.t");
    let d = DeregisterTableRequest { catalog: "c".to_string(), schema: "s".to_string(), table_name: "u".to_string() };
    assert_eq!(d.full_table_name(), "c.s.u");
    let n = RenameTableRequest {
        catalog: "c".to_string(),
        schema: "s".to_string(),
        table_name: "t".to_string(),
        new_table_name: "t2".to_string(),
        table_id: 1,
    };
    assert_eq!(n.new_full_table_name(), "c.s.t2");
    let s = RegisterSchemaRequest { catalog: "c".to_string(), schema: "s".to_string() };
    assert_eq!(s.schema, "s");
}

#[test]
fn sql_parameters_prefer_the_query_string() {
    let q = SqlQuery { db: None, sql: Some("select 1".to_string()) };
    let f = SqlQuery { db: Some("public".to_string()), sql: Some("select 2".to_string()) };
    let m = q.merged(f);
    assert_eq!(m.sql.as_deref(), Some("select 1"));
    assert_eq!(m.db.as_deref(), Some("public"));
    assert_eq!(m.into_request(), Ok(("select 1".to_string(), Some("public".to_string()))));
    assert_eq!(SqlQuery::default().merged(SqlQuery::default()).into_request(), Err(RequestError::SqlRequired));
}

#[test]
fn health_answers_empty() {
    assert_eq!(health(HealthQuery {}), HealthResponse {});
    let p = PromqlQuery::default();
    assert!(p.db.is_none());
}
