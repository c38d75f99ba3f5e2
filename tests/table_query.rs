use cdc_mirror::apply::{join_with_commas, primary_key_from_columns, SchemaError};
use cdc_mirror::table_query::{render_create_table, TableQuery};
use indexmap::IndexMap;

#[test]
fn test_display_find_all_columns() {
    let query = TableQuery::FindAllColumns("schema".to_string(), "table".to_string());
    assert_eq!(
        query.to_string(),
        "SELECT column_name , data_type
                    FROM information_schema.columns 
                    WHERE table_schema = 'schema' 
                    AND table_name = 'table'"
    );
}

#[test]
fn test_display_delete_rows() {
    let query = TableQuery::DeleteRows(
        "schema".to_string(),
        "table".to_string(),
        vec!["primary_key".to_string(), "primary_key2".to_string()]
            .as_slice()
            .join(","),
        vec!["1".to_string(), "2".to_string()].as_slice().join(","),
    );
    assert_eq!(
        query.to_string(),
        r#"
                    DELETE FROM schema.table
                    WHERE (primary_key,primary_key2)=(1,2)
                    "#
    );
}

#[test]
fn test_display_find_primary_key() {
    let query = TableQuery::FindPrimaryKey("table".to_string(), "schema".to_string());
    assert_eq!(
        query.to_string(),
        r#"
                    SELECT a.attname
                    FROM   pg_index i
                    JOIN   pg_attribute a ON a.attrelid = i.indrelid
                    AND a.attnum = ANY(i.indkey)
                    WHERE  i.indrelid = 'schema.table'::regclass
                    AND    i.indisprimary"#
    );
}

#[test]
fn test_display_create_schema() {
    let query = TableQuery::CreateSchema("schema".to_string());
    assert_eq!(
        query.to_string(),
        r#"
                    CREATE SCHEMA IF NOT EXISTS schema
                    "#
    );
}

#[test]
fn test_display_drop_schema() {
    let query = TableQuery::DropSchema("schema".to_string());
    assert_eq!(
        query.to_string(),
        r#"
                    DROP SCHEMA IF EXISTS schema CASCADE
                    "#
    );
}

#[test]
fn test_display_create_table() {
    let mut column_data_types = IndexMap::new();
    column_data_types.insert("column1".to_string(), "varchar".to_string());
    column_data_types.insert("column2".to_string(), "int".to_string());
    let primary_keys = vec!["primary_key".to_string(), "primary_key2".to_string()]
        .as_slice()
        .join(",");

    let query = TableQuery::CreateTable(
        "schema".to_string(),
        "table".to_string(),
        column_data_types,
        primary_keys,
    );
    assert_eq!(
        query.to_string(),
        "CREATE TABLE IF NOT EXISTS schema.table (column1 varchar,column2 int,PRIMARY KEY (primary_key,primary_key2))"
    );
}

fn two_columns() -> IndexMap<String, String> {
    let mut columns = IndexMap::new();
    columns.insert("col1".to_string(), "varchar".to_string());
    columns.insert("col2".to_string(), "int".to_string());
    columns
}

#[test]
fn create_table_with_composite_key() {
    let query = TableQuery::CreateTable(
        "s".to_string(),
        "t".to_string(),
        two_columns(),
        "pk1,pk2".to_string(),
    );
    assert_eq!(
        query.to_string(),
        "CREATE TABLE IF NOT EXISTS s.t (col1 varchar,col2 int,PRIMARY KEY (pk1,pk2))"
    );
}

#[test]
fn create_table_without_key_has_no_dangling_comma() {
    let query = TableQuery::CreateTable("s".to_string(), "t".to_string(), two_columns(), String::new());
    assert_eq!(query.to_string(), "CREATE TABLE IF NOT EXISTS s.t (col1 varchar,col2 int)");
}

#[test]
fn create_table_keeps_insertion_order() {
    let mut columns = IndexMap::new();
    columns.insert("zeta".to_string(), "int".to_string());
    columns.insert("alpha".to_string(), "text".to_string());
    columns.insert("mid".to_string(), "bool".to_string());
    let query = TableQuery::CreateTable("s".to_string(), "t".to_string(), columns, "zeta".to_string());
    assert_eq!(
        query.to_string(),
        "CREATE TABLE IF NOT EXISTS s.t (zeta int,alpha text,mid bool,PRIMARY KEY (zeta))"
    );
}

#[test]
fn create_table_statement_is_idempotent_form() {
    let query = TableQuery::CreateTable("s".to_string(), "t".to_string(), two_columns(), String::new());
    let first = query.to_string();
    assert!(first.starts_with("CREATE TABLE IF NOT EXISTS "));
    assert_eq!(first, query.to_string());
}

#[test]
fn render_create_table_from_pairs() {
    let columns = vec![("a".to_string(), "int".to_string())];
    assert_eq!(
        render_create_table(&"s".to_string(), &"t".to_string(), &columns, &"a".to_string()),
        "CREATE TABLE IF NOT EXISTS s.t (a int,PRIMARY KEY (a))"
    );
    assert_eq!(
        render_create_table(&"s".to_string(), &"t".to_string(), &Vec::new(), &"a".to_string()),
        "CREATE TABLE IF NOT EXISTS s.t (PRIMARY KEY (a))"
    );
}

#[test]
fn display_find_tables_for_schema() {
    let query = TableQuery::FindTablesForSchema(
        "schema".to_string(),
        "AND table_name LIKE 'x%'".to_string(),
    );
    assert_eq!(
        query.to_string(),
        r#"SELECT table_name
                    FROM information_schema.tables
                    WHERE table_schema = 'schema' AND table_name LIKE 'x%'
                    "#
    );
}

#[test]
fn display_drop_dms_columns() {
    let query = TableQuery::DropDmsColumns("schema".to_string(), "table".to_string());
    let text = query.to_string();
    assert_eq!(
        text,
        r#"
                    ALTER TABLE schema.table
                    DROP COLUMN IF EXISTS Op,
                    DROP COLUMN IF EXISTS _dms_ingestion_timestamp
                    "#
    );
    assert_eq!(text.matches("DROP COLUMN IF EXISTS").count(), 2);
}

#[test]
fn join_with_commas_builds_key_tuple() {
    let parts = vec!["a".to_string(), "b".to_string(), "c".to_string()];
    assert_eq!(join_with_commas(&parts), "a,b,c");
    assert_eq!(join_with_commas(&vec!["only".to_string()]), "only");
    assert_eq!(join_with_commas(&Vec::new()), "");
}

#[test]
fn primary_key_requires_a_key_column() {
    assert_eq!(primary_key_from_columns(&Vec::new()), Err(SchemaError::NoPrimaryKey));
    let names = vec!["id".to_string(), "region".to_string()];
    assert_eq!(primary_key_from_columns(&names), Ok("id,region".to_string()));
}
