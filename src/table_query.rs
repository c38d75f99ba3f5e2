//! The SQL statements issued against the destination database, one variant
//! per statement kind, each rendered to a single statement string.

use indexmap::IndexMap;
use vstd::prelude::*;

verus! {

#[verifier::external_type_specification]
#[verifier::external_body]
#[verifier::reject_recursive_types(K)]
#[verifier::reject_recursive_types(V)]
#[verifier::reject_recursive_types(S)]
pub struct ExIndexMap<K, V, S>(IndexMap<K, V, S>);

/// The (column, type) entries of a column mapping, in insertion order.
pub uninterp spec fn column_entries(m: IndexMap<String, String>) -> Seq<(Seq<char>, Seq<char>)>;

/// Relies on `indexmap::IndexMap::iter`: it visits the entries in their
/// insertion order.
#[verifier::external_body]
fn entries_in_order(m: &IndexMap<String, String>) -> (r: Vec<(String, String)>)
    ensures
        r@.len() == column_entries(*m).len(),
        forall|i: int|
            0 <= i < r@.len() ==> (#[trigger] r@[i]).0@ == column_entries(*m)[i].0 && r@[i].1@
                == column_entries(*m)[i].1,
{
    m.iter().map(|(k, v)| (k.clone(), v.clone())).collect()
}

pub const FIND_COLUMNS_HEAD: &'static str = "SELECT column_name , data_type\n                    FROM information_schema.columns \n                    WHERE table_schema = '";

pub const FIND_COLUMNS_MID: &'static str = "' \n                    AND table_name = '";

pub const QUOTE: &'static str = "'";

pub const FIND_TABLES_HEAD: &'static str = "SELECT table_name\n                    FROM information_schema.tables\n                    WHERE table_schema = '";

pub const FIND_TABLES_MID: &'static str = "' ";

pub const STATEMENT_TAIL: &'static str = "\n                    ";

pub const DELETE_HEAD: &'static str = "\n                    DELETE FROM ";

pub const DOT: &'static str = ".";

pub const DELETE_WHERE: &'static str = "\n                    WHERE (";

pub const DELETE_EQ: &'static str = ")=(";

pub const DELETE_TAIL: &'static str = ")\n                    ";

pub const PRIMARY_KEY_HEAD: &'static str = "\n                    SELECT a.attname\n                    FROM   pg_index i\n                    JOIN   pg_attribute a ON a.attrelid = i.indrelid\n                    AND a.attnum = ANY(i.indkey)\n                    WHERE  i.indrelid = '";

pub const PRIMARY_KEY_TAIL: &'static str = "'::regclass\n                    AND    i.indisprimary";

pub const CREATE_SCHEMA_HEAD: &'static str = "\n                    CREATE SCHEMA IF NOT EXISTS ";

pub const DROP_SCHEMA_HEAD: &'static str = "\n                    DROP SCHEMA IF EXISTS ";

pub const DROP_SCHEMA_TAIL: &'static str = " CASCADE\n                    ";

pub const DROP_DMS_HEAD: &'static str = "\n                    ALTER TABLE ";

pub const DROP_DMS_TAIL: &'static str = "\n                    DROP COLUMN IF EXISTS Op,\n                    DROP COLUMN IF EXISTS _dms_ingestion_timestamp\n                    ";

pub const CREATE_TABLE_HEAD: &'static str = "CREATE TABLE IF NOT EXISTS ";

pub const OPEN_PAREN: &'static str = " (";

pub const SPACE: &'static str = " ";

pub const COMMA: &'static str = ",";

pub const PRIMARY_KEY_CLAUSE: &'static str = "PRIMARY KEY (";

pub const CLOSE_PAREN: &'static str = ")";

/// A statement against the destination database.
///
/// `FindPrimaryKey` holds the table first and the schema second;
/// `DeleteRows` holds the key columns and the key values each as one
/// comma-joined string.
pub enum TableQuery {
    FindAllColumns(String, String),
    FindTablesForSchema(String, String),
    DeleteRows(String, String, String, String),
    FindPrimaryKey(String, String),
    CreateSchema(String),
    CreateTable(String, String, IndexMap<String, String>, String),
    DropSchema(String),
    DropDmsColumns(String, String),
}

/// One column definition of a `CREATE TABLE` statement: `<column> <type>`.
pub open spec fn column_definition(entry: (Seq<char>, Seq<char>)) -> Seq<char> {
    entry.0 + SPACE@ + entry.1
}

/// The column definitions, separated by commas, in the given order.
pub open spec fn column_definitions(entries: Seq<(Seq<char>, Seq<char>)>) -> Seq<char>
    decreases entries.len(),
{
    if entries.len() == 0 {
        Seq::empty()
    } else if entries.len() == 1 {
        column_definition(entries[0])
    } else {
        column_definitions(entries.drop_last()) + COMMA@ + column_definition(entries.last())
    }
}

/// The primary key constraint, with the comma that separates it from the
/// column definitions; nothing at all for an empty key.
pub open spec fn primary_key_suffix(has_columns: bool, primary_key: Seq<char>) -> Seq<char> {
    if primary_key.len() == 0 {
        Seq::empty()
    } else if has_columns {
        COMMA@ + PRIMARY_KEY_CLAUSE@ + primary_key + CLOSE_PAREN@
    } else {
        PRIMARY_KEY_CLAUSE@ + primary_key + CLOSE_PAREN@
    }
}

/// `CREATE TABLE IF NOT EXISTS <schema>.<table> (<col> <type>,...[,PRIMARY KEY (<pk>)])`.
pub open spec fn create_table_text(
    schema: Seq<char>,
    table: Seq<char>,
    entries: Seq<(Seq<char>, Seq<char>)>,
    primary_key: Seq<char>,
) -> Seq<char> {
    CREATE_TABLE_HEAD@ + schema + DOT@ + table + OPEN_PAREN@ + column_definitions(entries)
        + primary_key_suffix(entries.len() > 0, primary_key) + CLOSE_PAREN@
}

impl TableQuery {
    /// The statement text of this query.
    pub open spec fn text(&self) -> Seq<char> {
        match self {
            TableQuery::FindAllColumns(schema, table) => FIND_COLUMNS_HEAD@ + schema@
                + FIND_COLUMNS_MID@ + table@ + QUOTE@,
            TableQuery::FindTablesForSchema(schema, predicate) => FIND_TABLES_HEAD@ + schema@
                + FIND_TABLES_MID@ + predicate@ + STATEMENT_TAIL@,
            TableQuery::DeleteRows(schema, table, key_columns, key_values) => DELETE_HEAD@
                + schema@ + DOT@ + table@ + DELETE_WHERE@ + key_columns@ + DELETE_EQ@
                + key_values@ + DELETE_TAIL@,
            TableQuery::FindPrimaryKey(table, schema) => PRIMARY_KEY_HEAD@ + schema@ + DOT@
                + table@ + PRIMARY_KEY_TAIL@,
            TableQuery::CreateSchema(schema) => CREATE_SCHEMA_HEAD@ + schema@ + STATEMENT_TAIL@,
            TableQuery::CreateTable(schema, table, columns, primary_key) => create_table_text(
                schema@,
                table@,
                column_entries(*columns),
                primary_key@,
            ),
            TableQuery::DropSchema(schema) => DROP_SCHEMA_HEAD@ + schema@ + DROP_SCHEMA_TAIL@,
            TableQuery::DropDmsColumns(schema, table) => DROP_DMS_HEAD@ + schema@ + DOT@ + table@
                + DROP_DMS_TAIL@,
        }
    }

    /// Renders the statement.
    pub fn to_string(&self) -> (r: String)
        ensures
            r@ == self.text(),
    {
        match self {
            TableQuery::FindAllColumns(schema, table) => {
                let mut q = String::from_str(FIND_COLUMNS_HEAD);
                q.append(schema.as_str());
                q.append(FIND_COLUMNS_MID);
                q.append(table.as_str());
                q.append(QUOTE);
                q
            },
            TableQuery::FindTablesForSchema(schema, predicate) => {
                let mut q = String::from_str(FIND_TABLES_HEAD);
                q.append(schema.as_str());
                q.append(FIND_TABLES_MID);
                q.append(predicate.as_str());
                q.append(STATEMENT_TAIL);
                q
            },
            TableQuery::DeleteRows(schema, table, key_columns, key_values) => {
                let mut q = String::from_str(DELETE_HEAD);
                q.append(schema.as_str());
                q.append(DOT);
                q.append(table.as_str());
                q.append(DELETE_WHERE);
                q.append(key_columns.as_str());
                q.append(DELETE_EQ);
                q.append(key_values.as_str());
                q.append(DELETE_TAIL);
                q
            },
            TableQuery::FindPrimaryKey(table, schema) => {
                let mut q = String::from_str(PRIMARY_KEY_HEAD);
                q.append(schema.as_str());
                q.append(DOT);
                q.append(table.as_str());
                q.append(PRIMARY_KEY_TAIL);
                q
            },
            TableQuery::CreateSchema(schema) => {
                let mut q = String::from_str(CREATE_SCHEMA_HEAD);
                q.append(schema.as_str());
                q.append(STATEMENT_TAIL);
                q
            },
            TableQuery::CreateTable(schema, table, columns, primary_key) => {
                let entries = entries_in_order(columns);
                proof {
                    assert(entry_views(entries@) =~= column_entries(*columns));
                }
                render_create_table(schema, table, &entries, primary_key)
            },
            TableQuery::DropSchema(schema) => {
                let mut q = String::from_str(DROP_SCHEMA_HEAD);
                q.append(schema.as_str());
                q.append(DROP_SCHEMA_TAIL);
                q
            },
            TableQuery::DropDmsColumns(schema, table) => {
                let mut q = String::from_str(DROP_DMS_HEAD);
                q.append(schema.as_str());
                q.append(DOT);
                q.append(table.as_str());
                q.append(DROP_DMS_TAIL);
                q
            },
        }
    }
}

/// The views of a list of (column, type) pairs.
pub open spec fn entry_views(entries: Seq<(String, String)>) -> Seq<(Seq<char>, Seq<char>)> {
    entries.map_values(|e: (String, String)| (e.0@, e.1@))
}

/// Renders `CREATE TABLE IF NOT EXISTS` for columns given in order.
pub fn render_create_table(
    schema: &String,
    table: &String,
    columns: &Vec<(String, String)>,
    primary_key: &String,
) -> (r: String)
    ensures
        r@ == create_table_text(schema@, table@, entry_views(columns@), primary_key@),
{
    let mut q = String::from_str(CREATE_TABLE_HEAD);
    q.append(schema.as_str());
    q.append(DOT);
    q.append(table.as_str());
    q.append(OPEN_PAREN);
    let ghost head = q@;
    let mut i: usize = 0;
    while i < columns.len()
        invariant
            0 <= i <= columns@.len(),
            q@ == head + column_definitions(entry_views(columns@.subrange(0, i as int))),
        decreases columns@.len() - i,
    {
        if i > 0 {
            q.append(COMMA);
        }
        q.append(columns[i].0.as_str());
        q.append(SPACE);
        q.append(columns[i].1.as_str());
        proof {
            let prev = entry_views(columns@.subrange(0, i as int));
            let next = entry_views(columns@.subrange(0, i as int + 1));
            assert(next.drop_last() =~= prev);
            assert(next.last() == (columns@[i as int].0@, columns@[i as int].1@));
        }
        i = i + 1;
    }
    proof {
        assert(columns@.subrange(0, columns@.len() as int) =~= columns@);
    }
    if !primary_key.as_str().is_empty() {
        if columns.len() > 0 {
            q.append(COMMA);
        }
        q.append(PRIMARY_KEY_CLAUSE);
        q.append(primary_key.as_str());
        q.append(CLOSE_PAREN);
    }
    q.append(CLOSE_PAREN);
    q
}

} // verus!
