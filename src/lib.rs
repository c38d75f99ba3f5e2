//! Change-data-capture mirroring: ordered discovery of exported snapshot and
//! change files, and the SQL statements that apply them to a relational table.

pub mod apply;
pub mod discovery;
pub mod plan;
pub mod table_query;
