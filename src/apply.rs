//! Decisions of the apply layer that need no database: how a file is
//! applied, and the comma-joined form of a primary key.

use crate::discovery::{is_snapshot, is_snapshot_key};
use vstd::prelude::*;

verus! {

/// How the rows of a file reach the destination table.
#[derive(Clone, Copy, PartialEq, Eq, Structural, Debug)]
pub enum ApplyMode {
    /// Every row is appended; a duplicate primary key is an error.
    Insert,
    /// A row replaces the one with its primary key, or is appended.
    Upsert,
}

/// Snapshot files are inserted, change files are upserted.
pub fn apply_mode(key: &str) -> (r: ApplyMode)
    ensures
        r == (if is_snapshot(key@) {
            ApplyMode::Insert
        } else {
            ApplyMode::Upsert
        }),
{
    if is_snapshot_key(key) {
        ApplyMode::Insert
    } else {
        ApplyMode::Upsert
    }
}

/// The parts, separated by commas.
pub open spec fn comma_joined(parts: Seq<Seq<char>>) -> Seq<char>
    decreases parts.len(),
{
    if parts.len() == 0 {
        Seq::empty()
    } else if parts.len() == 1 {
        parts[0]
    } else {
        comma_joined(parts.drop_last()) + seq![','] + parts.last()
    }
}

/// The views of a list of strings.
pub open spec fn string_views(parts: Seq<String>) -> Seq<Seq<char>> {
    parts.map_values(|p: String| p@)
}

/// Joins the parts with commas, as a key tuple is written in SQL.
pub fn join_with_commas(parts: &Vec<String>) -> (r: String)
    ensures
        r@ == comma_joined(string_views(parts@)),
{
    proof {
        reveal_strlit(",");
        assert(","@ =~= seq![',']);
    }
    let mut out = String::new();
    let mut i: usize = 0;
    while i < parts.len()
        invariant
            0 <= i <= parts@.len(),
            ","@ == seq![','],
            out@ == comma_joined(string_views(parts@.subrange(0, i as int))),
        decreases parts@.len() - i,
    {
        if i > 0 {
            out.append(",");
        }
        out.append(parts[i].as_str());
        proof {
            let prev = string_views(parts@.subrange(0, i as int));
            let next = string_views(parts@.subrange(0, i as int + 1));
            assert(next.drop_last() =~= prev);
            assert(next.last() == parts@[i as int]@);
            if i == 0 {
                assert(prev.len() == 0);
                assert(out@ =~= next[0]);
            } else {
                assert(comma_joined(next) == comma_joined(prev) + seq![','] + next.last());
            }
            assert(out@ =~= comma_joined(next));
        }
        i = i + 1;
    }
    assert(parts@.subrange(0, parts@.len() as int) =~= parts@);
    out
}

/// Why a table cannot be synchronised.
#[derive(Clone, Copy, PartialEq, Eq, Structural, Debug)]
pub enum SchemaError {
    /// The table has no primary key index.
    NoPrimaryKey,
}

/// The primary key of a table from the key column names that the catalog
/// reports: their comma-joined form, or an error when there are none.
pub fn primary_key_from_columns(names: &Vec<String>) -> (r: Result<String, SchemaError>)
    ensures
        names@.len() == 0 <==> r == Err::<String, SchemaError>(SchemaError::NoPrimaryKey),
        r matches Ok(k) ==> k@ == comma_joined(string_views(names@)),
{
    if names.len() == 0 {
        Err(SchemaError::NoPrimaryKey)
    } else {
        Ok(join_with_commas(names))
    }
}

} // verus!
