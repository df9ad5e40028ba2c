//! Compact formatter. Replays DDL statements into a table model.

pub mod util;
pub mod models;
pub mod keys;
pub mod column;
pub mod table_options;
pub mod table;
pub mod database;

use vstd::prelude::*;

use crate::json::{str_eq, string_of, view_arr, Json, JsonV};

use database::{arr_at, arr_of, spec_replay, tv, Database};
use table::{spec_table_json, TableV};

verus! {

/// The message for a tree whose root is not `MAIN`.
pub open spec fn format_error() -> Seq<char> {
    "Invalid JSON format provided for CompactFormatter. Please provide JSON from root element, containing { id: MAIN }."@
}

/// The compact tables that the statements of a `MAIN` tree build.
pub open spec fn spec_compact(json: JsonV) -> Seq<JsonV> {
    spec_replay(Seq::empty(), arr_at(json, "def"@)).map_values(|t: TableV| spec_table_json(t))
}

/// Formats a `MAIN` parse tree into an array of compact table objects: the
/// statements are replayed in order into an empty database. A tree whose
/// root is not `{ id: "MAIN", ... }` is refused.
pub fn format(json: &Json) -> (r: Result<Vec<Json>, String>)
    ensures
        r is Ok <==> json@.get_str("id"@) == Some("MAIN"@),
        r matches Err(m) ==> m@ == format_error(),
        r matches Ok(v) ==> view_arr(v@) == spec_compact(json@),
{
    let is_main = match json.get_str("id") {
        Some(id) => str_eq(id.as_str(), "MAIN"),
        None => false,
    };
    if !is_main {
        return Err(string_of(
            "Invalid JSON format provided for CompactFormatter. Please provide JSON from root element, containing { id: MAIN }.",
        ));
    }
    let empty: Vec<Json> = Vec::new();
    let dds = arr_of(json, "def", &empty);
    let mut database = Database::new();
    database.parse_dds_collection(dds);
    let ghost tables = database@;
    let mut out: Vec<Json> = Vec::new();
    let mut i: usize = 0;
    while i < database.tables.len()
        invariant
            0 <= i <= database.tables.len(),
            tables == tv(database.tables@),
            view_arr(out@) == tables.take(i as int).map_values(|t: TableV| spec_table_json(t)),
        decreases database.tables.len() - i,
    {
        let j = database.tables[i].to_json();
        proof {
            crate::json::lemma_view_arr_push(out@, j);
            assert(tables.take(i + 1) =~= tables.take(i as int).push(tables[i as int]));
            assert(tables.take(i + 1).map_values(|t: TableV| spec_table_json(t)) =~= tables.take(i as int).map_values(
                |t: TableV| spec_table_json(t),
            ).push(j@));
        }
        out.push(j);
        i += 1;
    }
    assert(tables.take(tables.len() as int) =~= tables);
    Ok(out)
}

} // verus!
pub mod laws;
