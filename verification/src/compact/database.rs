//! The database that DDL statements are replayed into.

use vstd::prelude::*;

use crate::json::{at, contains_text, fields_remove, lemma_view_arr, spec_to_lowercase, str_contains, str_eq, str_items, string_of, strings_of, to_lowercase, view_arr, view_json, Json, JsonV};

use super::column::{col_flag, spec_column_parts, Column, ColumnObject, ColumnV};
use super::keys::{col_index, refs_column, refs_table, spec_foreign_key_from, spec_key_index_def, spec_key_index_from, spec_primary_key_from, ForeignKey, ForeignKeyV, KeyIndex, PrimaryKey};
use super::models::{flag, spec_column_options, spec_datatype_from, str_or_empty, ColumnOptions, Datatype, Fields};
use super::table::{cloned_column, move_ok, place_of, rename_ref, retarget, spec_add_column, spec_column_place, spec_drop_column_in, spec_drop_foreign_key, spec_drop_index, spec_drop_primary_key, spec_extract_keys, spec_index_kind, spec_moved, spec_push_foreign, spec_push_fulltext, spec_push_index, spec_push_spatial, spec_push_unique, spec_rename_in_table, spec_rename_index, spec_set_default, spec_set_primary_key, spec_table_from_common, Place, Position, Table, TableV};
use super::table_options::{merge_upto, spec_table_options, TableOptions};
use super::util::is_defined;
use super::util::{first_index, lemma_first_index, lemma_first_index_at, lemma_first_index_none};

verus! {

/// The views of a list of tables.
pub open spec fn tv(s: Seq<Table>) -> Seq<TableV> {
    s.map_values(|t: Table| t@)
}

/// Whether a table is called `name`.
pub open spec fn tname(name: Seq<char>) -> spec_fn(TableV) -> bool {
    |t: TableV| t.name == name
}

/// The index of the first table called `name`.
pub open spec fn tindex(db: Seq<TableV>, name: Seq<char>) -> Option<int> {
    first_index(db, tname(name))
}

/// The tables with `f` applied to the first one called `name`.
pub open spec fn spec_with(db: Seq<TableV>, name: Seq<char>, f: spec_fn(TableV) -> TableV) -> Seq<TableV> {
    match tindex(db, name) {
        Some(i) => db.update(i, f(db[i])),
        None => db,
    }
}

/// Adding a table, unless one has its name.
pub open spec fn spec_push_table(db: Seq<TableV>, t: TableV) -> Seq<TableV> {
    if tindex(db, t.name) is Some {
        db
    } else {
        db.push(t)
    }
}

/// Renaming a table: every foreign key that referenced it follows.
pub open spec fn spec_rename_table(db: Seq<TableV>, from: Seq<char>, to: Seq<char>) -> Seq<TableV> {
    let db1 = db.map_values(
        |t: TableV| TableV { foreign: t.foreign.map_values(|k: ForeignKeyV| retarget(k, from, to)), ..t },
    );
    match tindex(db1, from) {
        Some(i) => db1.update(i, TableV { name: to, ..db1[i] }),
        None => db1,
    }
}

/// Whether a foreign key of the table references table `name`.
pub open spec fn table_refs(t: TableV, name: Seq<char>) -> bool {
    exists|k: int| 0 <= k < t.foreign.len() && refs_table(#[trigger] t.foreign[k], name)
}

/// Whether a foreign key of the table references the column of table `name`.
pub open spec fn table_refs_column(t: TableV, name: Seq<char>, column: Seq<char>) -> bool {
    exists|k: int| 0 <= k < t.foreign.len() && refs_column(#[trigger] t.foreign[k], name, column)
}

/// Whether some table references table `name`.
pub open spec fn any_refs(db: Seq<TableV>, name: Seq<char>) -> bool {
    exists|i: int| 0 <= i < db.len() && table_refs(#[trigger] db[i], name)
}

/// Whether some table references the column of table `name`.
pub open spec fn any_refs_column(db: Seq<TableV>, name: Seq<char>, column: Seq<char>) -> bool {
    exists|i: int| 0 <= i < db.len() && table_refs_column(#[trigger] db[i], name, column)
}

/// Dropping a table: refused while a foreign key references it.
pub open spec fn spec_drop_table(db: Seq<TableV>, name: Seq<char>) -> Seq<TableV> {
    match tindex(db, name) {
        Some(i) => if any_refs(db, name) {
            db
        } else {
            db.remove(i)
        },
        None => db,
    }
}

/// Dropping the tables in order.
pub open spec fn spec_drop_tables(db: Seq<TableV>, names: Seq<Seq<char>>) -> Seq<TableV>
    decreases names.len(),
{
    if names.len() == 0 {
        db
    } else {
        spec_drop_table(spec_drop_tables(db, names.drop_last()), names.last())
    }
}

/// A copy of a table under a new name, without foreign keys.
pub open spec fn like_table(t: TableV, name: Seq<char>) -> TableV {
    TableV {
        name,
        columns: t.columns.map_values(|c: ColumnV| cloned_column(c)),
        foreign: Seq::empty(),
        ..t
    }
}

/// A `P_CREATE_TABLE` statement.
pub open spec fn spec_create_table(db: Seq<TableV>, json: JsonV) -> Seq<TableV> {
    let def = json.at("def"@);
    if def.get_str("id"@) == Some("P_CREATE_TABLE_COMMON"@) {
        spec_push_table(db, spec_table_from_common(def))
    } else if def.get_str("id"@) == Some("P_CREATE_TABLE_LIKE"@) {
        let like = str_or_empty(def.at("def"@).at("like"@).as_str());
        let name = str_or_empty(def.at("def"@).at("table"@).as_str());
        match tindex(db, like) {
            Some(s) => spec_push_table(db, like_table(db[s], name)),
            None => db,
        }
    } else {
        db
    }
}

/// A `P_CREATE_INDEX` statement: the kind of index comes from its type.
pub open spec fn spec_create_index(db: Seq<TableV>, json: JsonV) -> Seq<TableV> {
    let def = json.at("def"@);
    let ty = spec_to_lowercase(str_or_empty(def.at("type"@).as_str()));
    spec_with(
        db,
        str_or_empty(def.at("table"@).as_str()),
        |t: TableV|
            if contains_text(ty, "unique"@) {
                spec_push_unique(t, spec_key_index_def(json, "uniqueKey"@))
            } else if contains_text(ty, "fulltext"@) {
                spec_push_fulltext(t, spec_key_index_def(json, "fulltextIndex"@))
            } else if contains_text(ty, "spatial"@) {
                spec_push_spatial(t, spec_key_index_def(json, "spatialIndex"@))
            } else {
                spec_push_index(t, spec_key_index_def(json, "index"@))
            },
    )
}

/// Renaming tables pair by pair; a pair naming a missing table is skipped.
pub open spec fn spec_rename_pairs(db: Seq<TableV>, pairs: Seq<JsonV>) -> Seq<TableV>
    decreases pairs.len(),
{
    if pairs.len() == 0 {
        db
    } else {
        let d = spec_rename_pairs(db, pairs.drop_last());
        let from = str_or_empty(pairs.last().at("table"@).as_str());
        let to = str_or_empty(pairs.last().at("newName"@).as_str());
        if tindex(d, from) is Some {
            spec_rename_table(d, from, to)
        } else {
            d
        }
    }
}

/// The array under `key`, or none.
pub open spec fn arr_at(j: JsonV, key: Seq<char>) -> Seq<JsonV> {
    match j.get(key) {
        Some(JsonV::Arr(a)) => a,
        _ => Seq::empty(),
    }
}

/// Dropping an index found by name in a table.
pub open spec fn drop_index_named(t: TableV, name: Seq<char>) -> TableV {
    match spec_index_kind(t, name) {
        Some(kind) => spec_drop_index(t, kind, name),
        None => t,
    }
}

/// A `P_DROP_INDEX` statement.
pub open spec fn spec_drop_index_stmt(db: Seq<TableV>, json: JsonV) -> Seq<TableV> {
    let def = json.at("def"@);
    let index = str_or_empty(def.at("index"@).as_str());
    spec_with(db, str_or_empty(def.at("table"@).as_str()), |t: TableV| drop_index_named(t, index))
}

/// The place a `position` object names: first for `after: null`, after the
/// named column for a string, and none otherwise.
pub open spec fn spec_read_place(o: Option<JsonV>) -> Place {
    match o {
        Some(p) => if p is Null {
            Place::End
        } else {
            match p.get("after"@) {
                Some(JsonV::Null) => Place::First,
                Some(JsonV::Str(s)) => Place::After(s),
                _ => Place::End,
            }
        },
        None => Place::End,
    }
}

/// The column an `addColumn` action or an item of `addColumns` describes.
pub open spec fn spec_alter_column(j: JsonV) -> ColumnV {
    spec_column_parts(str_or_empty(j.at("name"@).as_str()), j.at("datatype"@), None, j.get("columnDefinition"@))
}

/// Adding the columns of `addColumns` at the end, in order.
pub open spec fn spec_add_columns(db: Seq<TableV>, name: Seq<char>, cols: Seq<JsonV>) -> Seq<TableV>
    decreases cols.len(),
{
    if cols.len() == 0 {
        db
    } else {
        let c = spec_alter_column(cols.last());
        spec_with(spec_add_columns(db, name, cols.drop_last()), name, |t: TableV| spec_add_column(t, c, Place::End))
    }
}

/// Renaming a column of the table at `idx`: in the foreign keys of every
/// table that reference it, then inside the table.
pub open spec fn spec_rename_column(db: Seq<TableV>, idx: int, from: Seq<char>, to: Seq<char>) -> Seq<TableV> {
    let tn = db[idx].name;
    let db1 = db.map_values(
        |t: TableV| TableV { foreign: t.foreign.map_values(|k: ForeignKeyV| rename_ref(k, tn, from, to)), ..t },
    );
    db1.update(idx, spec_rename_in_table(db1[idx], from, to))
}

/// Whether a column other than `name` is autoincrement.
pub open spec fn other_autoinc(cols: Seq<ColumnV>, name: Seq<char>) -> bool {
    exists|i: int| 0 <= i < cols.len() && (#[trigger] cols[i]).name != name && col_flag(cols[i], "autoincrement"@)
}

/// Whether a unique key covers exactly the column.
pub open spec fn single_unique_on(l: Seq<super::keys::KeyIndexV>, name: Seq<char>) -> bool {
    exists|i: int| 0 <= i < l.len() && (#[trigger] l[i]).columns.len() == 1 && l[i].columns[0].column == Some(name)
}

/// The name a `changeColumn` action leaves the column with.
pub open spec fn effective_name(column: Seq<char>, new_name: Option<Seq<char>>) -> Seq<char> {
    match new_name {
        Some(n) => if n != column {
            n
        } else {
            column
        },
        None => column,
    }
}

/// A `changeColumn` action: the column moves, is renamed, takes the new
/// datatype and options, and its keys are extracted. It is refused for a
/// missing column or place, without column definitions, for a primary column
/// of a table with a primary key, and for a second autoincrement column. A
/// unique flag that an existing single-column unique key already covers is
/// dropped.
pub open spec fn spec_change_column(db: Seq<TableV>, tn: Seq<char>, json: JsonV) -> Seq<TableV> {
    match tindex(db, tn) {
        None => db,
        Some(idx) => {
            let t = db[idx];
            let column = str_or_empty(json.at("column"@).as_str());
            let rp = spec_read_place(json.get("position"@));
            let place = match rp {
                Place::End => spec_column_place(t.columns, column),
                _ => rp,
            };
            if col_index(t.columns, column) is None {
                db
            } else if rp matches Place::After(a) && col_index(t.columns, a) is None {
                db
            } else if !json.defines("columnDefinition"@) {
                db
            } else {
                let datatype = spec_datatype_from(json.at("datatype"@).at("def"@).at("def"@));
                let options0 = spec_column_options(arr_at(json, "columnDefinition"@));
                if flag(options0, "primary"@) && t.primary_key is Some {
                    db
                } else if flag(options0, "autoincrement"@) && other_autoinc(t.columns, column) {
                    db
                } else if !move_ok(t.columns, column, place) {
                    db
                } else {
                    let options = if flag(options0, "unique"@) && single_unique_on(t.unique, column) {
                        fields_remove(options0, "unique"@)
                    } else {
                        options0
                    };
                    let db1 = db.update(idx, TableV { columns: spec_moved(t.columns, column, place), ..t });
                    let new_name = json.get_str("newName"@);
                    let eff = effective_name(column, new_name);
                    let db2 = if eff != column {
                        spec_rename_column(db1, idx, column, eff)
                    } else {
                        db1
                    };
                    let t2 = db2[idx];
                    let t3 = match col_index(t2.columns, eff) {
                        Some(k) => TableV {
                            columns: t2.columns.update(
                                k,
                                ColumnV { datatype, options: Some(options), ..t2.columns[k] },
                            ),
                            ..t2
                        },
                        None => t2,
                    };
                    db2.update(idx, spec_extract_keys(t3, eff))
                }
            }
        },
    }
}

/// Dropping a column of the table at `idx`: refused while a foreign key
/// references it.
pub open spec fn spec_drop_column(db: Seq<TableV>, idx: int, column: Seq<char>) -> Seq<TableV> {
    if any_refs_column(db, db[idx].name, column) {
        db
    } else {
        db.update(idx, spec_drop_column_in(db[idx], column))
    }
}

/// A `dropColumn` action.
pub open spec fn spec_alter_drop_column(db: Seq<TableV>, tn: Seq<char>, json: JsonV) -> Seq<TableV> {
    match tindex(db, tn) {
        None => db,
        Some(idx) => {
            let column = str_or_empty(json.at("column"@).as_str());
            if col_index(db[idx].columns, column) is None {
                db
            } else {
                spec_drop_column(db, idx, column)
            }
        },
    }
}

/// One `ALTER TABLE` action.
pub open spec fn spec_alter_action(db: Seq<TableV>, tn: Seq<char>, action: Seq<char>, json: JsonV) -> Seq<
    TableV,
> {
    if action == "addColumn"@ {
        let c = spec_alter_column(json);
        let place = spec_read_place(json.get("position"@));
        spec_with(db, tn, |t: TableV| spec_add_column(t, c, place))
    } else if action == "addColumns"@ {
        spec_add_columns(db, tn, arr_at(json, "columns"@))
    } else if action == "addIndex"@ {
        spec_with(db, tn, |t: TableV| spec_push_index(t, spec_key_index_from(json)))
    } else if action == "addPrimaryKey"@ {
        spec_with(db, tn, |t: TableV| spec_set_primary_key(t, spec_primary_key_from(json)))
    } else if action == "addUniqueKey"@ {
        spec_with(db, tn, |t: TableV| spec_push_unique(t, spec_key_index_from(json)))
    } else if action == "addFulltextIndex"@ {
        spec_with(db, tn, |t: TableV| spec_push_fulltext(t, spec_key_index_from(json)))
    } else if action == "addSpatialIndex"@ {
        spec_with(db, tn, |t: TableV| spec_push_spatial(t, spec_key_index_from(json)))
    } else if action == "addForeignKey"@ {
        spec_with(db, tn, |t: TableV| spec_push_foreign(t, spec_foreign_key_from(json)))
    } else if action == "setDefaultColumnValue"@ {
        let column = str_or_empty(json.at("column"@).as_str());
        spec_with(db, tn, |t: TableV| spec_set_default(t, column, Some(json.at("value"@))))
    } else if action == "dropDefaultColumnValue"@ {
        let column = str_or_empty(json.at("column"@).as_str());
        spec_with(db, tn, |t: TableV| spec_set_default(t, column, None))
    } else if action == "changeColumn"@ {
        spec_change_column(db, tn, json)
    } else if action == "dropColumn"@ {
        spec_alter_drop_column(db, tn, json)
    } else if action == "dropIndex"@ {
        let index = str_or_empty(json.at("index"@).as_str());
        if spec_to_lowercase(index) == "primary"@ {
            spec_with(db, tn, |t: TableV| spec_drop_primary_key(t))
        } else {
            spec_with(db, tn, |t: TableV| drop_index_named(t, index))
        }
    } else if action == "dropPrimaryKey"@ {
        spec_with(db, tn, |t: TableV| spec_drop_primary_key(t))
    } else if action == "dropForeignKey"@ {
        let key = str_or_empty(json.at("key"@).as_str());
        spec_with(db, tn, |t: TableV| spec_drop_foreign_key(t, key))
    } else if action == "renameIndex"@ {
        let index = str_or_empty(json.at("index"@).as_str());
        let new_name = str_or_empty(json.at("newName"@).as_str());
        spec_with(db, tn, |t: TableV| spec_rename_index(t, index, new_name))
    } else if action == "rename"@ {
        spec_rename_table(db, tn, str_or_empty(json.at("newName"@).as_str()))
    } else {
        db
    }
}

/// Table options merged into a table.
pub open spec fn merged_options(t: TableV, opts: Fields) -> TableV {
    TableV {
        options: Some(merge_upto(
            match t.options {
                Some(o) => o,
                None => Seq::empty(),
            },
            opts,
            31,
        )),
        ..t
    }
}

/// One item of an `ALTER TABLE`: an action, or table options.
pub open spec fn spec_alter_step(db: Seq<TableV>, tn: Seq<char>, item: JsonV) -> Seq<TableV> {
    let def = item.at("def"@);
    if def.defines("spec"@) {
        let change = def.at("spec"@).at("def"@);
        spec_alter_action(db, tn, str_or_empty(change.at("action"@).as_str()), change)
    } else if def.defines("tableOptions"@) {
        let opts = spec_table_options(arr_at(def.at("tableOptions"@), "def"@));
        spec_with(db, tn, |t: TableV| merged_options(t, opts))
    } else {
        db
    }
}

/// The items of an `ALTER TABLE` in order.
pub open spec fn spec_alter_steps(db: Seq<TableV>, tn: Seq<char>, items: Seq<JsonV>) -> Seq<TableV>
    decreases items.len(),
{
    if items.len() == 0 {
        db
    } else {
        spec_alter_step(spec_alter_steps(db, tn, items.drop_last()), tn, items.last())
    }
}

/// A `P_ALTER_TABLE` statement; it does nothing for a missing table.
pub open spec fn spec_alter_table(db: Seq<TableV>, json: JsonV) -> Seq<TableV> {
    let def = json.at("def"@);
    let tn = str_or_empty(def.at("table"@).as_str());
    if tindex(db, tn) is None {
        db
    } else {
        spec_alter_steps(db, tn, arr_at(def, "specs"@))
    }
}

/// One `P_DDS` statement.
pub open spec fn spec_apply_dds(db: Seq<TableV>, d: JsonV) -> Seq<TableV> {
    if d is Null {
        db
    } else {
        let json = d.at("def"@);
        let id = json.get_str("id"@);
        if id == Some("P_CREATE_TABLE"@) {
            spec_create_table(db, json)
        } else if id == Some("P_CREATE_INDEX"@) {
            spec_create_index(db, json)
        } else if id == Some("P_ALTER_TABLE"@) {
            spec_alter_table(db, json)
        } else if id == Some("P_RENAME_TABLE"@) {
            spec_rename_pairs(db, arr_at(json, "def"@))
        } else if id == Some("P_DROP_TABLE"@) {
            spec_drop_tables(db, str_items(arr_at(json, "def"@)))
        } else if id == Some("P_DROP_INDEX"@) {
            spec_drop_index_stmt(db, json)
        } else {
            db
        }
    }
}

/// The statements replayed in order.
pub open spec fn spec_replay(db: Seq<TableV>, dds: Seq<JsonV>) -> Seq<TableV>
    decreases dds.len(),
{
    if dds.len() == 0 {
        db
    } else {
        spec_apply_dds(spec_replay(db, dds.drop_last()), dds.last())
    }
}

/// A mutation of one table gives the tables with that one updated.
proof fn lemma_update(before: Seq<Table>, after: Seq<Table>, i: int)
    requires
        0 <= i < before.len(),
        after == before.update(i, after[i]),
    ensures
        tv(after) == tv(before).update(i, after[i]@),
{
    assert(tv(after) =~= tv(before).update(i, after[i]@));
}

/// The database that tables are built into.
pub struct Database {
    pub tables: Vec<Table>,
}

impl View for Database {
    type V = Seq<TableV>;

    open spec fn view(&self) -> Seq<TableV> {
        tv(self.tables@)
    }
}

/// Reads a `position` object.
fn read_position(pos: Option<&Json>) -> (r: Option<Position>)
    ensures
        place_of(r) == spec_read_place(match pos {
            Some(p) => Some(p@),
            None => None,
        }),
{
    match pos {
        Some(p) => if !is_defined(Some(p)) {
            None
        } else {
            match p.get("after") {
                Some(Json::Null) => Some(Position::First),
                Some(Json::Str(s)) => Some(Position::After(s.clone())),
                _ => None,
            }
        },
        None => None,
    }
}

/// The string at `key`, or the empty string.
pub fn str_at(j: &Json, key: &str) -> (r: String)
    ensures
        r@ == str_or_empty(j@.at(key@).as_str()),
{
    let null = Json::Null;
    match at(j, key, &null).as_str() {
        Some(s) => s.clone(),
        None => {
            let e = string_of("");
            proof {
                reveal_strlit("");
            }
            assert(e@ =~= Seq::<char>::empty());
            e
        },
    }
}

/// The array at `key`, or an empty one.
pub fn arr_of<'a>(j: &'a Json, key: &str, empty: &'a Vec<Json>) -> (r: &'a Vec<Json>)
    requires
        empty@.len() == 0,
    ensures
        view_arr(r@) == arr_at(j@, key@),
{
    match j.get(key) {
        Some(Json::Arr(a)) => a,
        _ => {
            assert(view_arr(empty@) =~= Seq::<JsonV>::empty());
            empty
        },
    }
}

impl Database {
    /// An empty database.
    pub fn new() -> (r: Database)
        ensures
            r@ == Seq::<TableV>::empty(),
    {
        let r = Database { tables: Vec::new() };
        assert(r@ =~= Seq::<TableV>::empty());
        r
    }

    /// The index of the first table called `name`.
    fn table_index(&self, name: &str) -> (r: Option<usize>)
        ensures
            match r {
                Some(i) => tindex(self@, name@) == Some(i as int) && i < self.tables.len(),
                None => tindex(self@, name@) is None,
            },
    {
        let mut i: usize = 0;
        while i < self.tables.len()
            invariant
                0 <= i <= self.tables.len(),
                forall|j: int| 0 <= j < i ==> !tname(name@)(#[trigger] self@[j]),
            decreases self.tables.len() - i,
        {
            if str_eq(self.tables[i].name.as_str(), name) {
                proof {
                    lemma_first_index_at(self@, tname(name@), i as int);
                }
                return Some(i);
            }
            i += 1;
        }
        proof {
            lemma_first_index_none(self@, tname(name@));
        }
        None
    }

    /// Adds a table, unless one has its name.
    fn push_table(&mut self, table: Table)
        ensures
            final(self)@ == spec_push_table(old(self)@, table@),
    {
        if self.table_index(table.name.as_str()).is_some() {
            return;
        }
        let ghost before = self.tables@;
        self.tables.push(table);
        assert(tv(self.tables@) =~= tv(before).push(table@));
    }

    /// Whether some table references table `name`.
    fn any_references(&self, name: &str) -> (r: bool)
        ensures
            r == any_refs(self@, name@),
    {
        let mut i: usize = 0;
        while i < self.tables.len()
            invariant
                0 <= i <= self.tables.len(),
                forall|j: int| 0 <= j < i ==> !table_refs(#[trigger] self@[j], name@),
            decreases self.tables.len() - i,
        {
            if self.tables[i].references_table(name) {
                assert(table_refs(self@[i as int], name@));
                return true;
            }
            i += 1;
        }
        false
    }

    /// Whether some table references the column of table `name`.
    fn any_references_column(&self, name: &str, column: &str) -> (r: bool)
        ensures
            r == any_refs_column(self@, name@, column@),
    {
        let mut i: usize = 0;
        while i < self.tables.len()
            invariant
                0 <= i <= self.tables.len(),
                forall|j: int| 0 <= j < i ==> !table_refs_column(#[trigger] self@[j], name@, column@),
            decreases self.tables.len() - i,
        {
            if self.tables[i].references_column(name, column) {
                assert(table_refs_column(self@[i as int], name@, column@));
                return true;
            }
            i += 1;
        }
        false
    }

    /// Replays all statements of a `MAIN` tree's list.
    pub fn parse_dds_collection(&mut self, dds: &Vec<Json>)
        ensures
            final(self)@ == spec_replay(old(self)@, view_arr(dds@)),
    {
        let null = Json::Null;
        let ghost start = self@;
        let mut i: usize = 0;
        proof {
            lemma_view_arr(dds@);
        }
        while i < dds.len()
            invariant
                0 <= i <= dds.len(),
                null@ is Null,
                view_arr(dds@).len() == dds@.len(),
                forall|k: int| 0 <= k < dds@.len() ==> #[trigger] view_arr(dds@)[k] == view_json(dds@[k]),
                self@ == spec_replay(start, view_arr(dds@).take(i as int)),
            decreases dds.len() - i,
        {
            assert(view_arr(dds@).take(i + 1).drop_last() =~= view_arr(dds@).take(i as int));
            let d = &dds[i];
            if !d.is_null() {
                let json = at(d, "def", &null);
                let id: &str = match json.get_str("id") {
                    Some(s) => s.as_str(),
                    None => "",
                };
                let known = json.get_str("id").is_some();
                if known && str_eq(id, "P_CREATE_TABLE") {
                    self.handle_create_table(json);
                } else if known && str_eq(id, "P_CREATE_INDEX") {
                    self.handle_create_index(json);
                } else if known && str_eq(id, "P_ALTER_TABLE") {
                    self.handle_alter_table(json);
                } else if known && str_eq(id, "P_RENAME_TABLE") {
                    self.handle_rename_table(json);
                } else if known && str_eq(id, "P_DROP_TABLE") {
                    self.handle_drop_table(json);
                } else if known && str_eq(id, "P_DROP_INDEX") {
                    self.handle_drop_index(json);
                }
            }
            i += 1;
        }
        assert(view_arr(dds@).take(dds.len() as int) =~= view_arr(dds@));
    }

    fn handle_create_table(&mut self, json: &Json)
        ensures
            final(self)@ == spec_create_table(old(self)@, json@),
    {
        let null = Json::Null;
        let def = at(json, "def", &null);
        let (is_common, is_like) = match def.get_str("id") {
            Some(id) => (str_eq(id.as_str(), "P_CREATE_TABLE_COMMON"), str_eq(id.as_str(), "P_CREATE_TABLE_LIKE")),
            None => (false, false),
        };
        if is_common {
            let t = Table::from_common_def(def);
            self.push_table(t);
        } else if is_like {
            let inner = at(def, "def", &null);
            let like = str_at(inner, "like");
            let name = str_at(inner, "table");
            match self.table_index(like.as_str()) {
                Some(s) => {
                    let mut t = self.tables[s].clone_model();
                    t.name = name;
                    t.foreign_keys = Vec::new();
                    assert(t@ =~= like_table(self@[s as int], name@)) by {
                        assert(super::keys::fkv(t.foreign_keys@) =~= Seq::<ForeignKeyV>::empty());
                    }
                    self.push_table(t);
                },
                None => {},
            }
        }
    }

    fn handle_create_index(&mut self, json: &Json)
        ensures
            final(self)@ == spec_create_index(old(self)@, json@),
    {
        let null = Json::Null;
        let def = at(json, "def", &null);
        let tn = str_at(def, "table");
        match self.table_index(tn.as_str()) {
            Some(i) => {
                let ty = to_lowercase(str_at(def, "type").as_str());
                let ghost before = self.tables@;
                if str_contains(ty.as_str(), "unique") {
                    self.tables[i].push_unique_key(KeyIndex::from_def(json, "uniqueKey"));
                } else if str_contains(ty.as_str(), "fulltext") {
                    self.tables[i].push_fulltext_index(KeyIndex::from_def(json, "fulltextIndex"));
                } else if str_contains(ty.as_str(), "spatial") {
                    self.tables[i].push_spatial_index(KeyIndex::from_def(json, "spatialIndex"));
                } else {
                    self.tables[i].push_index(KeyIndex::from_def(json, "index"));
                }
                proof {
                    lemma_update(before, self.tables@, i as int);
                }
            },
            None => {},
        }
    }

    fn handle_rename_table(&mut self, json: &Json)
        ensures
            final(self)@ == spec_rename_pairs(old(self)@, arr_at(json@, "def"@)),
    {
        let null = Json::Null;
        let empty: Vec<Json> = Vec::new();
        let pairs = arr_of(json, "def", &empty);
        let ghost start = self@;
        let mut i: usize = 0;
        proof {
            lemma_view_arr(pairs@);
        }
        while i < pairs.len()
            invariant
                0 <= i <= pairs.len(),
                null@ is Null,
                view_arr(pairs@).len() == pairs@.len(),
                forall|k: int| 0 <= k < pairs@.len() ==> #[trigger] view_arr(pairs@)[k] == view_json(pairs@[k]),
                self@ == spec_rename_pairs(start, view_arr(pairs@).take(i as int)),
            decreases pairs.len() - i,
        {
            assert(view_arr(pairs@).take(i + 1).drop_last() =~= view_arr(pairs@).take(i as int));
            let from = str_at(&pairs[i], "table");
            let to = str_at(&pairs[i], "newName");
            if self.table_index(from.as_str()).is_some() {
                self.rename_table(from.as_str(), to.as_str());
            }
            i += 1;
        }
        assert(view_arr(pairs@).take(pairs.len() as int) =~= view_arr(pairs@));
    }

    /// Renames a table; every foreign key that referenced it follows.
    fn rename_table(&mut self, from: &str, new_name: &str)
        ensures
            final(self)@ == spec_rename_table(old(self)@, from@, new_name@),
    {
        let ghost db0 = self@;
        let ghost db1 = db0.map_values(
            |t: TableV| TableV { foreign: t.foreign.map_values(|k: ForeignKeyV| retarget(k, from@, new_name@)), ..t },
        );
        let mut i: usize = 0;
        while i < self.tables.len()
            invariant
                0 <= i <= self.tables.len(),
                self.tables@.len() == db0.len(),
                db1 == db0.map_values(
                    |t: TableV| TableV { foreign: t.foreign.map_values(|k: ForeignKeyV| retarget(k, from@, new_name@)), ..t },
                ),
                forall|k: int| 0 <= k < i ==> #[trigger] self@[k] == db1[k],
                forall|k: int| i <= k < db0.len() ==> #[trigger] self@[k] == db0[k],
            decreases self.tables.len() - i,
        {
            assert(self@[i as int] == db0[i as int]);
            let ghost before = self.tables@;
            self.tables[i].retarget_foreign_keys(from, new_name);
            proof {
                lemma_update(before, self.tables@, i as int);
            }
            i += 1;
        }
        assert(self@ =~= db1);
        match self.table_index(from) {
            Some(i) => {
                let ghost before = self.tables@;
                self.tables[i].rename_to(new_name);
                proof {
                    lemma_update(before, self.tables@, i as int);
                }
            },
            None => {},
        }
    }

    fn handle_drop_table(&mut self, json: &Json)
        ensures
            final(self)@ == spec_drop_tables(old(self)@, str_items(arr_at(json@, "def"@))),
    {
        let empty: Vec<Json> = Vec::new();
        let names = strings_of(arr_of(json, "def", &empty));
        let ghost all = str_items(arr_at(json@, "def"@));
        let ghost start = self@;
        let mut i: usize = 0;
        while i < names.len()
            invariant
                0 <= i <= names.len(),
                names@.map_values(|s: String| s@) == all,
                self@ == spec_drop_tables(start, all.take(i as int)),
            decreases names.len() - i,
        {
            assert(all.take(i + 1).drop_last() =~= all.take(i as int));
            assert(all[i as int] == names@[i as int]@);
            let name = names[i].as_str();
            match self.table_index(name) {
                Some(idx) => {
                    if !self.any_references(name) {
                        let ghost before = self.tables@;
                        self.tables.remove(idx);
                        assert(tv(self.tables@) =~= tv(before).remove(idx as int));
                    }
                },
                None => {},
            }
            i += 1;
        }
        assert(all.take(names.len() as int) =~= all);
    }

    fn handle_drop_index(&mut self, json: &Json)
        ensures
            final(self)@ == spec_drop_index_stmt(old(self)@, json@),
    {
        let null = Json::Null;
        let def = at(json, "def", &null);
        let tn = str_at(def, "table");
        let index = str_at(def, "index");
        match self.table_index(tn.as_str()) {
            Some(i) => {
                let ghost before = self.tables@;
                self.tables[i].drop_index_named(index.as_str());
                proof {
                    lemma_update(before, self.tables@, i as int);
                }
            },
            None => {},
        }
    }

    fn handle_alter_table(&mut self, json: &Json)
        ensures
            final(self)@ == spec_alter_table(old(self)@, json@),
    {
        let null = Json::Null;
        let def = at(json, "def", &null);
        let tn = str_at(def, "table");
        if self.table_index(tn.as_str()).is_none() {
            return;
        }
        let empty: Vec<Json> = Vec::new();
        let specs = arr_of(def, "specs", &empty);
        let ghost start = self@;
        let mut i: usize = 0;
        proof {
            lemma_view_arr(specs@);
        }
        while i < specs.len()
            invariant
                0 <= i <= specs.len(),
                null@ is Null,
                view_arr(specs@).len() == specs@.len(),
                forall|k: int| 0 <= k < specs@.len() ==> #[trigger] view_arr(specs@)[k] == view_json(specs@[k]),
                self@ == spec_alter_steps(start, tn@, view_arr(specs@).take(i as int)),
            decreases specs.len() - i,
        {
            assert(view_arr(specs@).take(i + 1).drop_last() =~= view_arr(specs@).take(i as int));
            let d = at(&specs[i], "def", &null);
            if d.defines("spec") {
                let change = at(at(d, "spec", &null), "def", &null);
                let action = str_at(change, "action");
                self.alter_action(tn.as_str(), action.as_str(), change);
            } else if d.defines("tableOptions") {
                let opts = TableOptions::from_def(at(d, "tableOptions", &null));
                match self.table_index(tn.as_str()) {
                    Some(t) => {
                        let ghost before = self.tables@;
                        self.tables[t].merge_options(&opts);
                        proof {
                            lemma_update(before, self.tables@, t as int);
                        }
                    },
                    None => {},
                }
            }
            i += 1;
        }
        assert(view_arr(specs@).take(specs.len() as int) =~= view_arr(specs@));
    }

    /// Applies one `ALTER TABLE` action by its name.
    fn alter_action(&mut self, table_name: &str, action: &str, json: &Json)
        ensures
            final(self)@ == spec_alter_action(old(self)@, table_name@, action@, json@),
    {
        let null = Json::Null;
        if str_eq(action, "addColumn") {
            self.alter_add_column(table_name, json);
            return;
        } else if str_eq(action, "addColumns") {
            let empty: Vec<Json> = Vec::new();
            let cols = arr_of(json, "columns", &empty);
            self.alter_add_columns(table_name, cols);
            return;
        }
        let is_local = str_eq(action, "addIndex") || str_eq(action, "addPrimaryKey") || str_eq(action, "addUniqueKey")
            || str_eq(action, "addFulltextIndex") || str_eq(action, "addSpatialIndex") || str_eq(action, "addForeignKey")
            || str_eq(action, "setDefaultColumnValue") || str_eq(action, "dropDefaultColumnValue");
        if is_local {
            let i = match self.table_index(table_name) {
                Some(i) => i,
                None => return,
            };
            let ghost before = self.tables@;
            if str_eq(action, "addIndex") {
                self.tables[i].push_index(KeyIndex::from_object(json));
            } else if str_eq(action, "addPrimaryKey") {
                self.tables[i].set_primary_key(PrimaryKey::from_object(json));
            } else if str_eq(action, "addUniqueKey") {
                self.tables[i].push_unique_key(KeyIndex::from_object(json));
            } else if str_eq(action, "addFulltextIndex") {
                self.tables[i].push_fulltext_index(KeyIndex::from_object(json));
            } else if str_eq(action, "addSpatialIndex") {
                self.tables[i].push_spatial_index(KeyIndex::from_object(json));
            } else if str_eq(action, "addForeignKey") {
                self.tables[i].push_foreign_key(ForeignKey::from_object(json));
            } else if str_eq(action, "setDefaultColumnValue") {
                let column = str_at(json, "column");
                let value = at(json, "value", &null).deep_clone();
                self.tables[i].set_column_default(column.as_str(), Some(value));
            } else {
                let column = str_at(json, "column");
                self.tables[i].set_column_default(column.as_str(), None);
            }
            proof {
                lemma_update(before, self.tables@, i as int);
            }
            return;
        }
        if str_eq(action, "changeColumn") {
            self.alter_change_column(table_name, json);
            return;
        } else if str_eq(action, "dropColumn") {
            self.alter_drop_column(table_name, json);
            return;
        }
        let is_local2 = str_eq(action, "dropIndex") || str_eq(action, "dropPrimaryKey") || str_eq(action, "dropForeignKey")
            || str_eq(action, "renameIndex");
        if is_local2 {
            let i = match self.table_index(table_name) {
                Some(i) => i,
                None => return,
            };
            let ghost before = self.tables@;
            if str_eq(action, "dropIndex") {
                let index = str_at(json, "index");
                let lower = to_lowercase(index.as_str());
                if str_eq(lower.as_str(), "primary") {
                    self.tables[i].drop_primary_key();
                } else {
                    self.tables[i].drop_index_named(index.as_str());
                }
            } else if str_eq(action, "dropPrimaryKey") {
                self.tables[i].drop_primary_key();
            } else if str_eq(action, "dropForeignKey") {
                let key = str_at(json, "key");
                self.tables[i].drop_foreign_key(key.as_str());
            } else {
                let index = str_at(json, "index");
                let new_name = str_at(json, "newName");
                self.tables[i].rename_index(index.as_str(), new_name.as_str());
            }
            proof {
                lemma_update(before, self.tables@, i as int);
            }
            return;
        }
        if str_eq(action, "rename") {
            let new_name = str_at(json, "newName");
            self.rename_table(table_name, new_name.as_str());
        }
    }

    fn alter_add_column(&mut self, table_name: &str, json: &Json)
        ensures
            final(self)@ == spec_with(
                old(self)@,
                table_name@,
                |t: TableV| spec_add_column(t, spec_alter_column(json@), spec_read_place(json@.get("position"@))),
            ),
    {
        let column = column_of(json);
        let position = read_position(json.get("position"));
        match self.table_index(table_name) {
            Some(i) => {
                let ghost before = self.tables@;
                self.tables[i].add_column(column, position);
                proof {
                    lemma_update(before, self.tables@, i as int);
                }
            },
            None => {},
        }
    }

    fn alter_add_columns(&mut self, table_name: &str, cols: &Vec<Json>)
        ensures
            final(self)@ == spec_add_columns(old(self)@, table_name@, view_arr(cols@)),
    {
        let ghost start = self@;
        let mut i: usize = 0;
        proof {
            lemma_view_arr(cols@);
        }
        while i < cols.len()
            invariant
                0 <= i <= cols.len(),
                view_arr(cols@).len() == cols@.len(),
                forall|k: int| 0 <= k < cols@.len() ==> #[trigger] view_arr(cols@)[k] == view_json(cols@[k]),
                self@ == spec_add_columns(start, table_name@, view_arr(cols@).take(i as int)),
            decreases cols.len() - i,
        {
            assert(view_arr(cols@).take(i + 1).drop_last() =~= view_arr(cols@).take(i as int));
            let column = column_of(&cols[i]);
            match self.table_index(table_name) {
                Some(t) => {
                    let ghost before = self.tables@;
                    self.tables[t].add_column(column, None);
                    proof {
                        lemma_update(before, self.tables@, t as int);
                    }
                },
                None => {},
            }
            i += 1;
        }
        assert(view_arr(cols@).take(cols.len() as int) =~= view_arr(cols@));
    }

    /// Renames a column of the table at `table_idx` and its references in
    /// every table.
    fn rename_column(&mut self, table_idx: usize, from: &str, to: &str)
        requires
            table_idx < old(self).tables.len(),
        ensures
            final(self)@ == spec_rename_column(old(self)@, table_idx as int, from@, to@),
    {
        let tn = self.tables[table_idx].name.clone();
        let ghost db0 = self@;
        let ghost db1 = db0.map_values(
            |t: TableV| TableV { foreign: t.foreign.map_values(|k: ForeignKeyV| rename_ref(k, tn@, from@, to@)), ..t },
        );
        let mut i: usize = 0;
        while i < self.tables.len()
            invariant
                0 <= i <= self.tables.len(),
                self.tables@.len() == db0.len(),
                table_idx < db0.len(),
                tn@ == db0[table_idx as int].name,
                db1 == db0.map_values(
                    |t: TableV| TableV { foreign: t.foreign.map_values(|k: ForeignKeyV| rename_ref(k, tn@, from@, to@)), ..t },
                ),
                forall|k: int| 0 <= k < i ==> #[trigger] self@[k] == db1[k],
                forall|k: int| i <= k < db0.len() ==> #[trigger] self@[k] == db0[k],
            decreases self.tables.len() - i,
        {
            assert(self@[i as int] == db0[i as int]);
            let ghost before = self.tables@;
            self.tables[i].rename_referenced_columns(tn.as_str(), from, to);
            proof {
                lemma_update(before, self.tables@, i as int);
            }
            i += 1;
        }
        assert(self@ =~= db1);
        let ghost before = self.tables@;
        self.tables[table_idx].rename_column_here(from, to);
        proof {
            lemma_update(before, self.tables@, table_idx as int);
        }
    }

    fn alter_drop_column(&mut self, table_name: &str, json: &Json)
        ensures
            final(self)@ == spec_alter_drop_column(old(self)@, table_name@, json@),
    {
        let idx = match self.table_index(table_name) {
            Some(i) => i,
            None => return,
        };
        let column = str_at(json, "column");
        if self.tables[idx].column_index(column.as_str()).is_none() {
            return;
        }
        self.drop_column(idx, column.as_str());
    }

    /// Drops a column of the table at `table_idx`, unless a foreign key
    /// references it.
    fn drop_column(&mut self, table_idx: usize, column_name: &str)
        requires
            table_idx < old(self).tables.len(),
        ensures
            final(self)@ == spec_drop_column(old(self)@, table_idx as int, column_name@),
    {
        let tn = self.tables[table_idx].name.clone();
        if self.any_references_column(tn.as_str(), column_name) {
            return;
        }
        let ghost before = self.tables@;
        self.tables[table_idx].drop_column_here(column_name);
        proof {
            lemma_update(before, self.tables@, table_idx as int);
        }
    }

    fn alter_change_column(&mut self, table_name: &str, json: &Json)
        ensures
            final(self)@ == spec_change_column(old(self)@, table_name@, json@),
    {
        let idx = match self.table_index(table_name) {
            Some(i) => i,
            None => return,
        };
        let ghost db = self@;
        let ghost t = db[idx as int];
        let column = str_at(json, "column");
        if self.tables[idx].column_index(column.as_str()).is_none() {
            return;
        }
        let rp = read_position(json.get("position"));
        let position = match rp {
            Some(p) => {
                let missing = match &p {
                    Position::After(a) => self.tables[idx].column_index(a.as_str()).is_none(),
                    Position::First => false,
                };
                if missing {
                    return;
                }
                p
            },
            None => self.tables[idx].column_position(column.as_str()),
        };
        let null = Json::Null;
        let datatype = Datatype::from_def(at(json, "datatype", &null));
        let options0 = match json.get("columnDefinition") {
            Some(cd) => if cd.is_null() {
                return;
            } else {
                let empty: Vec<Json> = Vec::new();
                ColumnOptions::from_array(arr_of(json, "columnDefinition", &empty))
            },
            None => return,
        };
        if options0.is_primary() && self.tables[idx].primary_key.is_some() {
            return;
        }
        if options0.is_autoincrement() && other_autoincrement(&self.tables[idx], column.as_str()) {
            return;
        }
        let mut options = options0;
        if options.is_unique() && single_unique(&self.tables[idx], column.as_str()) {
            options.remove("unique");
        }
        let ghost before = self.tables@;
        let moved = self.tables[idx].move_column(column.as_str(), &position);
        proof {
            lemma_update(before, self.tables@, idx as int);
        }
        if !moved {
            return;
        }
        let new_name: Option<String> = match json.get_str("newName") {
            Some(n) => Some(n.clone()),
            None => None,
        };
        let eff: String = match &new_name {
            Some(n) => if !str_eq(n.as_str(), column.as_str()) {
                self.rename_column(idx, column.as_str(), n.as_str());
                n.clone()
            } else {
                column.clone()
            },
            None => column.clone(),
        };
        assert(eff@ == effective_name(column@, json@.get_str("newName"@)));
        assert(self@.len() == self.tables@.len());
        assert(self@.len() == db.len());
        let ghost before = self.tables@;
        match self.tables[idx].column_index(eff.as_str()) {
            Some(k) => {
                proof {
                    lemma_first_index(self@[idx as int].columns, super::keys::cname(eff@));
                }
                self.tables[idx].set_column_definition(k, datatype, options);
                proof {
                    lemma_update(before, self.tables@, idx as int);
                }
            },
            None => {},
        }
        let ghost mid = self.tables@;
        self.tables[idx].extract_column_keys(eff.as_str());
        proof {
            lemma_update(mid, self.tables@, idx as int);
        }
    }
}

/// The column an `addColumn` action or an item of `addColumns` describes.
fn column_of(json: &Json) -> (r: Column)
    ensures
        r@ == spec_alter_column(json@),
{
    let null = Json::Null;
    let obj = ColumnObject {
        name: str_at(json, "name"),
        datatype: at(json, "datatype", &null).deep_clone(),
        reference: None,
        column_definition: match json.get("columnDefinition") {
            Some(v) => Some(v.deep_clone()),
            None => None,
        },
    };
    Column::from_object(&obj)
}

/// Whether a column of the table other than `name` is autoincrement.
fn other_autoincrement(t: &Table, name: &str) -> (r: bool)
    ensures
        r == other_autoinc(t@.columns, name@),
{
    let mut i: usize = 0;
    while i < t.columns.len()
        invariant
            0 <= i <= t.columns.len(),
            forall|j: int| 0 <= j < i ==> !((#[trigger] t@.columns[j]).name != name@ && col_flag(t@.columns[j], "autoincrement"@)),
        decreases t.columns.len() - i,
    {
        let other = !str_eq(t.columns[i].name.as_str(), name);
        let auto = match &t.columns[i].options {
            Some(o) => o.is_autoincrement(),
            None => false,
        };
        if other && auto {
            assert(t@.columns[i as int].name != name@ && col_flag(t@.columns[i as int], "autoincrement"@));
            return true;
        }
        i += 1;
    }
    false
}

/// Whether a unique key of the table covers exactly the column.
fn single_unique(t: &Table, name: &str) -> (r: bool)
    ensures
        r == single_unique_on(t@.unique, name@),
{
    let mut i: usize = 0;
    while i < t.unique_keys.len()
        invariant
            0 <= i <= t.unique_keys.len(),
            forall|j: int| 0 <= j < i ==> !((#[trigger] t@.unique[j]).columns.len() == 1 && t@.unique[j].columns[0].column == Some(name@)),
        decreases t.unique_keys.len() - i,
    {
        let k = &t.unique_keys[i];
        let hit = k.columns.len() == 1 && match &k.columns[0].column {
            Some(c) => str_eq(c.as_str(), name),
            None => false,
        };
        if hit {
            assert(t@.unique[i as int].columns.len() == 1 && t@.unique[i as int].columns[0].column == Some(name@));
            return true;
        }
        i += 1;
    }
    false
}

} // verus!
