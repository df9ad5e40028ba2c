//! The table model and its mutations.
//!
//! Effects across tables (renaming a table updates the foreign keys of the
//! others) are driven by the database, which owns all tables.

use vstd::prelude::*;

use crate::json::{at, fields_insert, put, str_eq, string_of, view_arr, view_json, view_obj, Json, JsonV, lemma_view_arr};

use super::column::{col_flag, cv, spec_column_json, spec_column_node, Column, ColumnV};
use super::models::ColumnReferenceV;
use super::keys::{
    fkv, has_name, kv, names, pk_cols, spec_foreign_key_from, spec_foreign_key_json, spec_ft_spatial_json,
    spec_has_all, spec_index_json, spec_key_index_def, spec_primary_key_from, spec_primary_key_json,
    spec_sized, spec_unique_json, col_index, cname, refs_table, refs_column, spec_rename_cols, spec_drop_col, ForeignKey, ForeignKeyV, KeyIndex, KeyIndexV,
    PrimaryKey, PrimaryKeyV,
};
use super::models::{Fields, IndexColumnV};
use super::table_options::{spec_table_options, spec_table_options_json, TableOptions};
use super::util::{first_index, lemma_first_index, lemma_first_index_at, lemma_first_index_none};

verus! {

/// Which index collection an index lives in.
#[derive(Debug, Clone, Copy, PartialEq, Eq, Structural)]
pub enum IndexKind {
    Unique,
    Index,
    Fulltext,
    Spatial,
}

/// A position for inserting or moving a column.
#[derive(Debug)]
pub enum Position {
    /// At the front.
    First,
    /// After the named column.
    After(String),
}

/// Where a column goes: at the end, at the front, or after a named column.
pub enum Place {
    End,
    First,
    After(Seq<char>),
}

/// The place an optional position names.
pub open spec fn place_of(p: Option<Position>) -> Place {
    match p {
        None => Place::End,
        Some(Position::First) => Place::First,
        Some(Position::After(a)) => Place::After(a@),
    }
}

/// A table as read from DDL.
pub struct Table {
    pub name: String,
    pub columns: Vec<Column>,
    pub options: Option<TableOptions>,
    pub fulltext_indexes: Vec<KeyIndex>,
    pub spatial_indexes: Vec<KeyIndex>,
    pub foreign_keys: Vec<ForeignKey>,
    pub unique_keys: Vec<KeyIndex>,
    pub indexes: Vec<KeyIndex>,
    pub primary_key: Option<PrimaryKey>,
}

/// The value of a [`Table`].
pub struct TableV {
    pub name: Seq<char>,
    pub columns: Seq<ColumnV>,
    pub options: Option<Fields>,
    pub fulltext: Seq<KeyIndexV>,
    pub spatial: Seq<KeyIndexV>,
    pub foreign: Seq<ForeignKeyV>,
    pub unique: Seq<KeyIndexV>,
    pub indexes: Seq<KeyIndexV>,
    pub primary_key: Option<PrimaryKeyV>,
}

impl View for Table {
    type V = TableV;

    open spec fn view(&self) -> TableV {
        TableV {
            name: self.name@,
            columns: cv(self.columns@),
            options: match self.options {
                Some(o) => Some(o@),
                None => None,
            },
            fulltext: kv(self.fulltext_indexes@),
            spatial: kv(self.spatial_indexes@),
            foreign: fkv(self.foreign_keys@),
            unique: kv(self.unique_keys@),
            indexes: kv(self.indexes@),
            primary_key: match self.primary_key {
                Some(pk) => Some(pk@),
                None => None,
            },
        }
    }
}

/// An empty table with a name and options.
pub open spec fn empty_table(name: Seq<char>, options: Option<Fields>) -> TableV {
    TableV {
        name,
        columns: Seq::empty(),
        options,
        fulltext: Seq::empty(),
        spatial: Seq::empty(),
        foreign: Seq::empty(),
        unique: Seq::empty(),
        indexes: Seq::empty(),
        primary_key: None,
    }
}

/// Whether an index is called `name`.
pub open spec fn kname(name: Seq<char>) -> spec_fn(KeyIndexV) -> bool {
    |k: KeyIndexV| k.name == Some(name)
}

/// Whether an index of the list is called `name`.
pub open spec fn has_index_named(l: Seq<KeyIndexV>, name: Seq<char>) -> bool {
    first_index(l, kname(name)) is Some
}

/// The collection holding an index called `name`, searching unique keys,
/// indexes, fulltext indexes and spatial indexes in that order.
pub open spec fn spec_index_kind(t: TableV, name: Seq<char>) -> Option<IndexKind> {
    if has_index_named(t.unique, name) {
        Some(IndexKind::Unique)
    } else if has_index_named(t.indexes, name) {
        Some(IndexKind::Index)
    } else if has_index_named(t.fulltext, name) {
        Some(IndexKind::Fulltext)
    } else if has_index_named(t.spatial, name) {
        Some(IndexKind::Spatial)
    } else {
        None
    }
}

/// Whether an index would clash by name with one the table has.
pub open spec fn name_taken(t: TableV, name: Option<Seq<char>>) -> bool {
    name matches Some(n) && spec_index_kind(t, n) is Some
}

/// The list without the first index called `name`.
pub open spec fn drop_named(l: Seq<KeyIndexV>, name: Seq<char>) -> Seq<KeyIndexV> {
    match first_index(l, kname(name)) {
        Some(p) => l.remove(p),
        None => l,
    }
}

/// Whether some column is autoincrement.
pub open spec fn any_autoinc(cols: Seq<ColumnV>) -> bool {
    exists|i: int| 0 <= i < cols.len() && col_flag(#[trigger] cols[i], "autoincrement"@)
}

/// A column whose options say it is not nullable.
pub open spec fn set_not_null(c: ColumnV) -> ColumnV {
    match c.options {
        Some(o) => ColumnV { options: Some(fields_insert(o, "nullable"@, JsonV::Bool(false))), ..c },
        None => c,
    }
}

/// The columns after a primary key over `pkc` is set: the first column of
/// each key column's name becomes not nullable.
pub open spec fn spec_pk_nullable(cols: Seq<ColumnV>, pkc: Seq<IndexColumnV>) -> Seq<ColumnV> {
    Seq::new(
        cols.len(),
        |j: int|
            if has_name(pkc, cols[j].name) && col_index(cols, cols[j].name) == Some(j) {
                set_not_null(cols[j])
            } else {
                cols[j]
            },
    )
}

/// Setting a primary key: refused when the table has one or lacks one of its
/// columns.
pub open spec fn spec_set_primary_key(t: TableV, pk: PrimaryKeyV) -> TableV {
    if t.primary_key is Some || !spec_has_all(pk_cols(pk), t.columns) {
        t
    } else {
        TableV { columns: spec_pk_nullable(t.columns, pk_cols(pk)), primary_key: Some(pk), ..t }
    }
}

/// Whether the table column an index column names is autoincrement.
pub open spec fn ic_autoinc(ic: IndexColumnV, cols: Seq<ColumnV>) -> bool {
    match ic.column {
        Some(n) => match col_index(cols, n) {
            Some(k) => col_flag(cols[k], "autoincrement"@),
            None => false,
        },
        None => false,
    }
}

/// Whether a column of the key is autoincrement.
pub open spec fn key_has_autoinc(pkc: Seq<IndexColumnV>, cols: Seq<ColumnV>) -> bool {
    exists|i: int| 0 <= i < pkc.len() && #[trigger] ic_autoinc(pkc[i], cols)
}

/// Dropping the primary key: refused when one of its columns is
/// autoincrement.
pub open spec fn spec_drop_primary_key(t: TableV) -> TableV {
    match t.primary_key {
        Some(pk) => if key_has_autoinc(pk_cols(pk), t.columns) {
            t
        } else {
            TableV { primary_key: None, ..t }
        },
        None => t,
    }
}

/// Whether an index can be added: its name is free and the table has all of
/// its columns.
pub open spec fn index_ok(t: TableV, k: KeyIndexV) -> bool {
    !name_taken(t, k.name) && spec_has_all(k.columns, t.columns)
}

/// Adding a fulltext index.
pub open spec fn spec_push_fulltext(t: TableV, k: KeyIndexV) -> TableV {
    if index_ok(t, k) {
        TableV { fulltext: t.fulltext.push(k), ..t }
    } else {
        t
    }
}

/// Adding a spatial index.
pub open spec fn spec_push_spatial(t: TableV, k: KeyIndexV) -> TableV {
    if index_ok(t, k) {
        TableV { spatial: t.spatial.push(k), ..t }
    } else {
        t
    }
}

/// Adding a unique key, its column lengths filled from the table.
pub open spec fn spec_push_unique(t: TableV, k: KeyIndexV) -> TableV {
    if index_ok(t, k) {
        TableV { unique: t.unique.push(KeyIndexV { columns: spec_sized(k.columns, t.columns), ..k }), ..t }
    } else {
        t
    }
}

/// Adding an index, its column lengths filled from the table.
pub open spec fn spec_push_index(t: TableV, k: KeyIndexV) -> TableV {
    if index_ok(t, k) {
        TableV { indexes: t.indexes.push(KeyIndexV { columns: spec_sized(k.columns, t.columns), ..k }), ..t }
    } else {
        t
    }
}

/// Adding a foreign key, its column lengths filled from the table; only a
/// clash of its name with an index refuses it.
pub open spec fn spec_push_foreign(t: TableV, k: ForeignKeyV) -> TableV {
    if name_taken(t, k.name) {
        t
    } else {
        TableV { foreign: t.foreign.push(ForeignKeyV { columns: spec_sized(k.columns, t.columns), ..k }), ..t }
    }
}

/// The index column entry for a single column.
pub open spec fn single(name: Seq<char>) -> IndexColumnV {
    IndexColumnV { column: Some(name), length: None, sort: None }
}

/// A column without the option `key`.
pub open spec fn without(c: ColumnV, key: Seq<char>) -> ColumnV {
    ColumnV { options: Some(crate::json::fields_remove(c.options->Some_0, key)), ..c }
}

/// Moving the keys a column's definition carries out of the column: a
/// primary key, a foreign key from its reference, then a unique key.
pub open spec fn spec_extract_keys(t: TableV, name: Seq<char>) -> TableV {
    match col_index(t.columns, name) {
        None => t,
        Some(i) => {
            let c0 = t.columns[i];
            let is_pk = col_flag(c0, "primary"@);
            let c1 = if is_pk {
                without(c0, "primary"@)
            } else {
                c0
            };
            let c2 = ColumnV { reference: None, ..c1 };
            let is_uk = col_flag(c2, "unique"@);
            let c3 = if is_uk {
                without(c2, "unique"@)
            } else {
                c2
            };
            let t1 = TableV { columns: t.columns.update(i, c3), ..t };
            let t2 = if is_pk {
                spec_set_primary_key(
                    t1,
                    PrimaryKeyV {
                        name: None,
                        index_type: None,
                        columns: Some(seq![single(c0.name)]),
                        options: None,
                    },
                )
            } else {
                t1
            };
            let t3 = match c1.reference {
                Some(rf) => spec_push_foreign(
                    t2,
                    ForeignKeyV { name: None, columns: seq![single(c0.name)], reference: rf },
                ),
                None => t2,
            };
            if is_uk {
                spec_push_unique(
                    t3,
                    KeyIndexV { name: None, index_type: None, columns: seq![single(c0.name)], options: None },
                )
            } else {
                t3
            }
        },
    }
}

/// Adding a column: refused for a taken name, for a second autoincrement
/// column, for a primary column when the table has a primary key, and for a
/// place after a column that does not exist; then its keys are extracted.
pub open spec fn spec_add_column(t: TableV, c: ColumnV, place: Place) -> TableV {
    if col_index(t.columns, c.name) is Some {
        t
    } else if col_flag(c, "autoincrement"@) && any_autoinc(t.columns) {
        t
    } else if t.primary_key is Some && col_flag(c, "primary"@) {
        t
    } else {
        match place {
            Place::End => spec_extract_keys(TableV { columns: t.columns.push(c), ..t }, c.name),
            Place::First => spec_extract_keys(TableV { columns: t.columns.insert(0, c), ..t }, c.name),
            Place::After(a) => match col_index(t.columns, a) {
                Some(p) => spec_extract_keys(TableV { columns: t.columns.insert(p + 1, c), ..t }, c.name),
                None => t,
            },
        }
    }
}

/// Whether a column can be moved: it exists, and so does the column it goes
/// after.
pub open spec fn move_ok(cols: Seq<ColumnV>, name: Seq<char>, place: Place) -> bool {
    col_index(cols, name) is Some && match place {
        Place::After(a) => col_index(cols, a) is Some,
        _ => true,
    }
}

/// The columns after a move that `move_ok` allows. Moving a column after
/// itself leaves the order as it is.
pub open spec fn spec_moved(cols: Seq<ColumnV>, name: Seq<char>, place: Place) -> Seq<ColumnV> {
    let cur = col_index(cols, name)->Some_0;
    let rest = cols.remove(cur);
    match place {
        Place::After(a) => if a == name {
            cols
        } else {
            rest.insert(col_index(rest, a)->Some_0 + 1, cols[cur])
        },
        _ => rest.insert(0, cols[cur]),
    }
}

/// The place a column has now: first, or after the column before it.
pub open spec fn spec_column_place(cols: Seq<ColumnV>, name: Seq<char>) -> Place {
    match col_index(cols, name) {
        Some(i) => if i == 0 {
            Place::First
        } else {
            Place::After(cols[i - 1].name)
        },
        None => Place::First,
    }
}

/// The compact JSON of a list of indexes in one of three shapes: unique
/// keys, plain indexes, or fulltext and spatial indexes.
pub open spec fn key_json(k: KeyIndexV, shape: u8) -> JsonV {
    if shape == 0 {
        spec_unique_json(k)
    } else if shape == 1 {
        spec_index_json(k)
    } else {
        spec_ft_spatial_json(k)
    }
}

/// Appends a list under `key` when it is not empty.
pub open spec fn push_list(fs: Fields, key: Seq<char>, items: Seq<JsonV>) -> Fields {
    if items.len() > 0 {
        fs.push((key, JsonV::Arr(items)))
    } else {
        fs
    }
}

/// The compact JSON of a table.
pub open spec fn spec_table_json(t: TableV) -> JsonV {
    let f0 = seq![
        ("name"@, JsonV::Str(t.name)),
        ("columns"@, JsonV::Arr(t.columns.map_values(|c: ColumnV| spec_column_json(c)))),
    ];
    let f1 = match t.primary_key {
        Some(pk) => f0.push(("primaryKey"@, spec_primary_key_json(pk))),
        None => f0,
    };
    let f2 = push_list(f1, "foreignKeys"@, t.foreign.map_values(|k: ForeignKeyV| spec_foreign_key_json(k)));
    let f3 = push_list(f2, "uniqueKeys"@, t.unique.map_values(|k: KeyIndexV| key_json(k, 0)));
    let f4 = push_list(f3, "indexes"@, t.indexes.map_values(|k: KeyIndexV| key_json(k, 1)));
    let f5 = push_list(f4, "spatialIndexes"@, t.spatial.map_values(|k: KeyIndexV| key_json(k, 2)));
    let f6 = push_list(f5, "fulltextIndexes"@, t.fulltext.map_values(|k: KeyIndexV| key_json(k, 2)));
    JsonV::Obj(
        match t.options {
            Some(o) => f6.push(("options"@, spec_table_options_json(o))),
            None => f6,
        },
    )
}

/// One create definition of a `CREATE TABLE` applied to the table.
pub open spec fn apply_create_def(t: TableV, cd: JsonV) -> TableV {
    let inner = cd.at("def"@);
    if inner.defines("column"@) {
        spec_add_column(t, spec_column_node(cd), Place::End)
    } else if inner.defines("fulltextIndex"@) {
        spec_push_fulltext(t, spec_key_index_def(cd, "fulltextIndex"@))
    } else if inner.defines("spatialIndex"@) {
        spec_push_spatial(t, spec_key_index_def(cd, "spatialIndex"@))
    } else if inner.defines("foreignKey"@) {
        spec_push_foreign(t, spec_foreign_key_from(inner.at("foreignKey"@)))
    } else if inner.defines("uniqueKey"@) {
        spec_push_unique(t, spec_key_index_def(cd, "uniqueKey"@))
    } else if inner.defines("primaryKey"@) {
        spec_set_primary_key(t, spec_primary_key_from(inner.at("primaryKey"@)))
    } else if inner.defines("index"@) {
        spec_push_index(t, spec_key_index_def(cd, "index"@))
    } else {
        t
    }
}

/// The create definitions applied in order.
pub open spec fn apply_create_defs(t: TableV, cds: Seq<JsonV>) -> TableV
    decreases cds.len(),
{
    if cds.len() == 0 {
        t
    } else {
        apply_create_def(apply_create_defs(t, cds.drop_last()), cds.last())
    }
}

/// The table a `P_CREATE_TABLE_COMMON` node describes.
pub open spec fn spec_table_from_common(json: JsonV) -> TableV {
    let def = json.at("def"@);
    let options = match def.get("tableOptions"@) {
        Some(o) => if o is Null {
            None
        } else {
            Some(spec_table_options(match o.get("def"@) {
                Some(JsonV::Arr(a)) => a,
                _ => Seq::empty(),
            }))
        },
        None => None,
    };
    let cds = match def.at("columnsDef"@).get("def"@) {
        Some(JsonV::Arr(a)) => a,
        _ => Seq::empty(),
    };
    apply_create_defs(empty_table(super::models::str_or_empty(def.at("table"@).as_str()), options), cds)
}

/// The index of the first index of a list called `name`.
pub fn find_named(list: &Vec<KeyIndex>, name: &str) -> (r: Option<usize>)
    ensures
        match r {
            Some(i) => first_index(kv(list@), kname(name@)) == Some(i as int),
            None => first_index(kv(list@), kname(name@)) is None,
        },
{
    let ghost p = kname(name@);
    let mut i: usize = 0;
    while i < list.len()
        invariant
            0 <= i <= list.len(),
            p == kname(name@),
            forall|j: int| 0 <= j < i ==> !p(#[trigger] kv(list@)[j]),
        decreases list.len() - i,
    {
        let hit = match &list[i].name {
            Some(n) => str_eq(n.as_str(), name),
            None => false,
        };
        if hit {
            proof {
                lemma_first_index_at(kv(list@), p, i as int);
            }
            return Some(i);
        }
        i += 1;
    }
    proof {
        lemma_first_index_none(kv(list@), p);
    }
    None
}

/// Drops the first index of a list called `name`.
fn drop_named_in(list: &mut Vec<KeyIndex>, name: &str)
    ensures
        kv(final(list)@) == drop_named(kv(old(list)@), name@),
{
    match find_named(list, name) {
        Some(p) => {
            proof {
                lemma_first_index(kv(list@), kname(name@));
            }
            let ghost before = list@;
            list.remove(p);
            assert(kv(list@) =~= kv(before).remove(p as int));
        },
        None => {},
    }
}

/// The compact JSON of a list of indexes in one of three shapes.
fn keys_json(list: &Vec<KeyIndex>, shape: u8) -> (r: Vec<Json>)
    ensures
        view_arr(r@) == kv(list@).map_values(|k: KeyIndexV| key_json(k, shape)),
{
    let mut out: Vec<Json> = Vec::new();
    let mut i: usize = 0;
    while i < list.len()
        invariant
            0 <= i <= list.len(),
            view_arr(out@) == kv(list@.take(i as int)).map_values(|k: KeyIndexV| key_json(k, shape)),
        decreases list.len() - i,
    {
        let j = if shape == 0 {
            list[i].to_json_unique()
        } else if shape == 1 {
            list[i].to_json_index()
        } else {
            list[i].to_json_ft_spatial()
        };
        proof {
            crate::json::lemma_view_arr_push(out@, j);
            assert(list@.take(i + 1) =~= list@.take(i as int).push(list@[i as int]));
            assert(kv(list@.take(i + 1)).map_values(|k: KeyIndexV| key_json(k, shape)) =~= kv(
                list@.take(i as int),
            ).map_values(|k: KeyIndexV| key_json(k, shape)).push(j@));
        }
        out.push(j);
        i += 1;
    }
    assert(list@.take(list.len() as int) =~= list@);
    out
}

/// Appends a list under `key` when it is not empty.
fn put_list(m: &mut Vec<(String, Json)>, key: &str, items: Vec<Json>)
    ensures
        view_obj(final(m)@) == push_list(view_obj(old(m)@), key@, view_arr(items@)),
{
    proof {
        lemma_view_arr(items@);
    }
    if items.len() > 0 {
        put(m, key, Json::Arr(items));
    }
}

/// Copies a list of indexes.
fn clone_keys(list: &Vec<KeyIndex>) -> (r: Vec<KeyIndex>)
    ensures
        kv(r@) == kv(list@),
{
    let mut out: Vec<KeyIndex> = Vec::new();
    let mut i: usize = 0;
    while i < list.len()
        invariant
            0 <= i <= list.len(),
            kv(out@) == kv(list@.take(i as int)),
        decreases list.len() - i,
    {
        let k = list[i].clone_model();
        let ghost before = out@;
        out.push(k);
        proof {
            assert(list@.take(i + 1) =~= list@.take(i as int).push(list@[i as int]));
            assert(kv(out@) =~= kv(before).push(k@));
            assert(kv(list@.take(i + 1)) =~= kv(list@.take(i as int)).push(list@[i as int]@));
        }
        i += 1;
    }
    assert(list@.take(list.len() as int) =~= list@);
    out
}

impl Table {
    /// An empty table.
    pub fn new(name: String, options: Option<TableOptions>) -> (r: Table)
        ensures
            r@ == empty_table(name@, match options {
                Some(o) => Some(o@),
                None => None,
            }),
    {
        let r = Table {
            name,
            columns: Vec::new(),
            options,
            fulltext_indexes: Vec::new(),
            spatial_indexes: Vec::new(),
            foreign_keys: Vec::new(),
            unique_keys: Vec::new(),
            indexes: Vec::new(),
            primary_key: None,
        };
        proof {
            assert(r@.columns =~= Seq::<ColumnV>::empty());
            assert(r@.fulltext =~= Seq::<KeyIndexV>::empty());
            assert(r@.spatial =~= Seq::<KeyIndexV>::empty());
            assert(r@.foreign =~= Seq::<ForeignKeyV>::empty());
            assert(r@.unique =~= Seq::<KeyIndexV>::empty());
            assert(r@.indexes =~= Seq::<KeyIndexV>::empty());
        }
        r
    }

    /// The columns.
    pub fn columns_ref(&self) -> (r: &Vec<Column>)
        ensures
            r@ == self.columns@,
    {
        &self.columns
    }

    /// The index of the first column called `name`.
    pub fn column_index(&self, name: &str) -> (r: Option<usize>)
        ensures
            match r {
                Some(i) => col_index(self@.columns, name@) == Some(i as int),
                None => col_index(self@.columns, name@) is None,
            },
    {
        let ghost p = cname(name@);
        let mut i: usize = 0;
        while i < self.columns.len()
            invariant
                0 <= i <= self.columns.len(),
                p == (cname(name@)),
                forall|j: int| 0 <= j < i ==> !p(#[trigger] cv(self.columns@)[j]),
            decreases self.columns.len() - i,
        {
            if str_eq(self.columns[i].name.as_str(), name) {
                proof {
                    lemma_first_index_at(cv(self.columns@), p, i as int);
                }
                return Some(i);
            }
            i += 1;
        }
        proof {
            lemma_first_index_none(cv(self.columns@), p);
        }
        None
    }

    /// The first column called `name`.
    pub fn get_column(&self, name: &str) -> (r: Option<&Column>)
        ensures
            match r {
                Some(c) => col_index(self@.columns, name@) matches Some(i) && c@ == self@.columns[i],
                None => col_index(self@.columns, name@) is None,
            },
    {
        match self.column_index(name) {
            Some(i) => {
                proof {
                    lemma_first_index(cv(self.columns@), cname(name@));
                }
                Some(&self.columns[i])
            },
            None => None,
        }
    }

    /// The first column called `name`, to change in place.
    pub fn get_column_mut(&mut self, name: &str) -> (r: Option<&mut Column>)
        ensures
            match r {
                Some(c) => col_index(old(self)@.columns, name@) matches Some(i) && *c == old(self).columns@[i]
                    && final(self).columns@ == old(self).columns@.update(i, *final(c)) && final(self)@ == (TableV {
                    columns: cv(final(self).columns@),
                    ..old(self)@
                }),
                None => col_index(old(self)@.columns, name@) is None && *final(self) == *old(self),
            },
    {
        match self.column_index(name) {
            Some(i) => {
                proof {
                    lemma_first_index(self@.columns, cname(name@));
                }
                Some(&mut self.columns[i])
            },
            None => None,
        }
    }

    /// The index of the first foreign key called `name`.
    pub fn get_foreign_key_index(&self, name: &str) -> (r: Option<usize>)
        ensures
            match r {
                Some(i) => first_index(self@.foreign, |k: ForeignKeyV| k.name == Some(name@)) == Some(i as int),
                None => first_index(self@.foreign, |k: ForeignKeyV| k.name == Some(name@)) is None,
            },
    {
        let ghost p = |k: ForeignKeyV| k.name == Some(name@);
        let mut i: usize = 0;
        while i < self.foreign_keys.len()
            invariant
                0 <= i <= self.foreign_keys.len(),
                p == (|k: ForeignKeyV| k.name == Some(name@)),
                forall|j: int| 0 <= j < i ==> !p(#[trigger] fkv(self.foreign_keys@)[j]),
            decreases self.foreign_keys.len() - i,
        {
            let hit = match &self.foreign_keys[i].name {
                Some(n) => str_eq(n.as_str(), name),
                None => false,
            };
            if hit {
                proof {
                    lemma_first_index_at(fkv(self.foreign_keys@), p, i as int);
                }
                return Some(i);
            }
            i += 1;
        }
        proof {
            lemma_first_index_none(fkv(self.foreign_keys@), p);
        }
        None
    }

    /// The collection holding an index called `name`.
    pub fn get_index_kind_by_name(&self, name: &str) -> (r: Option<IndexKind>)
        ensures
            r == spec_index_kind(self@, name@),
    {
        if find_named(&self.unique_keys, name).is_some() {
            return Some(IndexKind::Unique);
        }
        if find_named(&self.indexes, name).is_some() {
            return Some(IndexKind::Index);
        }
        if find_named(&self.fulltext_indexes, name).is_some() {
            return Some(IndexKind::Fulltext);
        }
        if find_named(&self.spatial_indexes, name).is_some() {
            return Some(IndexKind::Spatial);
        }
        None
    }

    /// Whether an index called `name` exists in one of the four collections.
    fn has_named_index(&self, name: &str) -> (r: bool)
        ensures
            r == (spec_index_kind(self@, name@) is Some),
    {
        self.get_index_kind_by_name(name).is_some()
    }

    /// Whether an optional name clashes with an index of the table.
    fn name_taken(&self, name: &Option<String>) -> (r: bool)
        ensures
            r == name_taken(self@, crate::json::opt_str(*name)),
    {
        match name {
            Some(n) => self.has_named_index(n.as_str()),
            None => false,
        }
    }

    /// Adds a fulltext index when its name is free and the table has its
    /// columns.
    pub fn push_fulltext_index(&mut self, index: KeyIndex)
        ensures
            final(self)@ == spec_push_fulltext(old(self)@, index@),
    {
        if self.name_taken(&index.name) || !index.has_all_columns(self) {
            return;
        }
        let ghost before = self.fulltext_indexes@;
        self.fulltext_indexes.push(index);
        assert(kv(self.fulltext_indexes@) =~= kv(before).push(index@));
    }

    /// Adds a spatial index when its name is free and the table has its
    /// columns.
    pub fn push_spatial_index(&mut self, index: KeyIndex)
        ensures
            final(self)@ == spec_push_spatial(old(self)@, index@),
    {
        if self.name_taken(&index.name) || !index.has_all_columns(self) {
            return;
        }
        let ghost before = self.spatial_indexes@;
        self.spatial_indexes.push(index);
        assert(kv(self.spatial_indexes@) =~= kv(before).push(index@));
    }

    /// Adds a unique key when its name is free and the table has its
    /// columns, filling its column lengths from the table.
    pub fn push_unique_key(&mut self, key: KeyIndex)
        ensures
            final(self)@ == spec_push_unique(old(self)@, key@),
    {
        if self.name_taken(&key.name) || !key.has_all_columns(self) {
            return;
        }
        let mut key = key;
        key.set_index_size_from_table(self);
        let ghost before = self.unique_keys@;
        self.unique_keys.push(key);
        assert(kv(self.unique_keys@) =~= kv(before).push(key@));
    }

    /// Adds an index when its name is free and the table has its columns,
    /// filling its column lengths from the table.
    pub fn push_index(&mut self, index: KeyIndex)
        ensures
            final(self)@ == spec_push_index(old(self)@, index@),
    {
        if self.name_taken(&index.name) || !index.has_all_columns(self) {
            return;
        }
        let mut index = index;
        index.set_index_size_from_table(self);
        let ghost before = self.indexes@;
        self.indexes.push(index);
        assert(kv(self.indexes@) =~= kv(before).push(index@));
    }

    /// Adds a foreign key when its name does not clash with an index,
    /// filling its column lengths from the table. The referenced table is not
    /// checked.
    pub fn push_foreign_key(&mut self, key: ForeignKey)
        ensures
            final(self)@ == spec_push_foreign(old(self)@, key@),
    {
        if self.name_taken(&key.name) {
            return;
        }
        let mut key = key;
        key.set_index_size_from_table(self);
        let ghost before = self.foreign_keys@;
        self.foreign_keys.push(key);
        assert(fkv(self.foreign_keys@) =~= fkv(before).push(key@));
    }

    /// Drops the first index called `name` from the given collection.
    pub fn drop_index_by_kind(&mut self, kind: IndexKind, name: &str)
        ensures
            final(self)@ == spec_drop_index(old(self)@, kind, name@),
    {
        match kind {
            IndexKind::Unique => drop_named_in(&mut self.unique_keys, name),
            IndexKind::Index => drop_named_in(&mut self.indexes, name),
            IndexKind::Fulltext => drop_named_in(&mut self.fulltext_indexes, name),
            IndexKind::Spatial => drop_named_in(&mut self.spatial_indexes, name),
        }
    }

    /// Whether some column is autoincrement.
    fn any_autoincrement(&self) -> (r: bool)
        ensures
            r == any_autoinc(self@.columns),
    {
        let mut i: usize = 0;
        while i < self.columns.len()
            invariant
                0 <= i <= self.columns.len(),
                forall|j: int| 0 <= j < i ==> !col_flag(#[trigger] self@.columns[j], "autoincrement"@),
            decreases self.columns.len() - i,
        {
            let a = match &self.columns[i].options {
                Some(o) => o.is_autoincrement(),
                None => false,
            };
            if a {
                assert(col_flag(self@.columns[i as int], "autoincrement"@));
                return true;
            }
            i += 1;
        }
        false
    }

    /// Sets the primary key, unless the table has one or lacks one of its
    /// columns; the first column of each key column's name becomes not
    /// nullable.
    pub fn set_primary_key(&mut self, pk: PrimaryKey)
        ensures
            final(self)@ == spec_set_primary_key(old(self)@, pk@),
    {
        if self.primary_key.is_some() {
            return;
        }
        if !pk.has_all_columns(self) {
            return;
        }
        let empty: Vec<super::models::IndexColumn> = Vec::new();
        let pkc = match &pk.columns {
            Some(c) => c,
            None => &empty,
        };
        assert(super::models::icv(pkc@) =~= pk_cols(pk@));
        let ghost t0 = self@;
        let ghost cols0 = self@.columns;
        // Which columns to change, read before any change.
        let mut marks: Vec<bool> = Vec::new();
        let mut j: usize = 0;
        while j < self.columns.len()
            invariant
                0 <= j <= self.columns.len(),
                self@ == t0,
                cols0 == t0.columns,
                super::models::icv(pkc@) == pk_cols(pk@),
                marks@.len() == j,
                forall|k: int| 0 <= k < j ==> #[trigger] marks@[k] == (has_name(pk_cols(pk@), cols0[k].name)
                    && col_index(cols0, cols0[k].name) == Some(k)),
            decreases self.columns.len() - j,
        {
            let nm = self.columns[j].name.as_str();
            let m = super::keys::cols_have_name(pkc, nm) && match self.column_index(nm) {
                Some(p) => p == j,
                None => false,
            };
            marks.push(m);
            j += 1;
        }
        let mut j: usize = 0;
        while j < self.columns.len()
            invariant
                0 <= j <= self.columns.len(),
                marks@.len() == cols0.len(),
                self.columns@.len() == cols0.len(),
                forall|k: int| 0 <= k < cols0.len() ==> #[trigger] marks@[k] == (has_name(pk_cols(pk@), cols0[k].name)
                    && col_index(cols0, cols0[k].name) == Some(k)),
                self@ == (TableV { columns: cv(self.columns@), ..t0 }),
                forall|k: int| 0 <= k < j ==> #[trigger] cv(self.columns@)[k] == spec_pk_nullable(cols0, pk_cols(pk@))[k],
                forall|k: int| j <= k < cols0.len() ==> #[trigger] cv(self.columns@)[k] == cols0[k],
            decreases self.columns.len() - j,
        {
            assert(cv(self.columns@)[j as int] == cols0[j as int]);
            let ghost before = self.columns@;
            if marks[j] {
                match &mut self.columns[j].options {
                    Some(o) => o.set("nullable", Json::Bool(false)),
                    None => {},
                }
            }
            proof {
                assert(self.columns@ == before.update(j as int, self.columns@[j as int]));
                assert(cv(self.columns@) =~= cv(before).update(j as int, self.columns@[j as int]@));
            }
            assert(cv(self.columns@)[j as int] == spec_pk_nullable(cols0, pk_cols(pk@))[j as int]);
            j += 1;
        }
        assert(cv(self.columns@) =~= spec_pk_nullable(cols0, pk_cols(pk@)));
        self.primary_key = Some(pk);
    }

    /// Whether the table column one of the index columns names is
    /// autoincrement.
    fn key_autoinc(&self, cols: &Vec<super::models::IndexColumn>) -> (r: bool)
        ensures
            r == key_has_autoinc(super::models::icv(cols@), self@.columns),
    {
        let mut i: usize = 0;
        while i < cols.len()
            invariant
                0 <= i <= cols.len(),
                forall|k: int| 0 <= k < i ==> !ic_autoinc(#[trigger] super::models::icv(cols@)[k], self@.columns),
            decreases cols.len() - i,
        {
            let a = match &cols[i].column {
                Some(n) => match self.get_column(n.as_str()) {
                    Some(c) => match &c.options {
                        Some(o) => o.is_autoincrement(),
                        None => false,
                    },
                    None => false,
                },
                None => false,
            };
            assert(a == ic_autoinc(super::models::icv(cols@)[i as int], self@.columns));
            if a {
                return true;
            }
            i += 1;
        }
        false
    }

    /// Drops the primary key unless one of its columns is autoincrement.
    pub fn drop_primary_key(&mut self)
        ensures
            final(self)@ == spec_drop_primary_key(old(self)@),
    {
        let has_autoincrement = match &self.primary_key {
            None => return,
            Some(pk) => match &pk.columns {
                Some(cols) => self.key_autoinc(cols),
                None => {
                    let e: Vec<super::models::IndexColumn> = Vec::new();
                    let r = self.key_autoinc(&e);
                    assert(super::models::icv(e@) =~= Seq::<IndexColumnV>::empty());
                    r
                },
            },
        };
        if has_autoincrement {
            return;
        }
        self.primary_key = None;
    }

    /// Moves the keys a column's definition carries out of the column: a
    /// primary key, a foreign key from its reference, then a unique key.
    pub fn extract_column_keys(&mut self, column_name: &str)
        ensures
            final(self)@ == spec_extract_keys(old(self)@, column_name@),
    {
        let i = match self.column_index(column_name) {
            Some(i) => i,
            None => return,
        };
        proof {
            lemma_first_index(self@.columns, cname(column_name@));
        }
        let ghost t = self@;
        let ghost c0 = t.columns[i as int];
        let ghost cols_before = self.columns@;
        let pk = self.columns[i].extract_primary_key();
        let fk = self.columns[i].extract_foreign_key();
        let uk = self.columns[i].extract_unique_key();
        proof {
            let c1 = if col_flag(c0, "primary"@) {
                without(c0, "primary"@)
            } else {
                c0
            };
            let c2 = ColumnV { reference: None, ..c1 };
            let c3 = if col_flag(c2, "unique"@) {
                without(c2, "unique"@)
            } else {
                c2
            };
            assert(self.columns@ == cols_before.update(i as int, self.columns@[i as int]));
            assert(self.columns@[i as int]@ == c3);
            assert(cv(self.columns@) =~= t.columns.update(i as int, c3));
        }
        match pk {
            Some(pk) => self.set_primary_key(pk),
            None => {},
        }
        match fk {
            Some(fk) => self.push_foreign_key(fk),
            None => {},
        }
        match uk {
            Some(uk) => self.push_unique_key(uk),
            None => {},
        }
    }

    /// Adds a column at a position, unless its name is taken, it is a second
    /// autoincrement column, it is a primary column of a table with a primary
    /// key, or the column it goes after does not exist; then extracts its
    /// keys.
    pub fn add_column(&mut self, column: Column, position: Option<Position>)
        ensures
            final(self)@ == spec_add_column(old(self)@, column@, place_of(position)),
    {
        if self.column_index(column.name.as_str()).is_some() {
            return;
        }
        let auto = match &column.options {
            Some(o) => o.is_autoincrement(),
            None => false,
        };
        if auto && self.any_autoincrement() {
            return;
        }
        if self.primary_key.is_some() && column.is_primary_key() {
            return;
        }
        let name = column.name.clone();
        let ghost c = column@;
        match position {
            None => {
                let ghost before = self.columns@;
                self.columns.push(column);
                assert(cv(self.columns@) =~= cv(before).push(c));
            },
            Some(Position::First) => {
                let ghost before = self.columns@;
                self.columns.insert(0, column);
                assert(cv(self.columns@) =~= cv(before).insert(0, c));
            },
            Some(Position::After(after)) => match self.column_index(after.as_str()) {
                Some(p) => {
                    proof {
                        lemma_first_index(self@.columns, cname(after@));
                    }
                    assert(p < self.columns.len());
                    let ghost before = self.columns@;
                    self.columns.insert(p + 1, column);
                    assert(cv(self.columns@) =~= cv(before).insert(p + 1, c));
                },
                None => return,
            },
        }
        self.extract_column_keys(name.as_str());
    }

    /// Moves a column to a position; tells whether the column and the one it
    /// goes after exist. A column moved after itself keeps its place.
    pub fn move_column(&mut self, column_name: &str, position: &Position) -> (r: bool)
        ensures
            r == move_ok(old(self)@.columns, column_name@, place_of(Some(*position))),
            r ==> final(self)@ == (TableV {
                columns: spec_moved(old(self)@.columns, column_name@, place_of(Some(*position))),
                ..old(self)@
            }),
            !r ==> final(self)@ == old(self)@,
    {
        let cur = match self.column_index(column_name) {
            Some(p) => p,
            None => return false,
        };
        let ghost cols = self@.columns;
        proof {
            lemma_first_index(cols, cname(column_name@));
        }
        match position {
            Position::After(after) => {
                let a = after.as_str();
                let found = self.column_index(a);
                if found.is_none() {
                    return false;
                }
                if str_eq(a, column_name) {
                    return true;
                }
                let ghost before = self.columns@;
                let col = self.columns.remove(cur);
                assert(cv(self.columns@) =~= cols.remove(cur as int));
                proof {
                    let p_a = cname(after@);
                    lemma_first_index(cols, p_a);
                    let k = col_index(cols, after@)->Some_0;
                    let rest = cols.remove(cur as int);
                    if k < cur {
                        assert(p_a(rest[k]));
                    } else {
                        assert(k != cur);
                        assert(p_a(rest[k - 1]));
                    }
                    lemma_first_index(rest, p_a);
                }
                match self.column_index(a) {
                    Some(pos) => {
                        proof {
                            lemma_first_index(cv(self.columns@), cname(after@));
                        }
                        let ghost mid = self.columns@;
                        self.columns.insert(pos + 1, col);
                        assert(cv(self.columns@) =~= cv(mid).insert(pos + 1, col@));
                        true
                    },
                    None => {
                        proof {
                            assert(false);
                        }
                        true
                    },
                }
            },
            Position::First => {
                let col = self.columns.remove(cur);
                let ghost mid = self.columns@;
                assert(cv(mid) =~= cols.remove(cur as int));
                self.columns.insert(0, col);
                assert(cv(self.columns@) =~= cv(mid).insert(0, col@));
                true
            },
        }
    }

    /// The place a column has now: first, or after the column before it.
    pub fn column_position(&self, column_name: &str) -> (r: Position)
        ensures
            place_of(Some(r)) == spec_column_place(self@.columns, column_name@),
    {
        match self.column_index(column_name) {
            Some(i) => if i == 0 {
                Position::First
            } else {
                proof {
                    lemma_first_index(self@.columns, cname(column_name@));
                }
                Position::After(self.columns[i - 1].name.clone())
            },
            None => Position::First,
        }
    }

    /// The compact JSON of this table.
    pub fn to_json(&self) -> (r: Json)
        ensures
            r@ == spec_table_json(self@),
    {
        let mut m: Vec<(String, Json)> = Vec::new();
        put(&mut m, "name", Json::Str(self.name.clone()));
        let mut cols: Vec<Json> = Vec::new();
        let mut i: usize = 0;
        while i < self.columns.len()
            invariant
                0 <= i <= self.columns.len(),
                view_arr(cols@) == cv(self.columns@.take(i as int)).map_values(|c: ColumnV| spec_column_json(c)),
            decreases self.columns.len() - i,
        {
            let j = self.columns[i].to_json();
            proof {
                crate::json::lemma_view_arr_push(cols@, j);
                assert(self.columns@.take(i + 1) =~= self.columns@.take(i as int).push(self.columns@[i as int]));
                assert(cv(self.columns@.take(i + 1)).map_values(|c: ColumnV| spec_column_json(c)) =~= cv(
                    self.columns@.take(i as int),
                ).map_values(|c: ColumnV| spec_column_json(c)).push(j@));
            }
            cols.push(j);
            i += 1;
        }
        assert(self.columns@.take(self.columns.len() as int) =~= self.columns@);
        put(&mut m, "columns", Json::Arr(cols));
        match &self.primary_key {
            Some(pk) => put(&mut m, "primaryKey", pk.to_json()),
            None => {},
        }
        let mut fks: Vec<Json> = Vec::new();
        let mut i: usize = 0;
        while i < self.foreign_keys.len()
            invariant
                0 <= i <= self.foreign_keys.len(),
                view_arr(fks@) == fkv(self.foreign_keys@.take(i as int)).map_values(
                    |k: ForeignKeyV| spec_foreign_key_json(k),
                ),
            decreases self.foreign_keys.len() - i,
        {
            let j = self.foreign_keys[i].to_json();
            proof {
                crate::json::lemma_view_arr_push(fks@, j);
                assert(self.foreign_keys@.take(i + 1) =~= self.foreign_keys@.take(i as int).push(
                    self.foreign_keys@[i as int],
                ));
                assert(fkv(self.foreign_keys@.take(i + 1)).map_values(|k: ForeignKeyV| spec_foreign_key_json(k))
                    =~= fkv(self.foreign_keys@.take(i as int)).map_values(
                    |k: ForeignKeyV| spec_foreign_key_json(k),
                ).push(j@));
            }
            fks.push(j);
            i += 1;
        }
        assert(self.foreign_keys@.take(self.foreign_keys.len() as int) =~= self.foreign_keys@);
        put_list(&mut m, "foreignKeys", fks);
        put_list(&mut m, "uniqueKeys", keys_json(&self.unique_keys, 0));
        put_list(&mut m, "indexes", keys_json(&self.indexes, 1));
        put_list(&mut m, "spatialIndexes", keys_json(&self.spatial_indexes, 2));
        put_list(&mut m, "fulltextIndexes", keys_json(&self.fulltext_indexes, 2));
        match &self.options {
            Some(o) => put(&mut m, "options", o.to_json()),
            None => {},
        }
        proof {
            assert(view_obj(m@) =~= spec_table_json(self@)->Obj_0);
        }
        Json::Obj(m)
    }

    /// A copy of this table; its columns lose their references and the
    /// binary-collation flags of their datatypes.
    pub fn clone_model(&self) -> (r: Table)
        ensures
            r@ == (TableV { columns: self@.columns.map_values(|c: ColumnV| cloned_column(c)), ..self@ }),
    {
        let mut cols: Vec<Column> = Vec::new();
        let mut i: usize = 0;
        while i < self.columns.len()
            invariant
                0 <= i <= self.columns.len(),
                cv(cols@) == cv(self.columns@.take(i as int)).map_values(|c: ColumnV| cloned_column(c)),
            decreases self.columns.len() - i,
        {
            let c = self.columns[i].clone_model();
            let ghost before = cols@;
            cols.push(c);
            proof {
                assert(self.columns@.take(i + 1) =~= self.columns@.take(i as int).push(self.columns@[i as int]));
                assert(cv(cols@) =~= cv(before).push(c@));
                assert(cv(self.columns@.take(i + 1)).map_values(|c: ColumnV| cloned_column(c)) =~= cv(
                    self.columns@.take(i as int),
                ).map_values(|c: ColumnV| cloned_column(c)).push(c@));
            }
            i += 1;
        }
        assert(self.columns@.take(self.columns.len() as int) =~= self.columns@);
        let mut fks: Vec<ForeignKey> = Vec::new();
        let mut i: usize = 0;
        while i < self.foreign_keys.len()
            invariant
                0 <= i <= self.foreign_keys.len(),
                fkv(fks@) == fkv(self.foreign_keys@.take(i as int)),
            decreases self.foreign_keys.len() - i,
        {
            let k = self.foreign_keys[i].clone_model();
            let ghost before = fks@;
            fks.push(k);
            proof {
                assert(self.foreign_keys@.take(i + 1) =~= self.foreign_keys@.take(i as int).push(
                    self.foreign_keys@[i as int],
                ));
                assert(fkv(fks@) =~= fkv(before).push(k@));
                assert(fkv(self.foreign_keys@.take(i + 1)) =~= fkv(self.foreign_keys@.take(i as int)).push(
                    self.foreign_keys@[i as int]@,
                ));
            }
            i += 1;
        }
        assert(self.foreign_keys@.take(self.foreign_keys.len() as int) =~= self.foreign_keys@);
        let r = Table {
            name: self.name.clone(),
            columns: cols,
            options: match &self.options {
                Some(o) => Some(o.clone_model()),
                None => None,
            },
            primary_key: match &self.primary_key {
                Some(pk) => Some(pk.clone_model()),
                None => None,
            },
            unique_keys: clone_keys(&self.unique_keys),
            foreign_keys: fks,
            fulltext_indexes: clone_keys(&self.fulltext_indexes),
            spatial_indexes: clone_keys(&self.spatial_indexes),
            indexes: clone_keys(&self.indexes),
        };
        r
    }

    /// Builds a table from a `P_CREATE_TABLE_COMMON` node: its name and
    /// options, then each create definition in order.
    pub fn from_common_def(json: &Json) -> (r: Table)
        ensures
            r@ == spec_table_from_common(json@),
    {
        let null = Json::Null;
        let def = at(json, "def", &null);
        let name = match at(def, "table", &null).as_str() {
            Some(s) => s.clone(),
            None => {
                let e = string_of("");
                proof {
                    reveal_strlit("");
                }
                assert(e@ =~= Seq::<char>::empty());
                e
            },
        };
        let options = match def.get("tableOptions") {
            Some(o) => if o.is_null() {
                None
            } else {
                Some(TableOptions::from_def(o))
            },
            None => None,
        };
        let mut table = Table::new(name, options);
        let ghost start = table@;
        match at(def, "columnsDef", &null).get("def") {
            Some(Json::Arr(cds)) => {
                let mut i: usize = 0;
                proof {
                    lemma_view_arr(cds@);
                }
                while i < cds.len()
                    invariant
                        0 <= i <= cds.len(),
                        null@ is Null,
                        view_arr(cds@).len() == cds@.len(),
                        forall|k: int| 0 <= k < cds@.len() ==> #[trigger] view_arr(cds@)[k] == view_json(cds@[k]),
                        table@ == apply_create_defs(start, view_arr(cds@).take(i as int)),
                    decreases cds.len() - i,
                {
                    assert(view_arr(cds@).take(i + 1).drop_last() =~= view_arr(cds@).take(i as int));
                    let cd = &cds[i];
                    let inner = at(cd, "def", &null);
                    if inner.defines("column") {
                        table.add_column(Column::from_def(cd), None);
                    } else if inner.defines("fulltextIndex") {
                        table.push_fulltext_index(KeyIndex::from_def(cd, "fulltextIndex"));
                    } else if inner.defines("spatialIndex") {
                        table.push_spatial_index(KeyIndex::from_def(cd, "spatialIndex"));
                    } else if inner.defines("foreignKey") {
                        table.push_foreign_key(ForeignKey::from_def(cd));
                    } else if inner.defines("uniqueKey") {
                        table.push_unique_key(KeyIndex::from_def(cd, "uniqueKey"));
                    } else if inner.defines("primaryKey") {
                        table.set_primary_key(PrimaryKey::from_def(cd));
                    } else if inner.defines("index") {
                        table.push_index(KeyIndex::from_def(cd, "index"));
                    }
                    i += 1;
                }
                assert(view_arr(cds@).take(cds.len() as int) =~= view_arr(cds@));
            },
            _ => {},
        }
        table
    }
}

/// A copied column: without its reference, and its datatype without its
/// binary-collation flag.
pub open spec fn cloned_column(c: ColumnV) -> ColumnV {
    ColumnV {
        reference: None,
        datatype: super::models::DatatypeV { binary_collation: None, ..c.datatype },
        ..c
    }
}


/// A foreign key pointed at `to` when it referenced `from`.
pub open spec fn retarget(k: ForeignKeyV, from: Seq<char>, to: Seq<char>) -> ForeignKeyV {
    if refs_table(k, from) {
        ForeignKeyV { reference: ColumnReferenceV { table: to, ..k.reference }, ..k }
    } else {
        k
    }
}

/// A foreign key whose referenced columns `from` are renamed `to`, when it
/// references the table.
pub open spec fn rename_ref(k: ForeignKeyV, table: Seq<char>, from: Seq<char>, to: Seq<char>) -> ForeignKeyV {
    if refs_table(k, table) {
        ForeignKeyV {
            reference: ColumnReferenceV { columns: spec_rename_cols(k.reference.columns, from, to), ..k.reference },
            ..k
        }
    } else {
        k
    }
}

/// An index with its columns `from` renamed `to`.
pub open spec fn rename_key(k: KeyIndexV, from: Seq<char>, to: Seq<char>) -> KeyIndexV {
    KeyIndexV { columns: spec_rename_cols(k.columns, from, to), ..k }
}

/// A column renamed inside its table: in its indexes and primary key, and
/// the first column of the name.
pub open spec fn spec_rename_in_table(t: TableV, from: Seq<char>, to: Seq<char>) -> TableV {
    let cols = match col_index(t.columns, from) {
        Some(k) => t.columns.update(k, ColumnV { name: to, ..t.columns[k] }),
        None => t.columns,
    };
    TableV {
        columns: cols,
        fulltext: t.fulltext.map_values(|k: KeyIndexV| rename_key(k, from, to)),
        spatial: t.spatial.map_values(|k: KeyIndexV| rename_key(k, from, to)),
        indexes: t.indexes.map_values(|k: KeyIndexV| rename_key(k, from, to)),
        unique: t.unique.map_values(|k: KeyIndexV| rename_key(k, from, to)),
        primary_key: match t.primary_key {
            Some(pk) => Some(match pk.columns {
                Some(c) => PrimaryKeyV { columns: Some(spec_rename_cols(c, from, to)), ..pk },
                None => pk,
            }),
            None => None,
        },
        ..t
    }
}

/// Whether dropping the column empties an index that named it.
pub open spec fn emptied(cols: Seq<IndexColumnV>, name: Seq<char>) -> bool {
    has_name(cols, name) && spec_drop_col(cols, name).len() == 0
}

/// A list of indexes after a column is dropped: the column leaves each
/// index, and an index it empties goes.
pub open spec fn clean_keys(l: Seq<KeyIndexV>, name: Seq<char>) -> Seq<KeyIndexV>
    decreases l.len(),
{
    if l.len() == 0 {
        Seq::empty()
    } else {
        let rest = clean_keys(l.drop_last(), name);
        let k = l.last();
        if emptied(k.columns, name) {
            rest
        } else {
            rest.push(KeyIndexV { columns: spec_drop_col(k.columns, name), ..k })
        }
    }
}

/// The foreign keys after a column is dropped, in the same way.
pub open spec fn clean_fks(l: Seq<ForeignKeyV>, name: Seq<char>) -> Seq<ForeignKeyV>
    decreases l.len(),
{
    if l.len() == 0 {
        Seq::empty()
    } else {
        let rest = clean_fks(l.drop_last(), name);
        let k = l.last();
        if emptied(k.columns, name) {
            rest
        } else {
            rest.push(ForeignKeyV { columns: spec_drop_col(k.columns, name), ..k })
        }
    }
}

/// The primary key after a column is dropped: the column leaves it, and it
/// goes when that empties it.
pub open spec fn clean_pk(pk: Option<PrimaryKeyV>, name: Seq<char>) -> Option<PrimaryKeyV> {
    match pk {
        Some(p) => {
            let removed = has_name(pk_cols(p), name);
            let p2 = match p.columns {
                Some(c) => PrimaryKeyV { columns: Some(spec_drop_col(c, name)), ..p },
                None => p,
            };
            if removed && pk_cols(p2).len() == 0 {
                None
            } else {
                Some(p2)
            }
        },
        None => None,
    }
}

/// Dropping a column from its table: refused for the last column; the
/// column leaves every index and key, and the emptied ones go.
pub open spec fn spec_drop_column_in(t: TableV, name: Seq<char>) -> TableV {
    if t.columns.len() == 1 {
        t
    } else {
        match col_index(t.columns, name) {
            None => t,
            Some(p) => TableV {
                columns: t.columns.remove(p),
                fulltext: clean_keys(t.fulltext, name),
                spatial: clean_keys(t.spatial, name),
                indexes: clean_keys(t.indexes, name),
                unique: clean_keys(t.unique, name),
                foreign: clean_fks(t.foreign, name),
                primary_key: clean_pk(t.primary_key, name),
                ..t
            },
        }
    }
}

/// The table with the `default` of the first column of the name set to `v`,
/// or removed when `v` is none; a column without options is left as it is.
pub open spec fn spec_set_default(t: TableV, name: Seq<char>, v: Option<JsonV>) -> TableV {
    match col_index(t.columns, name) {
        Some(k) => match t.columns[k].options {
            Some(o) => TableV {
                columns: t.columns.update(
                    k,
                    ColumnV {
                        options: Some(match v {
                            Some(x) => fields_insert(o, "default"@, x),
                            None => crate::json::fields_remove(o, "default"@),
                        }),
                        ..t.columns[k]
                    },
                ),
                ..t
            },
            None => t,
        },
        None => t,
    }
}

/// Drops the column from each index of a list, dropping the emptied ones.
fn clean_index_list(list: &mut Vec<KeyIndex>, column_name: &str)
    ensures
        kv(final(list)@) == clean_keys(kv(old(list)@), column_name@),
{
    let ghost orig = kv(list@);
    let ghost mut j: int = 0;
    let mut i: usize = 0;
    while i < list.len()
        invariant
            0 <= i <= j <= orig.len(),
            list@.len() - i == orig.len() - j,
            kv(list@).take(i as int) == clean_keys(orig.take(j), column_name@),
            forall|k: int| i <= k < list@.len() ==> #[trigger] kv(list@)[k] == orig[j + k - i],
        decreases list.len() - i,
    {
        let ghost k0 = orig[j];
        assert(kv(list@)[i as int] == k0);
        assert(orig.take(j + 1).drop_last() =~= orig.take(j));
        let ghost before = list@;
        let removed = list[i].drop_column(column_name);
        assert(list@ == before.update(i as int, list@[i as int]));
        if removed && list[i].columns.len() == 0 {
            assert(emptied(k0.columns, column_name@));
            let ghost mid = list@;
            list.remove(i);
            assert(kv(list@) =~= kv(mid).remove(i as int));
            assert(kv(list@).take(i as int) =~= kv(before).take(i as int));
            assert forall|k: int| i <= k < list@.len() implies #[trigger] kv(list@)[k] == orig[(j + 1) + k - i] by {
                assert(kv(list@)[k] == kv(before)[k + 1]);
            }
        } else {
            assert(!emptied(k0.columns, column_name@));
            assert(kv(list@).take(i + 1) =~= kv(before).take(i as int).push(list@[i as int]@));
            assert forall|k: int| i + 1 <= k < list@.len() implies #[trigger] kv(list@)[k] == orig[(j + 1) + k - (i + 1)] by {
                assert(kv(list@)[k] == kv(before)[k]);
            }
            i += 1;
        }
        proof {
            j = j + 1;
        }
    }
    assert(orig.take(j) =~= orig);
    assert(kv(list@).take(i as int) =~= kv(list@));
}

/// Drops the column from each foreign key, dropping the emptied ones.
fn clean_fk_list(list: &mut Vec<ForeignKey>, column_name: &str)
    ensures
        fkv(final(list)@) == clean_fks(fkv(old(list)@), column_name@),
{
    let ghost orig = fkv(list@);
    let ghost mut j: int = 0;
    let mut i: usize = 0;
    while i < list.len()
        invariant
            0 <= i <= j <= orig.len(),
            list@.len() - i == orig.len() - j,
            fkv(list@).take(i as int) == clean_fks(orig.take(j), column_name@),
            forall|k: int| i <= k < list@.len() ==> #[trigger] fkv(list@)[k] == orig[j + k - i],
        decreases list.len() - i,
    {
        let ghost k0 = orig[j];
        assert(fkv(list@)[i as int] == k0);
        assert(orig.take(j + 1).drop_last() =~= orig.take(j));
        let ghost before = list@;
        let removed = list[i].drop_column(column_name);
        assert(list@ == before.update(i as int, list@[i as int]));
        if removed && list[i].columns.len() == 0 {
            assert(emptied(k0.columns, column_name@));
            let ghost mid = list@;
            list.remove(i);
            assert(fkv(list@) =~= fkv(mid).remove(i as int));
            assert(fkv(list@).take(i as int) =~= fkv(before).take(i as int));
            assert forall|k: int| i <= k < list@.len() implies #[trigger] fkv(list@)[k] == orig[(j + 1) + k - i] by {
                assert(fkv(list@)[k] == fkv(before)[k + 1]);
            }
        } else {
            assert(!emptied(k0.columns, column_name@));
            assert(fkv(list@).take(i + 1) =~= fkv(before).take(i as int).push(list@[i as int]@));
            assert forall|k: int| i + 1 <= k < list@.len() implies #[trigger] fkv(list@)[k] == orig[(j + 1) + k - (i + 1)] by {
                assert(fkv(list@)[k] == fkv(before)[k]);
            }
            i += 1;
        }
        proof {
            j = j + 1;
        }
    }
    assert(orig.take(j) =~= orig);
    assert(fkv(list@).take(i as int) =~= fkv(list@));
}

impl Table {
    /// Points the foreign keys that reference table `from` at `to`.
    pub fn retarget_foreign_keys(&mut self, from: &str, to: &str)
        ensures
            final(self)@ == (TableV {
                foreign: old(self)@.foreign.map_values(|k: ForeignKeyV| retarget(k, from@, to@)),
                ..old(self)@
            }),
    {
        let ghost t0 = self@;
        let mut j: usize = 0;
        while j < self.foreign_keys.len()
            invariant
                0 <= j <= self.foreign_keys.len(),
                self.foreign_keys@.len() == t0.foreign.len(),
                self@ == (TableV { foreign: fkv(self.foreign_keys@), ..t0 }),
                forall|k: int| 0 <= k < j ==> #[trigger] fkv(self.foreign_keys@)[k] == retarget(t0.foreign[k], from@, to@),
                forall|k: int| j <= k < t0.foreign.len() ==> #[trigger] fkv(self.foreign_keys@)[k] == t0.foreign[k],
            decreases self.foreign_keys.len() - j,
        {
            assert(fkv(self.foreign_keys@)[j as int] == t0.foreign[j as int]);
            let ghost before = self.foreign_keys@;
            if self.foreign_keys[j].references_table(from) {
                self.foreign_keys[j].update_referenced_table_name(to);
            }
            assert(self.foreign_keys@ == before.update(j as int, self.foreign_keys@[j as int]));
            assert(fkv(self.foreign_keys@) =~= fkv(before).update(j as int, self.foreign_keys@[j as int]@));
            j += 1;
        }
        assert(fkv(self.foreign_keys@) =~= t0.foreign.map_values(|k: ForeignKeyV| retarget(k, from@, to@)));
    }

    /// Renames the referenced columns `from` to `to` in the foreign keys that
    /// reference table `table`.
    pub fn rename_referenced_columns(&mut self, table: &str, from: &str, to: &str)
        ensures
            final(self)@ == (TableV {
                foreign: old(self)@.foreign.map_values(|k: ForeignKeyV| rename_ref(k, table@, from@, to@)),
                ..old(self)@
            }),
    {
        let ghost t0 = self@;
        let mut j: usize = 0;
        while j < self.foreign_keys.len()
            invariant
                0 <= j <= self.foreign_keys.len(),
                self.foreign_keys@.len() == t0.foreign.len(),
                self@ == (TableV { foreign: fkv(self.foreign_keys@), ..t0 }),
                forall|k: int| 0 <= k < j ==> #[trigger] fkv(self.foreign_keys@)[k] == rename_ref(t0.foreign[k], table@, from@, to@),
                forall|k: int| j <= k < t0.foreign.len() ==> #[trigger] fkv(self.foreign_keys@)[k] == t0.foreign[k],
            decreases self.foreign_keys.len() - j,
        {
            assert(fkv(self.foreign_keys@)[j as int] == t0.foreign[j as int]);
            let ghost before = self.foreign_keys@;
            if self.foreign_keys[j].references_table(table) {
                self.foreign_keys[j].rename_column(from, to);
            }
            assert(self.foreign_keys@ == before.update(j as int, self.foreign_keys@[j as int]));
            assert(fkv(self.foreign_keys@) =~= fkv(before).update(j as int, self.foreign_keys@[j as int]@));
            j += 1;
        }
        assert(fkv(self.foreign_keys@) =~= t0.foreign.map_values(|k: ForeignKeyV| rename_ref(k, table@, from@, to@)));
    }

    /// Whether a foreign key of this table references table `name`.
    pub fn references_table(&self, name: &str) -> (r: bool)
        ensures
            r == exists|k: int| 0 <= k < self@.foreign.len() && refs_table(#[trigger] self@.foreign[k], name@),
    {
        let mut j: usize = 0;
        while j < self.foreign_keys.len()
            invariant
                0 <= j <= self.foreign_keys.len(),
                forall|k: int| 0 <= k < j ==> !refs_table(#[trigger] self@.foreign[k], name@),
            decreases self.foreign_keys.len() - j,
        {
            if self.foreign_keys[j].references_table(name) {
                assert(refs_table(self@.foreign[j as int], name@));
                return true;
            }
            j += 1;
        }
        false
    }

    /// Whether a foreign key of this table references the column of table
    /// `name`.
    pub fn references_column(&self, name: &str, column: &str) -> (r: bool)
        ensures
            r == exists|k: int| 0 <= k < self@.foreign.len() && refs_column(#[trigger] self@.foreign[k], name@, column@),
    {
        let mut j: usize = 0;
        while j < self.foreign_keys.len()
            invariant
                0 <= j <= self.foreign_keys.len(),
                forall|k: int| 0 <= k < j ==> !refs_column(#[trigger] self@.foreign[k], name@, column@),
            decreases self.foreign_keys.len() - j,
        {
            if self.foreign_keys[j].references_table_and_column(name, column) {
                assert(refs_column(self@.foreign[j as int], name@, column@));
                return true;
            }
            j += 1;
        }
        false
    }

    /// Renames a column inside this table: in its indexes and primary key,
    /// and the first column of the name.
    pub fn rename_column_here(&mut self, from: &str, to: &str)
        ensures
            final(self)@ == spec_rename_in_table(old(self)@, from@, to@),
    {
        rename_in_keys(&mut self.fulltext_indexes, from, to);
        rename_in_keys(&mut self.spatial_indexes, from, to);
        rename_in_keys(&mut self.indexes, from, to);
        rename_in_keys(&mut self.unique_keys, from, to);
        match &mut self.primary_key {
            Some(pk) => pk.rename_column(from, to),
            None => {},
        }
        match self.column_index(from) {
            Some(k) => {
                proof {
                    lemma_first_index(self@.columns, cname(from@));
                }
                let ghost before = self.columns@;
                self.columns[k].name = string_of(to);
                assert(cv(self.columns@) =~= cv(before).update(k as int, self.columns@[k as int]@));
            },
            None => {},
        }
    }

    /// Drops a column, unless it is the last one; the column leaves every
    /// index and key, and the emptied ones go.
    pub fn drop_column_here(&mut self, column_name: &str)
        ensures
            final(self)@ == spec_drop_column_in(old(self)@, column_name@),
    {
        if self.columns.len() == 1 {
            return;
        }
        let pos = match self.column_index(column_name) {
            Some(p) => p,
            None => return,
        };
        proof {
            lemma_first_index(self@.columns, cname(column_name@));
        }
        let ghost before = self.columns@;
        self.columns.remove(pos);
        assert(cv(self.columns@) =~= cv(before).remove(pos as int));
        clean_index_list(&mut self.fulltext_indexes, column_name);
        clean_index_list(&mut self.spatial_indexes, column_name);
        clean_index_list(&mut self.indexes, column_name);
        clean_index_list(&mut self.unique_keys, column_name);
        clean_fk_list(&mut self.foreign_keys, column_name);
        let drop_pk = match &mut self.primary_key {
            Some(pk) => {
                let removed = pk.drop_column(column_name);
                let empty = match &pk.columns {
                    Some(c) => c.len() == 0,
                    None => true,
                };
                removed && empty
            },
            None => false,
        };
        if drop_pk {
            self.primary_key = None;
        }
    }

    /// Changes the options of the first column of the name: sets or removes
    /// its `default`.
    pub fn set_column_default(&mut self, column: &str, value: Option<Json>)
        ensures
            final(self)@ == spec_set_default(old(self)@, column@, crate::json::opt_json(value)),
    {
        let ghost vv = crate::json::opt_json(value);
        let ghost t0 = self@;
        match self.column_index(column) {
            Some(k) => {
                proof {
                    lemma_first_index(self@.columns, cname(column@));
                }
                let ghost before = self.columns@;
                let mut c = self.columns.remove(k);
                let ghost c0 = c@;
                match &mut c.options {
                    Some(o) => match value {
                        Some(v) => o.set("default", v),
                        None => o.remove("default"),
                    },
                    None => {},
                }
                assert(c@ == (match c0.options {
                    Some(o) => ColumnV {
                        options: Some(match vv {
                            Some(x) => fields_insert(o, "default"@, x),
                            None => crate::json::fields_remove(o, "default"@),
                        }),
                        ..c0
                    },
                    None => c0,
                }));
                self.columns.insert(k, c);
                assert(self.columns@ =~= before.update(k as int, c));
                assert(cv(self.columns@) =~= cv(before).update(k as int, c@));
                assert(c0 == t0.columns[k as int]);
                assert(self@.columns == spec_set_default(t0, column@, vv).columns);
                assert(self@ == spec_set_default(t0, column@, vv));
            },
            None => {},
        }
    }

    /// Drops the first foreign key called `key`.
    pub fn drop_foreign_key(&mut self, key: &str)
        ensures
            final(self)@ == spec_drop_foreign_key(old(self)@, key@),
    {
        match self.get_foreign_key_index(key) {
            Some(p) => {
                proof {
                    lemma_first_index(self@.foreign, |k: ForeignKeyV| k.name == Some(key@));
                }
                let ghost before = self.foreign_keys@;
                self.foreign_keys.remove(p);
                assert(fkv(self.foreign_keys@) =~= fkv(before).remove(p as int));
            },
            None => {},
        }
    }

    /// Renames the first index called `index` in the collection that holds
    /// one.
    pub fn rename_index(&mut self, index: &str, new_name: &str)
        ensures
            final(self)@ == spec_rename_index(old(self)@, index@, new_name@),
    {
        match self.get_index_kind_by_name(index) {
            Some(IndexKind::Unique) => rename_named_in(&mut self.unique_keys, index, new_name),
            Some(IndexKind::Index) => rename_named_in(&mut self.indexes, index, new_name),
            Some(IndexKind::Fulltext) => rename_named_in(&mut self.fulltext_indexes, index, new_name),
            Some(IndexKind::Spatial) => rename_named_in(&mut self.spatial_indexes, index, new_name),
            None => {},
        }
    }

    /// Gives the table a new name.
    pub fn rename_to(&mut self, name: &str)
        ensures
            final(self)@ == (TableV { name: name@, ..old(self)@ }),
    {
        self.name = string_of(name);
    }

    /// Drops the first index called `name` from the collection that holds
    /// one.
    pub fn drop_index_named(&mut self, name: &str)
        ensures
            final(self)@ == (match spec_index_kind(old(self)@, name@) {
                Some(kind) => spec_drop_index(old(self)@, kind, name@),
                None => old(self)@,
            }),
    {
        match self.get_index_kind_by_name(name) {
            Some(kind) => self.drop_index_by_kind(kind, name),
            None => {},
        }
    }

    /// Gives the column at `k` a datatype and options.
    pub fn set_column_definition(&mut self, k: usize, datatype: super::models::Datatype, options: super::models::ColumnOptions)
        requires
            k < old(self).columns.len(),
        ensures
            final(self)@ == (TableV {
                columns: old(self)@.columns.update(
                    k as int,
                    ColumnV { datatype: datatype@, options: Some(options@), ..old(self)@.columns[k as int] },
                ),
                ..old(self)@
            }),
    {
        let ghost before = self.columns@;
        let mut c = self.columns.remove(k);
        c.datatype = datatype;
        c.options = Some(options);
        self.columns.insert(k, c);
        assert(self.columns@ =~= before.update(k as int, c));
        assert(cv(self.columns@) =~= cv(before).update(k as int, c@));
    }

    /// Writes options over the table's, creating them when it has none.
    pub fn merge_options(&mut self, opts: &TableOptions)
        ensures
            final(self)@ == (TableV {
                options: Some(super::table_options::merge_upto(
                    match old(self)@.options {
                        Some(o) => o,
                        None => Seq::empty(),
                    },
                    opts@,
                    31,
                )),
                ..old(self)@
            }),
    {
        match &mut self.options {
            Some(o) => o.merge_with(opts),
            None => {
                let mut o = TableOptions::new();
                o.merge_with(opts);
                self.options = Some(o);
            },
        }
    }
}

/// The table without its first foreign key called `key`.
pub open spec fn spec_drop_foreign_key(t: TableV, key: Seq<char>) -> TableV {
    match first_index(t.foreign, |k: ForeignKeyV| k.name == Some(key)) {
        Some(p) => TableV { foreign: t.foreign.remove(p), ..t },
        None => t,
    }
}

/// The table with the first index called `index` renamed, in the collection
/// that holds one.
pub open spec fn spec_rename_index(t: TableV, index: Seq<char>, new_name: Seq<char>) -> TableV {
    match spec_index_kind(t, index) {
        Some(IndexKind::Unique) => TableV { unique: rename_named(t.unique, index, new_name), ..t },
        Some(IndexKind::Index) => TableV { indexes: rename_named(t.indexes, index, new_name), ..t },
        Some(IndexKind::Fulltext) => TableV { fulltext: rename_named(t.fulltext, index, new_name), ..t },
        Some(IndexKind::Spatial) => TableV { spatial: rename_named(t.spatial, index, new_name), ..t },
        None => t,
    }
}

/// The table without the first index called `name` in the given collection.
pub open spec fn spec_drop_index(t: TableV, kind: IndexKind, name: Seq<char>) -> TableV {
    match kind {
        IndexKind::Unique => TableV { unique: drop_named(t.unique, name), ..t },
        IndexKind::Index => TableV { indexes: drop_named(t.indexes, name), ..t },
        IndexKind::Fulltext => TableV { fulltext: drop_named(t.fulltext, name), ..t },
        IndexKind::Spatial => TableV { spatial: drop_named(t.spatial, name), ..t },
    }
}

/// The list with the first index called `name` renamed.
pub open spec fn rename_named(l: Seq<KeyIndexV>, name: Seq<char>, new_name: Seq<char>) -> Seq<KeyIndexV> {
    match first_index(l, kname(name)) {
        Some(p) => l.update(p, KeyIndexV { name: Some(new_name), ..l[p] }),
        None => l,
    }
}

/// Renames the first index called `name`.
fn rename_named_in(list: &mut Vec<KeyIndex>, name: &str, new_name: &str)
    ensures
        kv(final(list)@) == rename_named(kv(old(list)@), name@, new_name@),
{
    match find_named(list, name) {
        Some(p) => {
            proof {
                lemma_first_index(kv(list@), kname(name@));
            }
            let ghost before = list@;
            list[p].name = Some(string_of(new_name));
            assert(kv(list@) =~= kv(before).update(p as int, list@[p as int]@));
        },
        None => {},
    }
}

/// Renames a column in each index of a list.
fn rename_in_keys(list: &mut Vec<KeyIndex>, from: &str, to: &str)
    ensures
        kv(final(list)@) == kv(old(list)@).map_values(|k: KeyIndexV| rename_key(k, from@, to@)),
{
    let ghost orig = kv(list@);
    let mut i: usize = 0;
    while i < list.len()
        invariant
            0 <= i <= list.len(),
            list@.len() == orig.len(),
            forall|k: int| 0 <= k < i ==> #[trigger] kv(list@)[k] == rename_key(orig[k], from@, to@),
            forall|k: int| i <= k < orig.len() ==> #[trigger] kv(list@)[k] == orig[k],
        decreases list.len() - i,
    {
        assert(kv(list@)[i as int] == orig[i as int]);
        let ghost before = list@;
        list[i].rename_column(from, to);
        assert(kv(list@) =~= kv(before).update(i as int, list@[i as int]@));
        i += 1;
    }
    assert(kv(list@) =~= orig.map_values(|k: KeyIndexV| rename_key(k, from@, to@)));
}

} // verus!
