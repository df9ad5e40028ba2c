//! Index and key models: primary key, unique key, index, fulltext, spatial
//! and foreign key.

use vstd::prelude::*;

use crate::json::{at, lemma_view_arr, opt_str, put, view_obj, Json, JsonV};

use super::column::{cv, ColumnV};
use super::models::{clone_index_columns, clone_opt_str, icv, index_columns_from, index_columns_json, lower_opt, push_str, spec_column_reference, spec_column_reference_json, spec_index_column_json, spec_index_column_node, spec_index_options, spec_index_options_json, spec_max_indexable_size, ColumnReference, ColumnReferenceV, Fields, IndexColumn, IndexColumnV, IndexOptions, IndexOptionsV};
use super::table::Table;
use super::util::{first_index, i64_text, int_text, lemma_first_index_at, lemma_first_index_none};

verus! {

/// The view of optional index options.
pub open spec fn opt_index_options(o: Option<IndexOptions>) -> Option<IndexOptionsV> {
    match o {
        Some(x) => Some(x@),
        None => None,
    }
}

/// The index columns listed under `columns` in an object.
pub open spec fn spec_columns_from(j: JsonV) -> Seq<IndexColumnV> {
    match j.get("columns"@) {
        Some(JsonV::Arr(a)) => a.map_values(|c: JsonV| spec_index_column_node(c)),
        _ => Seq::empty(),
    }
}

/// The name under `name` when it is a non-empty string.
pub open spec fn spec_name_from(j: JsonV) -> Option<Seq<char>> {
    match j.get("name"@) {
        Some(JsonV::Str(s)) => if s.len() > 0 {
            Some(s)
        } else {
            None
        },
        _ => None,
    }
}

/// The lowercased index type under `index.def`.
pub open spec fn spec_index_type_from(j: JsonV) -> Option<Seq<char>> {
    match j.get("index"@) {
        Some(v) => if v is Null {
            None
        } else {
            lower_opt(v.get_str("def"@))
        },
        None => None,
    }
}

/// The index options under `options` when the list is not empty.
pub open spec fn spec_options_from(j: JsonV) -> Option<IndexOptionsV> {
    match j.get("options"@) {
        Some(JsonV::Arr(a)) => if a.len() > 0 {
            Some(spec_index_options(a))
        } else {
            None
        },
        _ => None,
    }
}

/// Whether an index column names `name`.
pub open spec fn names(c: IndexColumnV, name: Seq<char>) -> bool {
    c.column == Some(name)
}

/// Whether one of the index columns names `name`.
pub open spec fn has_name(cols: Seq<IndexColumnV>, name: Seq<char>) -> bool {
    exists|i: int| 0 <= i < cols.len() && names(#[trigger] cols[i], name)
}

/// The predicate that an index column names `name`.
pub open spec fn named(name: Seq<char>) -> spec_fn(IndexColumnV) -> bool {
    |c: IndexColumnV| names(c, name)
}

/// The index columns without the first one that names `name`.
pub open spec fn spec_drop_col(cols: Seq<IndexColumnV>, name: Seq<char>) -> Seq<IndexColumnV> {
    match first_index(cols, named(name)) {
        Some(i) => cols.remove(i),
        None => cols,
    }
}

/// The index columns with every `old` column renamed to `new`.
pub open spec fn spec_rename_cols(cols: Seq<IndexColumnV>, old: Seq<char>, new: Seq<char>) -> Seq<
    IndexColumnV,
> {
    cols.map_values(
        |c: IndexColumnV|
            if names(c, old) {
                IndexColumnV { column: Some(new), ..c }
            } else {
                c
            },
    )
}

/// How many table columns one of the index columns names.
pub open spec fn count_named(tcols: Seq<ColumnV>, cols: Seq<IndexColumnV>) -> nat
    decreases tcols.len(),
{
    if tcols.len() == 0 {
        0
    } else {
        count_named(tcols.drop_last(), cols) + if has_name(cols, tcols.last().name) {
            1nat
        } else {
            0nat
        }
    }
}

/// Whether the table has all of the index columns: as many table columns are
/// named by them as there are index columns.
pub open spec fn spec_has_all(cols: Seq<IndexColumnV>, tcols: Seq<ColumnV>) -> bool {
    count_named(tcols, cols) == cols.len()
}

/// Whether a column is called `name`.
pub open spec fn cname(name: Seq<char>) -> spec_fn(ColumnV) -> bool {
    |c: ColumnV| c.name == name
}

/// The index of the first table column called `name`.
pub open spec fn col_index(tcols: Seq<ColumnV>, name: Seq<char>) -> Option<int> {
    first_index(tcols, cname(name))
}

/// An index column whose length is unset takes the indexable length of the
/// table column it names, when that length is positive.
pub open spec fn sized(c: IndexColumnV, tcols: Seq<ColumnV>) -> IndexColumnV {
    match (c.length, c.column) {
        (None, Some(n)) => match col_index(tcols, n) {
            Some(k) => if spec_max_indexable_size(tcols[k].datatype) > 0 {
                IndexColumnV {
                    length: Some(JsonV::Num(int_text(spec_max_indexable_size(tcols[k].datatype)))),
                    ..c
                }
            } else {
                c
            },
            None => c,
        },
        _ => c,
    }
}

/// The index columns with their unset lengths filled from the table.
pub open spec fn spec_sized(cols: Seq<IndexColumnV>, tcols: Seq<ColumnV>) -> Seq<IndexColumnV> {
    cols.map_values(|c: IndexColumnV| sized(c, tcols))
}

/// The JSON array of index columns.
pub open spec fn cols_json(cols: Seq<IndexColumnV>) -> JsonV {
    JsonV::Arr(cols.map_values(|c: IndexColumnV| spec_index_column_json(c)))
}

/// Appends the JSON of index options when there are some.
pub open spec fn push_options(fs: Fields, o: Option<IndexOptionsV>) -> Fields {
    match o {
        Some(x) => fs.push(("options"@, spec_index_options_json(x))),
        None => fs,
    }
}

/// Drops the first index column that names `name`; tells whether one did.
fn drop_col(cols: &mut Vec<IndexColumn>, name: &str) -> (r: bool)
    ensures
        icv(final(cols)@) == spec_drop_col(icv(old(cols)@), name@),
        r == has_name(icv(old(cols)@), name@),
{
    let ghost p = named(name@);
    let mut i: usize = 0;
    while i < cols.len()
        invariant
            0 <= i <= cols.len(),
            p == named(name@),
            cols@ == old(cols)@,
            forall|j: int| 0 <= j < i ==> !names(#[trigger] icv(cols@)[j], name@),
        decreases cols.len() - i,
    {
        let hit = match &cols[i].column {
            Some(c) => crate::json::str_eq(c.as_str(), name),
            None => false,
        };
        if hit {
            proof {
                lemma_first_index_at(icv(cols@), p, i as int);
                assert(names(icv(cols@)[i as int], name@));
            }
            let ghost before = cols@;
            cols.remove(i);
            assert(icv(cols@) =~= icv(before).remove(i as int));
            return true;
        }
        i += 1;
    }
    proof {
        lemma_first_index_none(icv(cols@), p);
        assert forall|j: int| 0 <= j < icv(cols@).len() implies !names(#[trigger] icv(cols@)[j], name@) by {
            assert(!p(icv(cols@)[j]));
        }
    }
    false
}

/// Renames every index column that names `old` to `new`.
fn rename_cols(cols: &mut Vec<IndexColumn>, from: &str, to: &str)
    ensures
        icv(final(cols)@) == spec_rename_cols(icv(old(cols)@), from@, to@),
{
    let ghost start = icv(cols@);
    let ghost start_cols = cols@;
    let mut i: usize = 0;
    while i < cols.len()
        invariant
            0 <= i <= cols.len(),
            start == icv(start_cols),
            cols@.len() == start_cols.len(),
            icv(cols@).len() == start.len(),
            forall|j: int| 0 <= j < i ==> #[trigger] icv(cols@)[j] == spec_rename_cols(start, from@, to@)[j],
            forall|j: int| i <= j < cols.len() ==> #[trigger] icv(cols@)[j] == start[j],
        decreases cols.len() - i,
    {
        assert(icv(cols@)[i as int] == start[i as int]);
        let hit = match &cols[i].column {
            Some(c) => crate::json::str_eq(c.as_str(), from),
            None => false,
        };
        assert(hit == names(start[i as int], from@));
        if hit {
            let mut c = cols[i].clone_model();
            c.column = Some(crate::json::string_of(to));
            let ghost before = cols@;
            cols.set(i, c);
            assert(icv(cols@) =~= icv(before).update(i as int, c@));
        }
        assert(icv(cols@)[i as int] == spec_rename_cols(start, from@, to@)[i as int]) by {
            assert(start[i as int] == icv(start_cols)[i as int]);
            if hit {
                assert(names(start[i as int], from@));
            } else {
                assert(!names(start[i as int], from@));
                assert(icv(cols@)[i as int] == start[i as int]);
            }
        }
        i += 1;
    }
    assert(icv(cols@) =~= spec_rename_cols(start, from@, to@));
}

/// Whether one of the index columns names `name`.
pub fn cols_have_name(cols: &Vec<IndexColumn>, name: &str) -> (r: bool)
    ensures
        r == has_name(icv(cols@), name@),
{
    let mut i: usize = 0;
    while i < cols.len()
        invariant
            0 <= i <= cols.len(),
            forall|j: int| 0 <= j < i ==> !names(#[trigger] icv(cols@)[j], name@),
        decreases cols.len() - i,
    {
        let hit = match &cols[i].column {
            Some(c) => crate::json::str_eq(c.as_str(), name),
            None => false,
        };
        if hit {
            assert(names(icv(cols@)[i as int], name@));
            return true;
        }
        i += 1;
    }
    false
}

/// Whether the table has all of the index columns.
fn has_all_columns_of(cols: &Vec<IndexColumn>, table: &Table) -> (r: bool)
    ensures
        r == spec_has_all(icv(cols@), cv(table.columns@)),
{
    let tc = table.columns_ref();
    let mut count: usize = 0;
    let mut i: usize = 0;
    while i < tc.len()
        invariant
            0 <= i <= tc.len(),
            count == count_named(cv(tc@.take(i as int)), icv(cols@)),
            count <= i,
        decreases tc.len() - i,
    {
        proof {
            assert(cv(tc@.take(i + 1)).drop_last() =~= cv(tc@.take(i as int)));
        }
        if cols_have_name(cols, tc[i].name.as_str()) {
            count += 1;
        }
        i += 1;
    }
    assert(tc@.take(tc.len() as int) =~= tc@);
    count == cols.len()
}

/// Fills unset index column lengths from the table's datatypes.
fn set_index_size(cols: &mut Vec<IndexColumn>, table: &Table)
    ensures
        icv(final(cols)@) == spec_sized(icv(old(cols)@), cv(table.columns@)),
{
    let ghost start = icv(cols@);
    let ghost tcols = cv(table.columns@);
    let mut i: usize = 0;
    while i < cols.len()
        invariant
            0 <= i <= cols.len(),
            tcols == cv(table.columns@),
            icv(cols@).len() == start.len(),
            forall|j: int| 0 <= j < i ==> #[trigger] icv(cols@)[j] == sized(start[j], tcols),
            forall|j: int| i <= j < cols.len() ==> #[trigger] icv(cols@)[j] == start[j],
        decreases cols.len() - i,
    {
        assert(icv(cols@)[i as int] == start[i as int]);
        if cols[i].length.is_none() {
            match &cols[i].column {
                Some(name) => {
                    match table.get_column(name.as_str()) {
                        Some(col) => {
                            let size = col.datatype.max_indexable_size();
                            if size > 0 {
                                let mut c = cols[i].clone_model();
                                c.length = Some(Json::Num(i64_text(size)));
                                let ghost before = cols@;
                                cols.set(i, c);
                                assert(icv(cols@) =~= icv(before).update(i as int, c@));
                            }
                        },
                        None => {},
                    }
                },
                None => {},
            }
        }
        assert(icv(cols@)[i as int] == sized(start[i as int], tcols));
        i += 1;
    }
    assert(icv(cols@) =~= spec_sized(start, tcols));
}

/// Reads the index columns under `columns`.
fn columns_from(json: &Json) -> (r: Vec<IndexColumn>)
    ensures
        icv(r@) == spec_columns_from(json@),
{
    match json.get("columns") {
        Some(Json::Arr(a)) => index_columns_from(a),
        _ => Vec::new(),
    }
}

/// Reads the name when it is a non-empty string.
fn name_from(json: &Json) -> (r: Option<String>)
    ensures
        opt_str(r) == spec_name_from(json@),
{
    match json.get("name") {
        Some(Json::Str(s)) => if s.as_str().unicode_len() > 0 {
            Some(s.clone())
        } else {
            None
        },
        _ => None,
    }
}

/// Reads the lowercased index type under `index.def`.
fn index_type_from(json: &Json) -> (r: Option<String>)
    ensures
        opt_str(r) == spec_index_type_from(json@),
{
    match json.get("index") {
        Some(v) => if v.is_null() {
            None
        } else {
            super::models::get_lower(v, "def")
        },
        None => None,
    }
}

/// Reads the index options when the list is not empty.
fn options_from(json: &Json) -> (r: Option<IndexOptions>)
    ensures
        opt_index_options(r) == spec_options_from(json@),
{
    match json.get("options") {
        Some(Json::Arr(a)) => if a.len() > 0 {
            proof {
                lemma_view_arr(a@);
            }
            Some(IndexOptions::from_array(a))
        } else {
            proof {
                lemma_view_arr(a@);
            }
            None
        },
        _ => None,
    }
}

/// A copy of optional index options.
fn clone_options(o: &Option<IndexOptions>) -> (r: Option<IndexOptions>)
    ensures
        opt_index_options(r) == opt_index_options(*o),
{
    match o {
        Some(x) => Some(x.clone_model()),
        None => None,
    }
}

/// Appends the JSON of index options when there are some.
fn put_options(m: &mut Vec<(String, Json)>, o: &Option<IndexOptions>)
    ensures
        view_obj(final(m)@) == push_options(view_obj(old(m)@), opt_index_options(*o)),
{
    match o {
        Some(x) => put(m, "options", x.to_json()),
        None => {},
    }
}

/// The index column for a single table column.
pub fn single_column(name: &String) -> (r: IndexColumn)
    ensures
        r@ == (IndexColumnV { column: Some(name@), length: None, sort: None }),
{
    IndexColumn { column: Some(name.clone()), length: None, sort: None }
}

// -------------------------------------------------------------- PrimaryKey
/// A primary key.
pub struct PrimaryKey {
    pub name: Option<String>,
    pub index_type: Option<String>,
    pub columns: Option<Vec<IndexColumn>>,
    pub options: Option<IndexOptions>,
}

/// The value of a [`PrimaryKey`].
pub struct PrimaryKeyV {
    pub name: Option<Seq<char>>,
    pub index_type: Option<Seq<char>>,
    pub columns: Option<Seq<IndexColumnV>>,
    pub options: Option<IndexOptionsV>,
}

impl View for PrimaryKey {
    type V = PrimaryKeyV;

    open spec fn view(&self) -> PrimaryKeyV {
        PrimaryKeyV {
            name: opt_str(self.name),
            index_type: opt_str(self.index_type),
            columns: match self.columns {
                Some(c) => Some(icv(c@)),
                None => None,
            },
            options: opt_index_options(self.options),
        }
    }
}

/// The index columns of a primary key; none when it has no list.
pub open spec fn pk_cols(pk: PrimaryKeyV) -> Seq<IndexColumnV> {
    match pk.columns {
        Some(c) => c,
        None => Seq::empty(),
    }
}

/// The primary key a plain object describes.
pub open spec fn spec_primary_key_from(j: JsonV) -> PrimaryKeyV {
    PrimaryKeyV {
        name: spec_name_from(j),
        index_type: spec_index_type_from(j),
        columns: Some(spec_columns_from(j)),
        options: spec_options_from(j),
    }
}

/// The compact JSON of a primary key: columns, name, options, index type.
pub open spec fn spec_primary_key_json(pk: PrimaryKeyV) -> JsonV {
    let f1 = push_str(seq![("columns"@, cols_json(pk_cols(pk)))], "name"@, pk.name);
    JsonV::Obj(push_str(push_options(f1, pk.options), "indexType"@, pk.index_type))
}

impl PrimaryKey {
    /// Builds a primary key from a create definition holding `primaryKey`.
    pub fn from_def(json: &Json) -> (r: PrimaryKey)
        ensures
            r@ == spec_primary_key_from(json@.at("def"@).at("primaryKey"@)),
    {
        let null = Json::Null;
        PrimaryKey::from_object(at(at(json, "def", &null), "primaryKey", &null))
    }

    /// Builds a primary key from a plain object.
    pub fn from_object(json: &Json) -> (r: PrimaryKey)
        ensures
            r@ == spec_primary_key_from(json@),
    {
        PrimaryKey {
            columns: Some(columns_from(json)),
            name: name_from(json),
            index_type: index_type_from(json),
            options: options_from(json),
        }
    }

    /// The compact JSON of this primary key.
    pub fn to_json(&self) -> (r: Json)
        ensures
            r@ == spec_primary_key_json(self@),
    {
        let mut m: Vec<(String, Json)> = Vec::new();
        let cols = match &self.columns {
            Some(c) => index_columns_json(c),
            None => {
                let e: Vec<IndexColumn> = Vec::new();
                let j = index_columns_json(&e);
                assert(icv(e@) =~= Seq::<IndexColumnV>::empty());
                j
            },
        };
        put(&mut m, "columns", cols);
        super::models::put_str(&mut m, "name", &self.name);
        put_options(&mut m, &self.options);
        super::models::put_str(&mut m, "indexType", &self.index_type);
        proof {
            assert(view_obj(m@) =~= spec_primary_key_json(self@)->Obj_0);
        }
        Json::Obj(m)
    }

    /// A copy of this primary key.
    pub fn clone_model(&self) -> (r: PrimaryKey)
        ensures
            r@ == self@,
    {
        PrimaryKey {
            name: clone_opt_str(&self.name),
            index_type: clone_opt_str(&self.index_type),
            columns: match &self.columns {
                Some(c) => Some(clone_index_columns(c)),
                None => None,
            },
            options: clone_options(&self.options),
        }
    }

    /// Appends one index column.
    pub fn push_column(&mut self, col: IndexColumn)
        ensures
            final(self)@ == (PrimaryKeyV { columns: Some(pk_cols(old(self)@).push(col@)), ..old(self)@ }),
    {
        match &mut self.columns {
            Some(cols) => {
                let ghost before = cols@;
                cols.push(col);
                assert(icv(cols@) =~= icv(before).push(col@));
            },
            None => {
                let mut v: Vec<IndexColumn> = Vec::new();
                v.push(col);
                assert(icv(v@) =~= Seq::<IndexColumnV>::empty().push(col@));
                self.columns = Some(v);
            },
        }
    }

    /// Drops the first column called `name`; tells whether one was dropped.
    pub fn drop_column(&mut self, name: &str) -> (r: bool)
        ensures
            r == has_name(pk_cols(old(self)@), name@),
            final(self)@ == (match old(self)@.columns {
                Some(c) => PrimaryKeyV { columns: Some(spec_drop_col(c, name@)), ..old(self)@ },
                None => old(self)@,
            }),
    {
        match &mut self.columns {
            Some(cols) => drop_col(cols, name),
            None => false,
        }
    }

    /// Whether the table has all of this key's columns.
    pub fn has_all_columns(&self, table: &Table) -> (r: bool)
        ensures
            r == spec_has_all(pk_cols(self@), cv(table.columns@)),
    {
        match &self.columns {
            Some(c) => has_all_columns_of(c, table),
            None => {
                let e: Vec<IndexColumn> = Vec::new();
                let r = has_all_columns_of(&e, table);
                assert(icv(e@) =~= Seq::<IndexColumnV>::empty());
                r
            },
        }
    }

    /// Renames a column.
    pub fn rename_column(&mut self, from: &str, to: &str)
        ensures
            final(self)@ == (match old(self)@.columns {
                Some(c) => PrimaryKeyV { columns: Some(spec_rename_cols(c, from@, to@)), ..old(self)@ },
                None => old(self)@,
            }),
    {
        match &mut self.columns {
            Some(cols) => rename_cols(cols, from, to),
            None => {},
        }
    }
}

// ---------------------------------------------------------------- KeyIndex
/// A unique key, index, fulltext index or spatial index: they share one
/// shape and differ in the key order of their JSON.
pub struct KeyIndex {
    pub name: Option<String>,
    pub index_type: Option<String>,
    pub columns: Vec<IndexColumn>,
    pub options: Option<IndexOptions>,
}

/// The value of a [`KeyIndex`].
pub struct KeyIndexV {
    pub name: Option<Seq<char>>,
    pub index_type: Option<Seq<char>>,
    pub columns: Seq<IndexColumnV>,
    pub options: Option<IndexOptionsV>,
}

impl View for KeyIndex {
    type V = KeyIndexV;

    open spec fn view(&self) -> KeyIndexV {
        KeyIndexV {
            name: opt_str(self.name),
            index_type: opt_str(self.index_type),
            columns: icv(self.columns@),
            options: opt_index_options(self.options),
        }
    }
}

/// The views of a list of indexes.
pub open spec fn kv(s: Seq<KeyIndex>) -> Seq<KeyIndexV> {
    s.map_values(|k: KeyIndex| k@)
}

/// The index a plain object describes.
pub open spec fn spec_key_index_from(j: JsonV) -> KeyIndexV {
    KeyIndexV {
        name: spec_name_from(j),
        index_type: spec_index_type_from(j),
        columns: spec_columns_from(j),
        options: spec_options_from(j),
    }
}

/// The index a create definition holds under `sub_key`, or a
/// `P_CREATE_INDEX` node describes.
pub open spec fn spec_key_index_def(j: JsonV, sub_key: Seq<char>) -> KeyIndexV {
    if j.get_str("id"@) == Some("P_CREATE_INDEX"@) {
        spec_key_index_from(j.at("def"@))
    } else {
        spec_key_index_from(j.at("def"@).at(sub_key))
    }
}

/// The compact JSON of a unique key: columns, name, index type, options.
pub open spec fn spec_unique_json(k: KeyIndexV) -> JsonV {
    let f1 = push_str(seq![("columns"@, cols_json(k.columns))], "name"@, k.name);
    JsonV::Obj(push_options(push_str(f1, "indexType"@, k.index_type), k.options))
}

/// The compact JSON of an index: columns, options, index type, name.
pub open spec fn spec_index_json(k: KeyIndexV) -> JsonV {
    let f1 = push_options(seq![("columns"@, cols_json(k.columns))], k.options);
    JsonV::Obj(push_str(push_str(f1, "indexType"@, k.index_type), "name"@, k.name))
}

/// The compact JSON of a fulltext or spatial index: columns, name, options.
pub open spec fn spec_ft_spatial_json(k: KeyIndexV) -> JsonV {
    let f1 = push_str(seq![("columns"@, cols_json(k.columns))], "name"@, k.name);
    JsonV::Obj(push_options(f1, k.options))
}

impl KeyIndex {
    /// Builds an index from a create definition holding `sub_key`, or from a
    /// `P_CREATE_INDEX` node.
    pub fn from_def(json: &Json, sub_key: &str) -> (r: KeyIndex)
        ensures
            r@ == spec_key_index_def(json@, sub_key@),
    {
        let null = Json::Null;
        let is_create_index = match json.get_str("id") {
            Some(id) => crate::json::str_eq(id.as_str(), "P_CREATE_INDEX"),
            None => false,
        };
        if is_create_index {
            KeyIndex::from_object(at(json, "def", &null))
        } else {
            KeyIndex::from_object(at(at(json, "def", &null), sub_key, &null))
        }
    }

    /// Builds an index from a plain object.
    pub fn from_object(json: &Json) -> (r: KeyIndex)
        ensures
            r@ == spec_key_index_from(json@),
    {
        KeyIndex {
            name: name_from(json),
            index_type: index_type_from(json),
            columns: columns_from(json),
            options: options_from(json),
        }
    }

    /// Drops the first column called `name`; tells whether one was dropped.
    pub fn drop_column(&mut self, name: &str) -> (r: bool)
        ensures
            r == has_name(old(self)@.columns, name@),
            final(self)@ == (KeyIndexV { columns: spec_drop_col(old(self)@.columns, name@), ..old(self)@ }),
    {
        drop_col(&mut self.columns, name)
    }

    /// Whether the table has all of this index's columns.
    pub fn has_all_columns(&self, table: &Table) -> (r: bool)
        ensures
            r == spec_has_all(self@.columns, cv(table.columns@)),
    {
        has_all_columns_of(&self.columns, table)
    }

    /// Fills unset index column lengths from the table's datatypes.
    pub fn set_index_size_from_table(&mut self, table: &Table)
        ensures
            final(self)@ == (KeyIndexV { columns: spec_sized(old(self)@.columns, cv(table.columns@)), ..old(self)@ }),
    {
        set_index_size(&mut self.columns, table);
    }

    /// Renames a column.
    pub fn rename_column(&mut self, from: &str, to: &str)
        ensures
            final(self)@ == (KeyIndexV { columns: spec_rename_cols(old(self)@.columns, from@, to@), ..old(self)@ }),
    {
        rename_cols(&mut self.columns, from, to);
    }

    /// A copy of this index.
    pub fn clone_model(&self) -> (r: KeyIndex)
        ensures
            r@ == self@,
    {
        KeyIndex {
            name: clone_opt_str(&self.name),
            index_type: clone_opt_str(&self.index_type),
            columns: clone_index_columns(&self.columns),
            options: clone_options(&self.options),
        }
    }

    /// The compact JSON of this index as a unique key.
    pub fn to_json_unique(&self) -> (r: Json)
        ensures
            r@ == spec_unique_json(self@),
    {
        let mut m: Vec<(String, Json)> = Vec::new();
        put(&mut m, "columns", index_columns_json(&self.columns));
        super::models::put_str(&mut m, "name", &self.name);
        super::models::put_str(&mut m, "indexType", &self.index_type);
        put_options(&mut m, &self.options);
        proof {
            assert(view_obj(m@) =~= spec_unique_json(self@)->Obj_0);
        }
        Json::Obj(m)
    }

    /// The compact JSON of this index as a plain index.
    pub fn to_json_index(&self) -> (r: Json)
        ensures
            r@ == spec_index_json(self@),
    {
        let mut m: Vec<(String, Json)> = Vec::new();
        put(&mut m, "columns", index_columns_json(&self.columns));
        put_options(&mut m, &self.options);
        super::models::put_str(&mut m, "indexType", &self.index_type);
        super::models::put_str(&mut m, "name", &self.name);
        proof {
            assert(view_obj(m@) =~= spec_index_json(self@)->Obj_0);
        }
        Json::Obj(m)
    }

    /// The compact JSON of this index as a fulltext or spatial index.
    pub fn to_json_ft_spatial(&self) -> (r: Json)
        ensures
            r@ == spec_ft_spatial_json(self@),
    {
        let mut m: Vec<(String, Json)> = Vec::new();
        put(&mut m, "columns", index_columns_json(&self.columns));
        super::models::put_str(&mut m, "name", &self.name);
        put_options(&mut m, &self.options);
        proof {
            assert(view_obj(m@) =~= spec_ft_spatial_json(self@)->Obj_0);
        }
        Json::Obj(m)
    }
}

// -------------------------------------------------------------- ForeignKey
/// A foreign key.
pub struct ForeignKey {
    pub name: Option<String>,
    pub columns: Vec<IndexColumn>,
    pub reference: ColumnReference,
}

/// The value of a [`ForeignKey`].
pub struct ForeignKeyV {
    pub name: Option<Seq<char>>,
    pub columns: Seq<IndexColumnV>,
    pub reference: ColumnReferenceV,
}

impl View for ForeignKey {
    type V = ForeignKeyV;

    open spec fn view(&self) -> ForeignKeyV {
        ForeignKeyV { name: opt_str(self.name), columns: icv(self.columns@), reference: self.reference@ }
    }
}

/// The views of a list of foreign keys.
pub open spec fn fkv(s: Seq<ForeignKey>) -> Seq<ForeignKeyV> {
    s.map_values(|k: ForeignKey| k@)
}

/// The foreign key a plain object describes.
pub open spec fn spec_foreign_key_from(j: JsonV) -> ForeignKeyV {
    ForeignKeyV {
        name: spec_name_from(j),
        columns: spec_columns_from(j),
        reference: spec_column_reference(j.at("reference"@)),
    }
}

/// The compact JSON of a foreign key: columns, reference, name.
pub open spec fn spec_foreign_key_json(k: ForeignKeyV) -> JsonV {
    JsonV::Obj(
        push_str(
            seq![
                ("columns"@, cols_json(k.columns)),
                ("reference"@, spec_column_reference_json(k.reference)),
            ],
            "name"@,
            k.name,
        ),
    )
}

/// Whether a foreign key references the table.
pub open spec fn refs_table(k: ForeignKeyV, table: Seq<char>) -> bool {
    k.reference.table == table
}

/// Whether a foreign key references the column of the table.
pub open spec fn refs_column(k: ForeignKeyV, table: Seq<char>, column: Seq<char>) -> bool {
    k.reference.table == table && has_name(k.reference.columns, column)
}

impl ForeignKey {
    /// Builds a foreign key from a create definition holding `foreignKey`.
    pub fn from_def(json: &Json) -> (r: ForeignKey)
        ensures
            r@ == spec_foreign_key_from(json@.at("def"@).at("foreignKey"@)),
    {
        let null = Json::Null;
        ForeignKey::from_object(at(at(json, "def", &null), "foreignKey", &null))
    }

    /// Builds a foreign key from a plain object.
    pub fn from_object(json: &Json) -> (r: ForeignKey)
        ensures
            r@ == spec_foreign_key_from(json@),
    {
        let null = Json::Null;
        ForeignKey {
            columns: columns_from(json),
            reference: ColumnReference::from_def(at(json, "reference", &null)),
            name: name_from(json),
        }
    }

    /// The compact JSON of this foreign key.
    pub fn to_json(&self) -> (r: Json)
        ensures
            r@ == spec_foreign_key_json(self@),
    {
        let mut m: Vec<(String, Json)> = Vec::new();
        put(&mut m, "columns", index_columns_json(&self.columns));
        put(&mut m, "reference", self.reference.to_json());
        super::models::put_str(&mut m, "name", &self.name);
        proof {
            assert(view_obj(m@) =~= spec_foreign_key_json(self@)->Obj_0);
        }
        Json::Obj(m)
    }

    /// A copy of this foreign key.
    pub fn clone_model(&self) -> (r: ForeignKey)
        ensures
            r@ == self@,
    {
        ForeignKey {
            name: clone_opt_str(&self.name),
            columns: clone_index_columns(&self.columns),
            reference: self.reference.clone_model(),
        }
    }

    /// Drops the first column called `name`; tells whether one was dropped.
    pub fn drop_column(&mut self, name: &str) -> (r: bool)
        ensures
            r == has_name(old(self)@.columns, name@),
            final(self)@ == (ForeignKeyV { columns: spec_drop_col(old(self)@.columns, name@), ..old(self)@ }),
    {
        drop_col(&mut self.columns, name)
    }

    /// Fills unset index column lengths from the table's datatypes.
    pub fn set_index_size_from_table(&mut self, table: &Table)
        ensures
            final(self)@ == (ForeignKeyV { columns: spec_sized(old(self)@.columns, cv(table.columns@)), ..old(self)@ }),
    {
        set_index_size(&mut self.columns, table);
    }

    /// Whether this key references the column of the table.
    pub fn references_table_and_column(&self, table_name: &str, column_name: &str) -> (r: bool)
        ensures
            r == refs_column(self@, table_name@, column_name@),
    {
        crate::json::str_eq(self.reference.table.as_str(), table_name) && cols_have_name(
            &self.reference.columns,
            column_name,
        )
    }

    /// Whether this key references the table.
    pub fn references_table(&self, table_name: &str) -> (r: bool)
        ensures
            r == refs_table(self@, table_name@),
    {
        crate::json::str_eq(self.reference.table.as_str(), table_name)
    }

    /// Renames a referenced column.
    pub fn rename_column(&mut self, from: &str, to: &str)
        ensures
            final(self)@ == (ForeignKeyV {
                reference: ColumnReferenceV {
                    columns: spec_rename_cols(old(self)@.reference.columns, from@, to@),
                    ..old(self)@.reference
                },
                ..old(self)@
            }),
    {
        rename_cols(&mut self.reference.columns, from, to);
    }

    /// Points this key at a renamed table.
    pub fn update_referenced_table_name(&mut self, new_name: &str)
        ensures
            final(self)@ == (ForeignKeyV {
                reference: ColumnReferenceV { table: new_name@, ..old(self)@.reference },
                ..old(self)@
            }),
    {
        self.reference.table = crate::json::string_of(new_name);
    }
}

} // verus!
