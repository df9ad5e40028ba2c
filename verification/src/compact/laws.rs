//! What the table model keeps across its operations.

use vstd::prelude::*;

use crate::json::{fields_get, fields_remove, lemma_fields_insert_get, lemma_fields_remove_get, JsonV};

use super::column::{col_flag, ColumnV};
use super::database::{
    arr_at, effective_name, other_autoinc, single_unique_on, spec_apply_dds, spec_change_column, spec_drop_table,
    spec_read_place, spec_rename_column, spec_rename_table, any_refs, tindex, tname,
};
use super::keys::{col_index, cname, has_name, pk_cols, refs_table, ForeignKeyV, PrimaryKeyV};
use super::models::{flag, spec_column_options, spec_datatype_from, str_or_empty};
use super::table::{move_ok, retarget, spec_add_column, spec_drop_column_in, spec_extract_keys, spec_moved, spec_set_primary_key, without, Place, TableV};
use super::util::{lemma_first_index, lemma_first_index_at};

verus! {

broadcast use vstd::seq_lib::group_seq_properties, vstd::multiset::group_multiset_axioms;

/// No two columns share a name.
pub open spec fn names_distinct(cols: Seq<ColumnV>) -> bool {
    forall|i: int, j: int| 0 <= i < j < cols.len() ==> cols[i].name != cols[j].name
}

/// At most one column is autoincrement.
pub open spec fn one_autoinc(cols: Seq<ColumnV>) -> bool {
    forall|i: int, j: int|
        0 <= i < j < cols.len() ==> !(col_flag(cols[i], "autoincrement"@) && col_flag(cols[j], "autoincrement"@))
}

/// Two column lists hold the same names and autoincrement flags, index by
/// index.
pub open spec fn same_shape(a: Seq<ColumnV>, b: Seq<ColumnV>) -> bool {
    &&& a.len() == b.len()
    &&& forall|j: int| 0 <= j < a.len() ==> #[trigger] a[j].name == b[j].name
    &&& forall|j: int| 0 <= j < a.len() ==> col_flag(#[trigger] a[j], "autoincrement"@) == col_flag(b[j], "autoincrement"@)
}

proof fn lemma_keys_differ()
    ensures
        "autoincrement"@ != "primary"@,
        "autoincrement"@ != "unique"@,
        "autoincrement"@ != "nullable"@,
{
    reveal_strlit("autoincrement");
    reveal_strlit("primary");
    reveal_strlit("unique");
    reveal_strlit("nullable");
    assert("autoincrement"@.len() != "primary"@.len());
    assert("autoincrement"@.len() != "unique"@.len());
    assert("autoincrement"@.len() != "nullable"@.len());
}

/// Dropping an option other than `autoincrement` keeps that flag.
proof fn lemma_without_keeps_autoinc(c: ColumnV, key: Seq<char>)
    requires
        c.options is Some,
        key != "autoincrement"@,
    ensures
        without(c, key).name == c.name,
        col_flag(without(c, key), "autoincrement"@) == col_flag(c, "autoincrement"@),
{
    lemma_fields_remove_get(c.options->Some_0, key, "autoincrement"@);
}

/// Setting a primary key keeps the names and autoincrement flags.
proof fn lemma_set_pk_shape(t: TableV, pk: PrimaryKeyV)
    ensures
        same_shape(spec_set_primary_key(t, pk).columns, t.columns),
{
    lemma_keys_differ();
    let r = spec_set_primary_key(t, pk).columns;
    if !(t.primary_key is Some || !super::keys::spec_has_all(pk_cols(pk), t.columns)) {
        assert forall|j: int| 0 <= j < r.len() implies col_flag(#[trigger] r[j], "autoincrement"@) == col_flag(
            t.columns[j],
            "autoincrement"@,
        ) by {
            let c = t.columns[j];
            if let Some(o) = c.options {
                lemma_fields_insert_get(o, "nullable"@, JsonV::Bool(false), "autoincrement"@);
            }
        }
    }
}

/// Extracting a column's keys keeps the names and autoincrement flags of
/// the columns.
pub proof fn lemma_extract_keys_shape(t: TableV, name: Seq<char>)
    ensures
        same_shape(spec_extract_keys(t, name).columns, t.columns),
{
    lemma_keys_differ();
    match col_index(t.columns, name) {
        None => {},
        Some(i) => {
            lemma_first_index(t.columns, cname(name));
            let c0 = t.columns[i];
            let is_pk = col_flag(c0, "primary"@);
            let c1 = if is_pk {
                without(c0, "primary"@)
            } else {
                c0
            };
            if is_pk {
                lemma_without_keeps_autoinc(c0, "primary"@);
            }
            let c2 = ColumnV { reference: None, ..c1 };
            let is_uk = col_flag(c2, "unique"@);
            let c3 = if is_uk {
                without(c2, "unique"@)
            } else {
                c2
            };
            if is_uk {
                lemma_without_keeps_autoinc(c2, "unique"@);
            }
            let t1 = TableV { columns: t.columns.update(i, c3), ..t };
            assert(same_shape(t1.columns, t.columns));
            let t2 = if is_pk {
                spec_set_primary_key(
                    t1,
                    PrimaryKeyV {
                        name: None,
                        index_type: None,
                        columns: Some(seq![super::table::single(c0.name)]),
                        options: None,
                    },
                )
            } else {
                t1
            };
            if is_pk {
                lemma_set_pk_shape(
                    t1,
                    PrimaryKeyV {
                        name: None,
                        index_type: None,
                        columns: Some(seq![super::table::single(c0.name)]),
                        options: None,
                    },
                );
            }
            assert(same_shape(t2.columns, t.columns));
        },
    }
}

/// Adding a column never gives two columns the same name.
pub proof fn law_add_column_keeps_names_distinct(t: TableV, c: ColumnV, place: Place)
    requires
        names_distinct(t.columns),
    ensures
        names_distinct(spec_add_column(t, c, place).columns),
{
    if col_index(t.columns, c.name) is None && !(col_flag(c, "autoincrement"@) && super::table::any_autoinc(t.columns))
        && !(t.primary_key is Some && col_flag(c, "primary"@)) {
        lemma_first_index_none_gives(t.columns, c.name);
        let ins = match place {
            Place::End => Some(t.columns.len() as int),
            Place::First => Some(0int),
            Place::After(a) => match col_index(t.columns, a) {
                Some(p) => {
                    lemma_first_index(t.columns, cname(a));
                    Some(p + 1)
                },
                None => None,
            },
        };
        if let Some(k) = ins {
            let cols = t.columns.insert(k, c);
            if place is End {
                assert(t.columns.push(c) =~= cols);
            }
            assert(names_distinct(cols)) by {
                assert forall|i: int, j: int| 0 <= i < j < cols.len() implies cols[i].name != cols[j].name by {
                    if i == k {
                        assert(cols[j] == t.columns[j - 1]);
                    } else if j == k {
                        assert(cols[i] == t.columns[i]);
                    } else {
                        let ii = if i < k { i } else { i - 1 };
                        let jj = if j < k { j } else { j - 1 };
                        assert(cols[i] == t.columns[ii]);
                        assert(cols[j] == t.columns[jj]);
                    }
                }
            }
            let t1 = TableV { columns: cols, ..t };
            lemma_extract_keys_shape(t1, c.name);
        }
    }
}

/// Where adding a column puts it when nothing refuses it: last, first, or
/// right after the named column.
pub open spec fn add_place_index(cols: Seq<ColumnV>, place: Place) -> Option<int> {
    match place {
        Place::End => Some(cols.len() as int),
        Place::First => Some(0),
        Place::After(a) => match col_index(cols, a) {
            Some(p) => Some(p + 1),
            None => None,
        },
    }
}

/// Adding a column is refused, leaving the table as it was, when a column
/// has its name, when it would be a second autoincrement column, when it
/// would be a second primary key, or when the column it goes after is
/// missing. Otherwise the table gains exactly that column, last, first, or
/// right after the named column, and the other columns keep their names in
/// order.
pub proof fn law_add_column_places(t: TableV, c: ColumnV, place: Place)
    ensures
        ({
            let r = spec_add_column(t, c, place);
            let refused = col_index(t.columns, c.name) is Some || (col_flag(c, "autoincrement"@)
                && super::table::any_autoinc(t.columns)) || (t.primary_key is Some && col_flag(c, "primary"@))
                || add_place_index(t.columns, place) is None;
            &&& refused ==> r == t
            &&& !refused ==> {
                let k = add_place_index(t.columns, place)->Some_0;
                &&& r.columns.len() == t.columns.len() + 1
                &&& r.columns[k].name == c.name
                &&& forall|j: int| 0 <= j < k ==> #[trigger] r.columns[j].name == t.columns[j].name
                &&& forall|j: int| k < j < r.columns.len() ==> #[trigger] r.columns[j].name == t.columns[j - 1].name
            }
        }),
{
    let refused = col_index(t.columns, c.name) is Some || (col_flag(c, "autoincrement"@)
        && super::table::any_autoinc(t.columns)) || (t.primary_key is Some && col_flag(c, "primary"@))
        || add_place_index(t.columns, place) is None;
    if !refused {
        let k = add_place_index(t.columns, place)->Some_0;
        if let Place::After(a) = place {
            lemma_first_index(t.columns, cname(a));
        }
        let cols = t.columns.insert(k, c);
        if place is End {
            assert(t.columns.push(c) =~= cols);
        }
        let t1 = TableV { columns: cols, ..t };
        lemma_extract_keys_shape(t1, c.name);
        let r = spec_add_column(t, c, place);
        assert(r == spec_extract_keys(t1, c.name));
        assert(r.columns[k].name == cols[k].name);
        assert forall|j: int| 0 <= j < k implies #[trigger] r.columns[j].name == t.columns[j].name by {
            assert(r.columns[j].name == cols[j].name);
        }
        assert forall|j: int| k < j < r.columns.len() implies #[trigger] r.columns[j].name == t.columns[j
            - 1].name by {
            assert(r.columns[j].name == cols[j].name);
        }
    }
}

/// With no column of the name, `col_index` finds none and every column has
/// another name.
proof fn lemma_first_index_none_gives(cols: Seq<ColumnV>, name: Seq<char>)
    requires
        col_index(cols, name) is None,
    ensures
        forall|j: int| 0 <= j < cols.len() ==> cols[j].name != name,
{
    lemma_first_index(cols, cname(name));
    assert forall|j: int| 0 <= j < cols.len() implies cols[j].name != name by {
        assert(!cname(name)(cols[j]));
    }
}

/// Adding a column never leaves two autoincrement columns.
pub proof fn law_add_column_keeps_one_autoincrement(t: TableV, c: ColumnV, place: Place)
    requires
        one_autoinc(t.columns),
    ensures
        one_autoinc(spec_add_column(t, c, place).columns),
{
    if col_index(t.columns, c.name) is None && !(col_flag(c, "autoincrement"@) && super::table::any_autoinc(t.columns))
        && !(t.primary_key is Some && col_flag(c, "primary"@)) {
        let ins = match place {
            Place::End => Some(t.columns.len() as int),
            Place::First => Some(0int),
            Place::After(a) => match col_index(t.columns, a) {
                Some(p) => {
                    lemma_first_index(t.columns, cname(a));
                    Some(p + 1)
                },
                None => None,
            },
        };
        if let Some(k) = ins {
            let cols = t.columns.insert(k, c);
            if place is End {
                assert(t.columns.push(c) =~= cols);
            }
            assert(one_autoinc(cols)) by {
                assert forall|i: int, j: int| 0 <= i < j < cols.len() implies !(col_flag(cols[i], "autoincrement"@)
                    && col_flag(cols[j], "autoincrement"@)) by {
                    if i == k {
                        assert(cols[j] == t.columns[j - 1]);
                    } else if j == k {
                        assert(cols[i] == t.columns[i]);
                    } else {
                        let ii = if i < k { i } else { i - 1 };
                        let jj = if j < k { j } else { j - 1 };
                        assert(cols[i] == t.columns[ii]);
                        assert(cols[j] == t.columns[jj]);
                    }
                }
            }
            let t1 = TableV { columns: cols, ..t };
            lemma_extract_keys_shape(t1, c.name);
            let r = spec_extract_keys(t1, c.name).columns;
            assert forall|i: int, j: int| 0 <= i < j < r.len() implies !(col_flag(r[i], "autoincrement"@) && col_flag(
                r[j],
                "autoincrement"@,
            )) by {
                assert(col_flag(r[i], "autoincrement"@) == col_flag(cols[i], "autoincrement"@));
                assert(col_flag(r[j], "autoincrement"@) == col_flag(cols[j], "autoincrement"@));
            }
        }
    }
}

/// A table with a primary key keeps it: setting another is refused.
pub proof fn law_primary_key_is_not_replaced(t: TableV, pk: PrimaryKeyV)
    requires
        t.primary_key is Some,
    ensures
        spec_set_primary_key(t, pk) == t,
{
}

/// Once a primary key is set, the first column of each of its column names
/// is not nullable.
pub proof fn law_primary_key_columns_not_nullable(t: TableV, pk: PrimaryKeyV, j: int)
    requires
        t.primary_key is None,
        super::keys::spec_has_all(pk_cols(pk), t.columns),
        0 <= j < t.columns.len(),
        has_name(pk_cols(pk), t.columns[j].name),
        col_index(t.columns, t.columns[j].name) == Some(j),
        t.columns[j].options is Some,
    ensures
        spec_set_primary_key(t, pk).primary_key == Some(pk),
        spec_set_primary_key(t, pk).columns[j].options matches Some(o) && fields_get(o, "nullable"@) == Some(
            JsonV::Bool(false),
        ),
{
    lemma_fields_insert_get(t.columns[j].options->Some_0, "nullable"@, JsonV::Bool(false), "nullable"@);
}

/// Dropping a column never leaves a table without columns.
pub proof fn law_drop_column_keeps_a_column(t: TableV, name: Seq<char>)
    requires
        t.columns.len() >= 1,
    ensures
        spec_drop_column_in(t, name).columns.len() >= 1,
{
    if t.columns.len() != 1 {
        if let Some(p) = col_index(t.columns, name) {
            lemma_first_index(t.columns, cname(name));
        }
    }
}

/// Moving a column keeps the same columns: only their order changes.
pub proof fn law_move_keeps_columns(cols: Seq<ColumnV>, name: Seq<char>, place: Place)
    requires
        move_ok(cols, name, place),
    ensures
        spec_moved(cols, name, place).to_multiset() == cols.to_multiset(),
        spec_moved(cols, name, place).len() == cols.len(),
{
    let cur = col_index(cols, name)->Some_0;
    lemma_first_index(cols, cname(name));
    let rest = cols.remove(cur);
    vstd::seq_lib::to_multiset_remove(cols, cur);
    match place {
        Place::After(a) => {
            if a != name {
                let p = col_index(rest, a);
                lemma_first_index(cols, cname(a));
                let k = col_index(cols, a)->Some_0;
                if k < cur {
                    assert(cname(a)(rest[k]));
                } else {
                    assert(cname(a)(rest[k - 1]));
                }
                lemma_first_index(rest, cname(a));
                let q = p->Some_0;
                vstd::seq_lib::to_multiset_insert(rest, q + 1, cols[cur]);
                assert(cols.to_multiset().remove(cols[cur]).insert(cols[cur]) =~= cols.to_multiset());
            }
        },
        _ => {
            vstd::seq_lib::to_multiset_insert(rest, 0, cols[cur]);
            assert(cols.to_multiset().remove(cols[cur]).insert(cols[cur]) =~= cols.to_multiset());
        },
    }
}

/// A column moved after itself keeps its place.
pub proof fn law_move_after_itself(cols: Seq<ColumnV>, name: Seq<char>)
    requires
        col_index(cols, name) is Some,
    ensures
        move_ok(cols, name, Place::After(name)),
        spec_moved(cols, name, Place::After(name)) == cols,
{
}

/// After a table is renamed, no foreign key references the old name.
pub proof fn law_rename_table_leaves_no_reference(db: Seq<TableV>, from: Seq<char>, to: Seq<char>, i: int, n: int)
    requires
        from != to,
        0 <= i < spec_rename_table(db, from, to).len(),
        0 <= n < spec_rename_table(db, from, to)[i].foreign.len(),
    ensures
        !refs_table(spec_rename_table(db, from, to)[i].foreign[n], from),
{
    let db1 = db.map_values(
        |t: TableV| TableV { foreign: t.foreign.map_values(|k: ForeignKeyV| retarget(k, from, to)), ..t },
    );
    if let Some(m) = tindex(db1, from) {
        lemma_first_index(db1, tname(from));
    }
    let r = spec_rename_table(db, from, to);
    assert(r[i].foreign == db1[i].foreign);
    assert(db1[i].foreign[n] == retarget(db[i].foreign[n], from, to));
}

/// Renaming a table gives the table the new name.
pub proof fn law_rename_table_renames(db: Seq<TableV>, from: Seq<char>, to: Seq<char>)
    requires
        tindex(db, from) is Some,
    ensures
        spec_rename_table(db, from, to)[tindex(db, from)->Some_0].name == to,
        spec_rename_table(db, from, to).len() == db.len(),
{
    let db1 = db.map_values(
        |t: TableV| TableV { foreign: t.foreign.map_values(|k: ForeignKeyV| retarget(k, from, to)), ..t },
    );
    let i = tindex(db, from)->Some_0;
    lemma_first_index(db, tname(from));
    assert forall|j: int| 0 <= j < db.len() implies #[trigger] db1[j].name == db[j].name by {}
    assert(tname(from)(db1[i]));
    assert forall|j: int| 0 <= j < i implies !tname(from)(#[trigger] db1[j]) by {
        assert(!tname(from)(db[j]));
    }
    lemma_first_index_at(db1, tname(from), i);
}

/// A table that a foreign key references is not dropped.
pub proof fn law_referenced_table_is_kept(db: Seq<TableV>, name: Seq<char>)
    requires
        any_refs(db, name),
    ensures
        spec_drop_table(db, name) == db,
{
}

/// The statements that are not about tables: `SET`, `USE` and the database
/// statements.
pub open spec fn non_table_statement(id: Seq<char>) -> bool {
    id == "P_SET"@ || id == "P_USE_DB"@ || id == "P_CREATE_DB"@ || id == "P_ALTER_DB"@ || id == "P_DROP_DB"@
}

/// `SET`, `USE` and the database statements parse, but produce no tables:
/// replaying one leaves the tables as they are.
pub proof fn law_non_table_statements_keep_tables(db: Seq<TableV>, d: JsonV)
    requires
        d.at("def"@).get_str("id"@) matches Some(id) && non_table_statement(id),
    ensures
        spec_apply_dds(db, d) == db,
{
    reveal_strlit("P_SET");
    reveal_strlit("P_USE_DB");
    reveal_strlit("P_CREATE_DB");
    reveal_strlit("P_ALTER_DB");
    reveal_strlit("P_DROP_DB");
    reveal_strlit("P_CREATE_TABLE");
    reveal_strlit("P_CREATE_INDEX");
    reveal_strlit("P_ALTER_TABLE");
    reveal_strlit("P_RENAME_TABLE");
    reveal_strlit("P_DROP_TABLE");
    reveal_strlit("P_DROP_INDEX");
    let id = d.at("def"@).get_str("id"@)->Some_0;
    assert(d !is Null);
    assert(id.len() <= 11);
    assert(id != "P_CREATE_TABLE"@ && id != "P_CREATE_INDEX"@ && id != "P_ALTER_TABLE"@);
    assert(id != "P_RENAME_TABLE"@ && id != "P_DROP_TABLE"@ && id != "P_DROP_INDEX"@);
}


/// A column at `j` makes its name one that `col_index` finds.
proof fn lemma_col_index_has(cols: Seq<ColumnV>, name: Seq<char>, j: int)
    requires
        0 <= j < cols.len(),
        cols[j].name == name,
    ensures
        col_index(cols, name) matches Some(k) && 0 <= k < cols.len() && cols[k].name == name,
{
    lemma_first_index(cols, cname(name));
    if col_index(cols, name) is None {
        assert(!cname(name)(cols[j]));
    }
}

/// Column lists with the same names, index by index, find a name at the
/// same index.
proof fn lemma_col_index_same_names(a: Seq<ColumnV>, b: Seq<ColumnV>, name: Seq<char>)
    requires
        a.len() == b.len(),
        forall|j: int| 0 <= j < a.len() ==> #[trigger] a[j].name == b[j].name,
    ensures
        col_index(a, name) == col_index(b, name),
    decreases a.len(),
{
    if a.len() > 0 {
        let da = a.drop_last();
        let db = b.drop_last();
        assert forall|j: int| 0 <= j < da.len() implies #[trigger] da[j].name == db[j].name by {
            assert(da[j] == a[j] && db[j] == b[j]);
        }
        lemma_col_index_same_names(da, db, name);
        assert(a.last().name == b.last().name);
    }
}

/// A move that `move_ok` allows keeps the moved column: first, right after
/// the named column, or in place when it goes after itself. With distinct
/// names it is the only column of its name, and a name that no other
/// column has stays only its own.
proof fn lemma_moved_keeps(cols: Seq<ColumnV>, name: Seq<char>, place: Place, other: Seq<char>) -> (m: int)
    requires
        move_ok(cols, name, place),
    ensures
        spec_moved(cols, name, place).len() == cols.len(),
        0 <= m < spec_moved(cols, name, place).len(),
        spec_moved(cols, name, place)[m] == cols[col_index(cols, name)->Some_0],
        spec_moved(cols, name, place)[m].name == name,
        !(place is After) ==> m == 0,
        place == Place::After(name) ==> spec_moved(cols, name, place) == cols && m == col_index(cols, name)->Some_0,
        place is After && place->After_0 != name ==> m >= 1 && spec_moved(cols, name, place)[m - 1].name
            == place->After_0,
        names_distinct(cols) ==> forall|j: int|
            0 <= j < cols.len() && j != m ==> #[trigger] spec_moved(cols, name, place)[j].name != name,
        names_distinct(cols) && place == super::table::spec_column_place(cols, name) ==> m == col_index(
            cols,
            name,
        )->Some_0,
        (forall|i: int| 0 <= i < cols.len() && i != col_index(cols, name)->Some_0 ==> #[trigger] cols[i].name != other)
            ==> forall|j: int| 0 <= j < cols.len() && j != m ==> #[trigger] spec_moved(cols, name, place)[j].name != other,
{
    let cur = col_index(cols, name)->Some_0;
    lemma_first_index(cols, cname(name));
    let rest = cols.remove(cur);
    let moved = spec_moved(cols, name, place);
    let m = match place {
        Place::After(a) => {
            if a == name {
                cur
            } else {
                lemma_first_index(cols, cname(a));
                let k = col_index(cols, a)->Some_0;
                if k < cur {
                    assert(cname(a)(rest[k]));
                } else {
                    assert(cname(a)(rest[k - 1]));
                }
                lemma_first_index(rest, cname(a));
                col_index(rest, a)->Some_0 + 1
            }
        },
        _ => 0,
    };
    if names_distinct(cols) && place == super::table::spec_column_place(cols, name) && cur > 0 {
        let a = cols[cur - 1].name;
        assert(rest[cur - 1] == cols[cur - 1]);
        assert forall|j: int| 0 <= j < cur - 1 implies !cname(a)(#[trigger] rest[j]) by {
            assert(rest[j] == cols[j]);
        }
        lemma_first_index_at(rest, cname(a), cur - 1);
    }
    if (forall|i: int| 0 <= i < cols.len() && i != cur ==> #[trigger] cols[i].name != other) && !(place
        == Place::After(name)) {
        assert forall|j: int| 0 <= j < cols.len() && j != m implies #[trigger] moved[j].name != other by {
            let r = if j < m {
                j
            } else {
                j - 1
            };
            assert(moved[j] == rest[r]);
            if r < cur {
                assert(rest[r] == cols[r]);
            } else {
                assert(rest[r] == cols[r + 1]);
            }
        }
    }
    if names_distinct(cols) && !(place == Place::After(name)) {
        assert forall|j: int| 0 <= j < cols.len() && j != m implies #[trigger] moved[j].name != name by {
            let r = if j < m {
                j
            } else {
                j - 1
            };
            assert(moved[j] == rest[r]);
            if r < cur {
                assert(rest[r] == cols[r]);
            } else {
                assert(rest[r] == cols[r + 1]);
            }
        }
    }
    m
}

/// Extracting the keys of the column at `i` keeps its datatype and every
/// option but `primary` and `unique`, and its `nullable` unless it is a
/// primary column.
proof fn lemma_extract_keys_column(t: TableV, name: Seq<char>, i: int)
    requires
        col_index(t.columns, name) == Some(i),
        t.columns[i].options is Some,
    ensures
        spec_extract_keys(t, name).name == t.name,
        spec_extract_keys(t, name).columns.len() == t.columns.len(),
        spec_extract_keys(t, name).columns[i].datatype == t.columns[i].datatype,
        spec_extract_keys(t, name).columns[i].options matches Some(o) && forall|key: Seq<char>|
            key != "primary"@ && key != "unique"@ && (key == "nullable"@ ==> !col_flag(t.columns[i], "primary"@))
                ==> #[trigger] fields_get(o, key) == fields_get(t.columns[i].options->Some_0, key),
{
    lemma_first_index(t.columns, cname(name));
    let c0 = t.columns[i];
    let o0 = c0.options->Some_0;
    let is_pk = col_flag(c0, "primary"@);
    let c1 = if is_pk {
        without(c0, "primary"@)
    } else {
        c0
    };
    let c2 = ColumnV { reference: None, ..c1 };
    let is_uk = col_flag(c2, "unique"@);
    let c3 = if is_uk {
        without(c2, "unique"@)
    } else {
        c2
    };
    let o3 = c3.options->Some_0;
    assert forall|key: Seq<char>| key != "primary"@ && key != "unique"@ implies #[trigger] fields_get(o3, key)
        == fields_get(o0, key) by {
        lemma_fields_remove_get(o0, "primary"@, key);
        lemma_fields_remove_get(c1.options->Some_0, "unique"@, key);
    }
    let t1 = TableV { columns: t.columns.update(i, c3), ..t };
    let pk = PrimaryKeyV {
        name: None,
        index_type: None,
        columns: Some(seq![super::table::single(c0.name)]),
        options: None,
    };
    let t2 = if is_pk {
        spec_set_primary_key(t1, pk)
    } else {
        t1
    };
    assert(t2.columns.len() == t.columns.len());
    assert(t2.columns[i] == c3 || t2.columns[i] == super::table::set_not_null(c3));
    assert(is_pk || t2.columns[i] == c3);
    let c4 = t2.columns[i];
    assert forall|key: Seq<char>|
        key != "primary"@ && key != "unique"@ && (key == "nullable"@ ==> !is_pk) implies #[trigger] fields_get(
        c4.options->Some_0,
        key,
    ) == fields_get(o0, key) by {
        if c4 != c3 {
            lemma_fields_insert_get(o3, "nullable"@, JsonV::Bool(false), key);
        }
    }
}

/// A `changeColumn` action that nothing refuses (the table, the column and
/// the column it goes after exist, the action defines the column, and it
/// neither adds a second primary key nor a second autoincrement column)
/// leaves the column, under its new name, with the datatype that the
/// action names and the options that its definition lists: every option
/// but `primary` and `unique`, which become keys of the table, and but
/// `nullable` of a new primary key column, which becomes false.
pub proof fn law_change_column_applies_definition(db: Seq<TableV>, tn: Seq<char>, json: JsonV)
    requires
        tindex(db, tn) is Some,
        ({
            let t = db[tindex(db, tn)->Some_0];
            let column = str_or_empty(json.at("column"@).as_str());
            let options = spec_column_options(arr_at(json, "columnDefinition"@));
            &&& col_index(t.columns, column) is Some
            &&& spec_read_place(json.get("position"@)) is After ==> col_index(
                t.columns,
                spec_read_place(json.get("position"@))->After_0,
            ) is Some
            &&& json.defines("columnDefinition"@)
            &&& !(flag(options, "primary"@) && t.primary_key is Some)
            &&& !(flag(options, "autoincrement"@) && other_autoinc(t.columns, column))
        }),
    ensures
        ({
            let idx = tindex(db, tn)->Some_0;
            let r = spec_change_column(db, tn, json);
            let column = str_or_empty(json.at("column"@).as_str());
            let name = effective_name(column, json.get_str("newName"@));
            let options = spec_column_options(arr_at(json, "columnDefinition"@));
            &&& r.len() == db.len()
            &&& r[idx].name == db[idx].name
            &&& col_index(r[idx].columns, name) matches Some(k) && {
                &&& r[idx].columns[k].datatype == spec_datatype_from(
                    json.at("datatype"@).at("def"@).at("def"@),
                )
                &&& r[idx].columns[k].options matches Some(o) && forall|key: Seq<char>|
                    key != "primary"@ && key != "unique"@ && (key == "nullable"@ ==> !flag(options, "primary"@))
                        ==> #[trigger] fields_get(o, key) == fields_get(options, key)
            }
        }),
{
    reveal_strlit("primary");
    reveal_strlit("unique");
    reveal_strlit("nullable");
    assert("primary"@.len() == 7 && "unique"@.len() == 6 && "nullable"@.len() == 8);
    let idx = tindex(db, tn)->Some_0;
    lemma_first_index(db, tname(tn));
    let t = db[idx];
    let cols = t.columns;
    let column = str_or_empty(json.at("column"@).as_str());
    let rp = spec_read_place(json.get("position"@));
    let place = match rp {
        Place::End => super::table::spec_column_place(cols, column),
        _ => rp,
    };
    let cur = col_index(cols, column)->Some_0;
    lemma_first_index(cols, cname(column));
    if rp is End && cur > 0 {
        lemma_col_index_has(cols, cols[cur - 1].name, cur - 1);
    }
    assert(move_ok(cols, column, place));
    let datatype = spec_datatype_from(json.at("datatype"@).at("def"@).at("def"@));
    let options0 = spec_column_options(arr_at(json, "columnDefinition"@));
    let options = if flag(options0, "unique"@) && single_unique_on(t.unique, column) {
        fields_remove(options0, "unique"@)
    } else {
        options0
    };
    assert forall|key: Seq<char>| key != "unique"@ implies #[trigger] fields_get(options, key) == fields_get(
        options0,
        key,
    ) by {
        lemma_fields_remove_get(options0, "unique"@, key);
    }
    let moved = spec_moved(cols, column, place);
    let m = lemma_moved_keeps(cols, column, place, column);
    let db1 = db.update(idx, TableV { columns: moved, ..t });
    let eff = effective_name(column, json.get_str("newName"@));
    let db2 = if eff != column {
        spec_rename_column(db1, idx, column, eff)
    } else {
        db1
    };
    let t2 = db2[idx];
    lemma_col_index_has(moved, column, m);
    if eff != column {
        let j0 = col_index(moved, column)->Some_0;
        assert(t2.columns == moved.update(j0, ColumnV { name: eff, ..moved[j0] }));
        lemma_col_index_has(t2.columns, eff, j0);
    } else {
        assert(t2.columns == moved);
    }
    let k = col_index(t2.columns, eff)->Some_0;
    lemma_first_index(t2.columns, cname(eff));
    let cn = ColumnV { datatype, options: Some(options), ..t2.columns[k] };
    let t3 = TableV { columns: t2.columns.update(k, cn), ..t2 };
    lemma_col_index_same_names(t3.columns, t2.columns, eff);
    let t4 = spec_extract_keys(t3, eff);
    lemma_extract_keys_shape(t3, eff);
    lemma_col_index_same_names(t4.columns, t3.columns, eff);
    lemma_extract_keys_column(t3, eff, k);
    assert(col_flag(cn, "primary"@) == flag(options0, "primary"@));
    assert(spec_change_column(db, tn, json) == db2.update(idx, t4));
    assert(t2.name == t.name);
}

/// A `changeColumn` action that nothing refuses, on a table whose column
/// names are distinct, puts the column, under its new name, where the
/// action says: first, right after the named column, or where it was when
/// the action names no place or the column itself; the table keeps its
/// number of columns.
pub proof fn law_change_column_places(db: Seq<TableV>, tn: Seq<char>, json: JsonV)
    requires
        tindex(db, tn) is Some,
        names_distinct(db[tindex(db, tn)->Some_0].columns),
        ({
            let t = db[tindex(db, tn)->Some_0];
            let column = str_or_empty(json.at("column"@).as_str());
            let options = spec_column_options(arr_at(json, "columnDefinition"@));
            &&& col_index(t.columns, column) is Some
            &&& spec_read_place(json.get("position"@)) is After ==> col_index(
                t.columns,
                spec_read_place(json.get("position"@))->After_0,
            ) is Some
            &&& json.defines("columnDefinition"@)
            &&& !(flag(options, "primary"@) && t.primary_key is Some)
            &&& !(flag(options, "autoincrement"@) && other_autoinc(t.columns, column))
        }),
    ensures
        ({
            let idx = tindex(db, tn)->Some_0;
            let cols = db[idx].columns;
            let column = str_or_empty(json.at("column"@).as_str());
            let cur = col_index(cols, column)->Some_0;
            let name = effective_name(column, json.get_str("newName"@));
            let fin = spec_change_column(db, tn, json)[idx].columns;
            let rp = spec_read_place(json.get("position"@));
            &&& fin.len() == cols.len()
            &&& rp is First ==> fin[0].name == name
            &&& (rp is End || rp == Place::After(column)) ==> fin[cur].name == name
            &&& (rp is After && rp->After_0 != column) ==> exists|p: int|
                1 <= p < fin.len() && fin[p - 1].name == rp->After_0 && #[trigger] fin[p].name == name
        }),
{
    let idx = tindex(db, tn)->Some_0;
    lemma_first_index(db, tname(tn));
    let t = db[idx];
    let cols = t.columns;
    let column = str_or_empty(json.at("column"@).as_str());
    let rp = spec_read_place(json.get("position"@));
    let place = match rp {
        Place::End => super::table::spec_column_place(cols, column),
        _ => rp,
    };
    let cur = col_index(cols, column)->Some_0;
    lemma_first_index(cols, cname(column));
    if rp is End && cur > 0 {
        lemma_col_index_has(cols, cols[cur - 1].name, cur - 1);
    }
    assert(move_ok(cols, column, place));
    let datatype = spec_datatype_from(json.at("datatype"@).at("def"@).at("def"@));
    let options0 = spec_column_options(arr_at(json, "columnDefinition"@));
    let options = if flag(options0, "unique"@) && single_unique_on(t.unique, column) {
        fields_remove(options0, "unique"@)
    } else {
        options0
    };
    let moved = spec_moved(cols, column, place);
    let m = lemma_moved_keeps(cols, column, place, column);
    lemma_first_index_at(moved, cname(column), m);
    let db1 = db.update(idx, TableV { columns: moved, ..t });
    let eff = effective_name(column, json.get_str("newName"@));
    let db2 = if eff != column {
        spec_rename_column(db1, idx, column, eff)
    } else {
        db1
    };
    let t2 = db2[idx];
    if eff != column {
        assert(t2.columns == moved.update(m, ColumnV { name: eff, ..moved[m] }));
    } else {
        assert(t2.columns == moved);
    }
    assert forall|j: int| 0 <= j < moved.len() implies #[trigger] t2.columns[j].name == if j == m {
        eff
    } else {
        moved[j].name
    } by {}
    lemma_col_index_has(t2.columns, eff, m);
    let k = col_index(t2.columns, eff)->Some_0;
    let cn = ColumnV { datatype, options: Some(options), ..t2.columns[k] };
    let t3 = TableV { columns: t2.columns.update(k, cn), ..t2 };
    let t4 = spec_extract_keys(t3, eff);
    lemma_extract_keys_shape(t3, eff);
    assert(spec_change_column(db, tn, json) == db2.update(idx, t4));
    let fin = t4.columns;
    assert forall|j: int| 0 <= j < fin.len() implies #[trigger] fin[j].name == t2.columns[j].name by {
        assert(fin[j].name == t3.columns[j].name);
    }
    if rp is After && rp->After_0 != column {
        assert(fin[m - 1].name == rp->After_0);
        assert(fin[m].name == eff);
    }
}

/// No column called `n` makes no count of the single index column `n`.
proof fn lemma_count_single_none(tcols: Seq<ColumnV>, n: Seq<char>)
    requires
        forall|j: int| 0 <= j < tcols.len() ==> #[trigger] tcols[j].name != n,
    ensures
        super::keys::count_named(tcols, seq![super::table::single(n)]) == 0,
    decreases tcols.len(),
{
    if tcols.len() > 0 {
        let d = tcols.drop_last();
        assert forall|j: int| 0 <= j < d.len() implies #[trigger] d[j].name != n by {
            assert(d[j] == tcols[j]);
        }
        lemma_count_single_none(d, n);
        assert(!has_name(seq![super::table::single(n)], tcols.last().name));
    }
}

/// One column called `n` makes a count of one of the single index column
/// `n`.
proof fn lemma_count_single_one(tcols: Seq<ColumnV>, n: Seq<char>, m: int)
    requires
        0 <= m < tcols.len(),
        tcols[m].name == n,
        forall|j: int| 0 <= j < tcols.len() && j != m ==> #[trigger] tcols[j].name != n,
    ensures
        super::keys::count_named(tcols, seq![super::table::single(n)]) == 1,
    decreases tcols.len(),
{
    let d = tcols.drop_last();
    let key = seq![super::table::single(n)];
    if m == tcols.len() - 1 {
        assert forall|j: int| 0 <= j < d.len() implies #[trigger] d[j].name != n by {
            assert(d[j] == tcols[j]);
        }
        lemma_count_single_none(d, n);
        assert(super::keys::names(key[0], n));
        assert(has_name(key, tcols.last().name));
    } else {
        assert forall|j: int| 0 <= j < d.len() && j != m implies #[trigger] d[j].name != n by {
            assert(d[j] == tcols[j]);
        }
        assert(d[m] == tcols[m]);
        lemma_count_single_one(d, n, m);
        assert(!has_name(key, tcols.last().name));
    }
}

/// Extracting the keys of a primary column whose name no other column has,
/// in a table without a primary key, makes it the primary key and makes the
/// column not nullable.
proof fn lemma_extract_keys_primary(t: TableV, name: Seq<char>, i: int)
    requires
        col_index(t.columns, name) == Some(i),
        t.columns[i].options is Some,
        col_flag(t.columns[i], "primary"@),
        t.primary_key is None,
        forall|j: int| 0 <= j < t.columns.len() && j != i ==> #[trigger] t.columns[j].name != name,
    ensures
        spec_extract_keys(t, name).primary_key == Some(
            PrimaryKeyV {
                name: None,
                index_type: None,
                columns: Some(seq![super::table::single(name)]),
                options: None,
            },
        ),
        spec_extract_keys(t, name).columns[i].options matches Some(o) && fields_get(o, "nullable"@) == Some(
            JsonV::Bool(false),
        ),
{
    lemma_first_index(t.columns, cname(name));
    let c0 = t.columns[i];
    let c1 = without(c0, "primary"@);
    let c2 = ColumnV { reference: None, ..c1 };
    let is_uk = col_flag(c2, "unique"@);
    let c3 = if is_uk {
        without(c2, "unique"@)
    } else {
        c2
    };
    let t1 = TableV { columns: t.columns.update(i, c3), ..t };
    let pk = PrimaryKeyV {
        name: None,
        index_type: None,
        columns: Some(seq![super::table::single(c0.name)]),
        options: None,
    };
    assert forall|j: int| 0 <= j < t1.columns.len() && j != i implies #[trigger] t1.columns[j].name != name by {
        assert(t1.columns[j] == t.columns[j]);
    }
    lemma_count_single_one(t1.columns, name, i);
    assert(super::keys::spec_has_all(pk_cols(pk), t1.columns));
    assert(col_index(t1.columns, name) == Some(i)) by {
        assert forall|j: int| 0 <= j < i implies !cname(name)(#[trigger] t1.columns[j]) by {
            assert(t1.columns[j] == t.columns[j]);
        }
        lemma_first_index_at(t1.columns, cname(name), i);
    }
    assert(super::keys::names(pk_cols(pk)[0], name));
    assert(has_name(pk_cols(pk), t1.columns[i].name));
    let t2 = spec_set_primary_key(t1, pk);
    assert(t2.columns[i] == super::table::set_not_null(c3));
    lemma_fields_insert_get(c3.options->Some_0, "nullable"@, JsonV::Bool(false), "nullable"@);
}

/// A `changeColumn` action that nothing refuses and whose definition marks
/// the column `PRIMARY KEY`, on a table with distinct column names, where
/// no other column has the new name, gives the table a primary key on that
/// column alone and makes the column not nullable.
pub proof fn law_change_column_primary_key(db: Seq<TableV>, tn: Seq<char>, json: JsonV)
    requires
        tindex(db, tn) is Some,
        names_distinct(db[tindex(db, tn)->Some_0].columns),
        ({
            let t = db[tindex(db, tn)->Some_0];
            let column = str_or_empty(json.at("column"@).as_str());
            let options = spec_column_options(arr_at(json, "columnDefinition"@));
            let name = effective_name(column, json.get_str("newName"@));
            &&& col_index(t.columns, column) is Some
            &&& spec_read_place(json.get("position"@)) is After ==> col_index(
                t.columns,
                spec_read_place(json.get("position"@))->After_0,
            ) is Some
            &&& json.defines("columnDefinition"@)
            &&& flag(options, "primary"@)
            &&& t.primary_key is None
            &&& !(flag(options, "autoincrement"@) && other_autoinc(t.columns, column))
            &&& (name == column || col_index(t.columns, name) is None)
        }),
    ensures
        ({
            let idx = tindex(db, tn)->Some_0;
            let column = str_or_empty(json.at("column"@).as_str());
            let name = effective_name(column, json.get_str("newName"@));
            let r = spec_change_column(db, tn, json)[idx];
            &&& r.primary_key == Some(
                PrimaryKeyV {
                    name: None,
                    index_type: None,
                    columns: Some(seq![super::table::single(name)]),
                    options: None,
                },
            )
            &&& col_index(r.columns, name) matches Some(k) && r.columns[k].options matches Some(o) && fields_get(
                o,
                "nullable"@,
            ) == Some(JsonV::Bool(false))
        }),
{
    reveal_strlit("primary");
    reveal_strlit("unique");
    assert("primary"@.len() == 7 && "unique"@.len() == 6);
    let idx = tindex(db, tn)->Some_0;
    lemma_first_index(db, tname(tn));
    let t = db[idx];
    let cols = t.columns;
    let column = str_or_empty(json.at("column"@).as_str());
    let rp = spec_read_place(json.get("position"@));
    let place = match rp {
        Place::End => super::table::spec_column_place(cols, column),
        _ => rp,
    };
    let cur = col_index(cols, column)->Some_0;
    lemma_first_index(cols, cname(column));
    if rp is End && cur > 0 {
        lemma_col_index_has(cols, cols[cur - 1].name, cur - 1);
    }
    assert(move_ok(cols, column, place));
    let datatype = spec_datatype_from(json.at("datatype"@).at("def"@).at("def"@));
    let options0 = spec_column_options(arr_at(json, "columnDefinition"@));
    let options = if flag(options0, "unique"@) && single_unique_on(t.unique, column) {
        fields_remove(options0, "unique"@)
    } else {
        options0
    };
    lemma_fields_remove_get(options0, "unique"@, "primary"@);
    let eff = effective_name(column, json.get_str("newName"@));
    if eff != column {
        lemma_first_index(cols, cname(eff));
        assert forall|i: int| 0 <= i < cols.len() && i != cur implies #[trigger] cols[i].name != eff by {
            assert(!cname(eff)(cols[i]));
        }
    }
    let moved = spec_moved(cols, column, place);
    let m = lemma_moved_keeps(cols, column, place, eff);
    lemma_first_index_at(moved, cname(column), m);
    let db1 = db.update(idx, TableV { columns: moved, ..t });
    let db2 = if eff != column {
        spec_rename_column(db1, idx, column, eff)
    } else {
        db1
    };
    let t2 = db2[idx];
    if eff != column {
        assert(t2.columns == moved.update(m, ColumnV { name: eff, ..moved[m] }));
    } else {
        assert(t2.columns == moved);
    }
    assert forall|j: int| 0 <= j < t2.columns.len() && j != m implies #[trigger] t2.columns[j].name != eff by {
        assert(t2.columns[j] == moved[j]);
    }
    assert(t2.primary_key is None);
    lemma_col_index_has(t2.columns, eff, m);
    lemma_first_index(t2.columns, cname(eff));
    let k = col_index(t2.columns, eff)->Some_0;
    assert(k == m);
    let cn = ColumnV { datatype, options: Some(options), ..t2.columns[k] };
    let t3 = TableV { columns: t2.columns.update(k, cn), ..t2 };
    lemma_col_index_same_names(t3.columns, t2.columns, eff);
    assert forall|j: int| 0 <= j < t3.columns.len() && j != k implies #[trigger] t3.columns[j].name != eff by {
        assert(t3.columns[j] == t2.columns[j]);
    }
    let t4 = spec_extract_keys(t3, eff);
    lemma_extract_keys_shape(t3, eff);
    lemma_col_index_same_names(t4.columns, t3.columns, eff);
    lemma_extract_keys_primary(t3, eff, k);
    assert(spec_change_column(db, tn, json) == db2.update(idx, t4));
}

} // verus!
