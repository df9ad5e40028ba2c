//! ALTER TABLE grammar rules.

use vstd::prelude::*;

use crate::json::{is_node, node, obj1, opt_json, put, view_arr, view_obj, Json, JsonV};
use crate::lexer::{SKind, SToken, TokenKind};

use super::common::{column_attrs_reach, column_reference_reach, default_value_reach, index_columns_reach, index_options_reach, keyed_word_reach, algorithm_words, column_attr_list, column_definitions, column_reference_at, default_value_at, index_column_list, index_columns_at, index_option_list, index_options, keyed_word_at, lock_words, o_default_value, one_of_at, one_of_keywords, p_column_reference, require_datatype, ws_or_equals};
use super::create_table::{charset_words_reach, constraint_reach, eos_reach, ident_list_rest_reach, index_body_reach, opt_reference_reach, opt_ws_ident_reach, table_options_reach, charset_words, charset_words_end, constraint_at, constraint_name, constraint_name_v, ident_list_rest, index_body, index_body_at, index_key_words, is_index_or_key, obj1_v, opt_constraint_full, opt_or_null, opt_reference_at, opt_ws_ident, opt_ws_ident_at, opt_ws_reference, or_null_v, p_create_table_options, s_eos, spec_is_index_or_key, str_or_null_v, table_options_at, word_at, Constraint};
use super::datatypes::{alt_reach, datatype_at, datatype_reach, first_of};
use super::helpers::{o_string_or_ident, opt_view, s_identifier, s_number};
use super::statements::{eos_end, ident_at, node_v, str_arr_v, ws1_end, ws_word_reach};
use super::stream::{frame, is_keyword_at, is_kind_at, mx, reached, ws_end, Stream};

verus! {

broadcast use super::stream::lemma_stream_bounds;

/// `{ action }`.
pub open spec fn action_v(action: Seq<char>) -> JsonV {
    JsonV::Obj(seq![("action"@, JsonV::Str(action))])
}

/// `{ action, key: v }`.
pub open spec fn action_with_v(action: Seq<char>, key: Seq<char>, v: JsonV) -> JsonV {
    JsonV::Obj(seq![("action"@, JsonV::Str(action)), (key, v)])
}

/// `{ action }`.
fn action_only(action: &str) -> (r: Json)
    ensures
        r@ == action_v(action@),
{
    obj1("action", Json::str_lit(action))
}

/// `{ action, <key>: v }`.
fn action_with(action: &str, key: &str, v: Json) -> (r: Json)
    ensures
        r@ == action_with_v(action@, key@, v@),
{
    let ghost vv = v@;
    let mut def: Vec<(String, Json)> = Vec::new();
    put(&mut def, "action", Json::str_lit(action));
    put(&mut def, key, v);
    assert(view_obj(def@) =~= seq![("action"@, JsonV::Str(action@)), (key@, vv)]);
    Json::Obj(def)
}

/// The view of an optional optional value.
pub open spec fn opt_opt_json(o: Option<Option<Json>>) -> Option<Option<JsonV>> {
    match o {
        Some(p) => Some(opt_json(p)),
        None => None,
    }
}

/// `v`, or null when absent.
fn or_null(v: Option<Json>) -> (r: Json)
    ensures
        r@ == or_null_v(opt_json(v)),
{
    opt_or_null(v)
}

/// `first __ second` at `p`, as `{ action }`.
pub open spec fn two_words_at(ts: Seq<SToken>, p: int, first: Seq<char>, second: Seq<char>, action: Seq<char>) -> Option<
    (int, JsonV),
> {
    if is_keyword_at(ts, p, first) && ws1_end(ts, p + 1) is Some && is_keyword_at(
        ts,
        ws1_end(ts, p + 1)->Some_0,
        second,
    ) {
        Some((ws1_end(ts, p + 1)->Some_0 + 1, action_v(action)))
    } else {
        None
    }
}

/// `first __ second` yields `{ action }`.
fn two_words(s: &mut Stream, first: &str, second: &str, action: &str) -> (r: Option<Json>)
    ensures
        frame(*old(s), *final(s)),
        reached(*old(s), *final(s), two_words_at_reach(old(s).spec_tokens(), old(s).spec_pos(), first@, second@)),
        match two_words_at(old(s).spec_tokens(), old(s).spec_pos(), first@, second@, action@) {
            Some((e, v)) => r matches Some(x) && x@ == v && final(s).spec_pos() == e,
            None => r is None,
        },
{
    if s.eat_keyword(first).is_some() && s.ws1() && s.eat_keyword(second).is_some() {
        return Some(action_only(action));
    }
    None
}

/// Where an optional `COLUMN __` at `p` ends.
pub open spec fn opt_column_end(ts: Seq<SToken>, p: int) -> int {
    if is_keyword_at(ts, p, "COLUMN"@) && ws1_end(ts, p + 1) is Some {
        ws1_end(ts, p + 1)->Some_0
    } else {
        p
    }
}

/// Optional `COLUMN __`.
pub fn opt_column(s: &mut Stream)
    ensures
        frame(*old(s), *final(s)),
        reached(*old(s), *final(s), word_ws_reach(old(s).spec_tokens(), old(s).spec_pos(), "COLUMN"@)),
        final(s).spec_pos() == opt_column_end(old(s).spec_tokens(), old(s).spec_pos()),
{
    let save = s.pos();
    if s.eat_keyword("COLUMN").is_some() && s.ws1() {
    } else {
        s.set(save);
    }
}

/// Where an optional `__ COLUMN` from `p` ends.
pub open spec fn opt_ws_column_end(ts: Seq<SToken>, p: int) -> int {
    match ws1_end(ts, p) {
        Some(a) => if is_keyword_at(ts, a, "COLUMN"@) {
            a + 1
        } else {
            p
        },
        None => p,
    }
}

/// Optional `__ COLUMN`.
pub fn opt_ws_column(s: &mut Stream)
    ensures
        frame(*old(s), *final(s)),
        reached(*old(s), *final(s), opt_ws_column_reach(old(s).spec_tokens(), old(s).spec_pos())),
        final(s).spec_pos() == opt_ws_column_end(old(s).spec_tokens(), old(s).spec_pos()),
{
    let save = s.pos();
    if s.ws1() && s.eat_keyword("COLUMN").is_some() {
    } else {
        s.set(save);
    }
}

/// Optional `CONSTRAINT [ident]? __` prefix followed by the keyword `next`.
/// The name is kept only when `next` follows it.
pub fn opt_constraint(s: &mut Stream, next: &str) -> (r: Option<String>)
    ensures
        frame(*old(s), *final(s)),
        reached(*old(s), *final(s), constraint_reach(old(s).spec_tokens(), old(s).spec_pos())),
        constraint_at(old(s).spec_tokens(), old(s).spec_pos(), next@) == (final(s).spec_pos(), opt_view(r)),
{
    opt_constraint_full(s, next).0
}

/// An optional `__ FIRST` or `__ AFTER __ name` from `p`: where it ends and
/// `{ after }`.
pub open spec fn opt_position_at(ts: Seq<SToken>, p: int) -> (int, Option<JsonV>) {
    match ws1_end(ts, p) {
        Some(a) => if is_keyword_at(ts, a, "FIRST"@) {
            (a + 1, Some(obj1_v("after"@, JsonV::Null)))
        } else if is_keyword_at(ts, a, "AFTER"@) && ws1_end(ts, a + 1) is Some && ident_at(
            ts,
            ws1_end(ts, a + 1)->Some_0,
        ) is Some {
            let b = ws1_end(ts, a + 1)->Some_0;
            (b + 1, Some(obj1_v("after"@, JsonV::Str(ident_at(ts, b)->Some_0))))
        } else {
            (p, None)
        },
        None => (p, None),
    }
}

/// Optional trailing position: FIRST or AFTER ident.
fn opt_position(s: &mut Stream) -> (r: Option<Json>)
    ensures
        frame(*old(s), *final(s)),
        reached(*old(s), *final(s), opt_position_reach(old(s).spec_tokens(), old(s).spec_pos())),
        opt_position_at(old(s).spec_tokens(), old(s).spec_pos()) == (final(s).spec_pos(), opt_json(r)),
{
    let save = s.pos();
    if s.ws1() {
        if s.eat_keyword("FIRST").is_some() {
            return Some(obj1("after", Json::Null));
        }
        let asave = s.pos();
        if s.eat_keyword("AFTER").is_some() && s.ws1() {
            if let Some(id) = s_identifier(s) {
                return Some(obj1("after", Json::Str(id)));
            }
        }
        s.set(asave);
    }
    s.set(save);
    None
}

/// The body of a column change from `p`: datatype, attributes, reference and
/// position; where it ends and the fields it adds.
pub open spec fn change_body_at(ts: Seq<SToken>, p: int) -> Option<(int, Seq<(Seq<char>, JsonV)>)> {
    match datatype_at(ts, p) {
        None => None,
        Some((e, dt)) => {
            let (f, attrs) = column_attr_list(ts, e, seq![]);
            let (g, reference) = opt_reference_at(ts, f);
            let (h, position) = opt_position_at(ts, g);
            let fields = seq![
                ("datatype"@, dt),
                ("columnDefinition"@, JsonV::Arr(attrs)),
                ("position"@, or_null_v(position)),
            ];
            Some(
                (
                    h,
                    match reference {
                        Some(r) => fields.push(("reference"@, r)),
                        None => fields,
                    },
                ),
            )
        },
    }
}

/// The body shared by CHANGE and MODIFY after the column names.
fn column_change_body(s: &mut Stream, def: &mut Vec<(String, Json)>) -> (r: bool)
    ensures
        frame(*old(s), *final(s)),
        reached(*old(s), *final(s), change_body_reach(old(s).spec_tokens(), old(s).spec_pos())),
        match change_body_at(old(s).spec_tokens(), old(s).spec_pos()) {
            Some((e, fields)) => r && final(s).spec_pos() == e && view_obj(final(def)@) == view_obj(old(def)@)
                + fields,
            None => !r,
        },
{
    let ghost before = view_obj(def@);
    let datatype = match require_datatype(s) {
        Some(d) => d,
        None => return false,
    };
    let column_definition = column_definitions(s);
    let reference = opt_ws_reference(s);
    let position = opt_position(s);
    let ghost dv = datatype@;
    let ghost cv = view_arr(column_definition@);
    let ghost rv = opt_json(reference);
    let ghost pv = opt_json(position);
    put(def, "datatype", datatype);
    put(def, "columnDefinition", Json::Arr(column_definition));
    put(def, "position", or_null(position));
    if let Some(r) = reference {
        put(def, "reference", r);
    }
    let ghost fields = seq![
        ("datatype"@, dv),
        ("columnDefinition"@, JsonV::Arr(cv)),
        ("position"@, or_null_v(pv)),
    ];
    assert(view_obj(def@) =~= before + match rv {
        Some(r) => fields.push(("reference"@, r)),
        None => fields,
    });
    true
}

/// The fields of an added column: name, datatype, attributes, then the
/// position where `with_position`, then the reference where given.
pub open spec fn added_column_fields(
    name: Seq<char>,
    dt: JsonV,
    attrs: Seq<JsonV>,
    position: Option<Option<JsonV>>,
    reference: Option<JsonV>,
) -> Seq<(Seq<char>, JsonV)> {
    let base = seq![("name"@, JsonV::Str(name)), ("datatype"@, dt), ("columnDefinition"@, JsonV::Arr(attrs))];
    let with_position = match position {
        Some(p) => base.push(("position"@, or_null_v(p))),
        None => base,
    };
    match reference {
        Some(r) => with_position.push(("reference"@, r)),
        None => with_position,
    }
}

/// `ADD [__ COLUMN] __ name __ datatype [attributes] [reference] [position]`
/// at `p`.
pub open spec fn add_column_at(ts: Seq<SToken>, p: int) -> Option<(int, JsonV)> {
    if !is_keyword_at(ts, p, "ADD"@) {
        None
    } else {
        match ws1_end(ts, opt_ws_column_end(ts, p + 1)) {
            None => None,
            Some(a) => match ident_at(ts, a) {
                None => None,
                Some(name) => match ws1_end(ts, a + 1) {
                    None => None,
                    Some(b) => match datatype_at(ts, b) {
                        None => None,
                        Some((e, dt)) => {
                            let (f, attrs) = column_attr_list(ts, e, seq![]);
                            let (g, reference) = opt_reference_at(ts, f);
                            let (h, position) = opt_position_at(ts, g);
                            Some(
                                (
                                    h,
                                    JsonV::Obj(
                                        seq![("action"@, JsonV::Str("addColumn"@))] + added_column_fields(
                                            name,
                                            dt,
                                            attrs,
                                            Some(position),
                                            reference,
                                        ),
                                    ),
                                ),
                            )
                        },
                    },
                },
            },
        }
    }
}

/// The fields of an added column, in order.
fn added_column(
    fields: &mut Vec<(String, Json)>,
    name: String,
    datatype: Json,
    attrs: Vec<Json>,
    position: Option<Option<Json>>,
    reference: Option<Json>,
)
    ensures
        view_obj(final(fields)@) == view_obj(old(fields)@) + added_column_fields(
            name@,
            datatype@,
            view_arr(attrs@),
            opt_opt_json(position),
            opt_json(reference),
        ),
{
    let ghost before = view_obj(fields@);
    let ghost nv = name@;
    let ghost dv = datatype@;
    let ghost av = view_arr(attrs@);
    let ghost pv = opt_opt_json(position);
    let ghost rv = opt_json(reference);
    put(fields, "name", Json::Str(name));
    put(fields, "datatype", datatype);
    put(fields, "columnDefinition", Json::Arr(attrs));
    if let Some(p) = position {
        put(fields, "position", or_null(p));
    }
    if let Some(r) = reference {
        put(fields, "reference", r);
    }
    assert(view_obj(fields@) =~= before + added_column_fields(nv, dv, av, pv, rv));
}

#[verifier::rlimit(60)]
fn add_column(s: &mut Stream) -> (r: Option<Json>)
    ensures
        frame(*old(s), *final(s)),
        reached(*old(s), *final(s), add_column_reach(old(s).spec_tokens(), old(s).spec_pos())),
        match add_column_at(old(s).spec_tokens(), old(s).spec_pos()) {
            Some((e, v)) => r matches Some(x) && x@ == v && final(s).spec_pos() == e,
            None => r is None,
        },
{
    proof {
        reveal(add_column_reach);
    }
    if s.eat_keyword("ADD").is_none() {
        return None;
    }
    opt_ws_column(s);
    if !s.ws1() {
        return None;
    }
    let name = match s_identifier(s) {
        Some(n) => n,
        None => return None,
    };
    if !s.ws1() {
        return None;
    }
    let datatype = match require_datatype(s) {
        Some(d) => d,
        None => return None,
    };
    let column_definition = column_definitions(s);
    let reference = opt_ws_reference(s);
    let position = opt_position(s);
    let mut def: Vec<(String, Json)> = Vec::new();
    put(&mut def, "action", Json::str_lit("addColumn"));
    added_column(&mut def, name, datatype, column_definition, Some(position), reference);
    Some(Json::Obj(def))
}

/// A column of `ADD (columns)`: `name __ datatype [attributes] [reference]`
/// at `p`.
pub open spec fn add_columns_item_at(ts: Seq<SToken>, p: int) -> Option<(int, JsonV)> {
    match ident_at(ts, p) {
        None => None,
        Some(name) => match ws1_end(ts, p + 1) {
            None => None,
            Some(b) => match datatype_at(ts, b) {
                None => None,
                Some((e, dt)) => {
                    let (f, attrs) = column_attr_list(ts, e, seq![]);
                    let (g, reference) = opt_reference_at(ts, f);
                    Some((g, JsonV::Obj(added_column_fields(name, dt, attrs, None, reference))))
                },
            },
        },
    }
}

fn add_columns_item(s: &mut Stream) -> (r: Option<Json>)
    ensures
        frame(*old(s), *final(s)),
        reached(*old(s), *final(s), add_columns_item_reach(old(s).spec_tokens(), old(s).spec_pos())),
        match add_columns_item_at(old(s).spec_tokens(), old(s).spec_pos()) {
            Some((e, v)) => r matches Some(x) && x@ == v && final(s).spec_pos() == e,
            None => r is None,
        },
{
    let name = match s_identifier(s) {
        Some(n) => n,
        None => return None,
    };
    if !s.ws1() {
        return None;
    }
    let datatype = match require_datatype(s) {
        Some(d) => d,
        None => return None,
    };
    let column_definition = column_definitions(s);
    let reference = opt_ws_reference(s);
    let mut obj: Vec<(String, Json)> = Vec::new();
    added_column(&mut obj, name, datatype, column_definition, None, reference);
    assert(view_obj(obj@) =~= seq![] + view_obj(obj@));
    Some(Json::Obj(obj))
}

/// The further columns `, column` of `ADD (columns)` from `p`, after `acc`.
pub open spec fn add_columns_rest(ts: Seq<SToken>, p: int, acc: Seq<JsonV>) -> (int, Seq<JsonV>)
    decreases ts.len() - p,
{
    let a = ws_end(ts, p);
    if p >= 0 && is_kind_at(ts, a, SKind::Comma) {
        match add_columns_item_at(ts, ws_end(ts, a + 1)) {
            Some((e, c)) => if p < e <= ts.len() {
                add_columns_rest(ts, e, acc.push(c))
            } else {
                (p, acc)
            },
            None => (p, acc),
        }
    } else {
        (p, acc)
    }
}

/// `ADD [__ COLUMN] _ ( _ column , ... _ )` at `p`.
pub open spec fn add_columns_at(ts: Seq<SToken>, p: int) -> Option<(int, JsonV)> {
    if !is_keyword_at(ts, p, "ADD"@) {
        None
    } else {
        let a = ws_end(ts, opt_ws_column_end(ts, p + 1));
        if !is_kind_at(ts, a, SKind::LParens) {
            None
        } else {
            match add_columns_item_at(ts, ws_end(ts, a + 1)) {
                None => None,
                Some((e1, c1)) => {
                    let (e2, cols) = add_columns_rest(ts, e1, seq![c1]);
                    let f = ws_end(ts, e2);
                    if is_kind_at(ts, f, SKind::RParens) {
                        Some((f + 1, action_with_v("addColumns"@, "columns"@, JsonV::Arr(cols))))
                    } else {
                        None
                    }
                },
            }
        }
    }
}

#[verifier::rlimit(60)]
fn add_columns(s: &mut Stream) -> (r: Option<Json>)
    ensures
        frame(*old(s), *final(s)),
        reached(*old(s), *final(s), add_columns_reach(old(s).spec_tokens(), old(s).spec_pos())),
        match add_columns_at(old(s).spec_tokens(), old(s).spec_pos()) {
            Some((e, v)) => r matches Some(x) && x@ == v && final(s).spec_pos() == e,
            None => r is None,
        },
{
    proof {
        reveal(add_columns_reach);
    }
    let ghost ts = s.spec_tokens();
    if s.eat_keyword("ADD").is_none() {
        return None;
    }
    opt_ws_column(s);
    s.ws0();
    if s.eat(&TokenKind::LParens).is_none() {
        return None;
    }
    s.ws0();
    let first = match add_columns_item(s) {
        Some(f) => f,
        None => return None,
    };
    let ghost target = add_columns_rest(ts, s.spec_pos(), seq![first@]);
    let ghost g = mx(s.spec_furthest(), add_columns_rest_reach(ts, s.spec_pos()));
    let mut columns: Vec<Json> = Vec::new();
    proof {
        crate::json::lemma_view_arr_push(columns@, first);
    }
    columns.push(first);
    assert(view_arr(columns@) =~= seq![first@]);
    loop
        invariant
            frame(*old(s), *s),
            s.spec_tokens() == ts,
            add_columns_rest(ts, s.spec_pos(), view_arr(columns@)) == target,
            mx(s.spec_furthest(), add_columns_rest_reach(ts, s.spec_pos())) == g,
        ensures
            target == (s.spec_pos(), view_arr(columns@)),
            s.spec_furthest() == g,
        decreases s.spec_tokens().len() - s.spec_pos(),
    {
        let sp = s.pos();
        s.ws0();
        if s.eat(&TokenKind::Comma).is_none() {
            s.set(sp);
            break;
        }
        s.ws0();
        match add_columns_item(s) {
            Some(c) => {
                proof {
                    crate::json::lemma_view_arr_push(columns@, c);
                }
                columns.push(c);
            },
            None => {
                s.set(sp);
                break;
            },
        }
    }
    s.ws0();
    if s.eat(&TokenKind::RParens).is_none() {
        return None;
    }
    Some(action_with("addColumns", "columns", Json::Arr(columns)))
}

/// The fields of an added index: name, index type where `typed`, columns,
/// options.
pub open spec fn index_fields(
    action: Seq<char>,
    name: JsonV,
    itype: Option<Option<JsonV>>,
    cols: Seq<JsonV>,
    opts: Seq<JsonV>,
) -> JsonV {
    let head = seq![("action"@, JsonV::Str(action)), ("name"@, name)];
    let with_index = match itype {
        Some(t) => head.push(("index"@, or_null_v(t))),
        None => head,
    };
    JsonV::Obj(with_index.push(("columns"@, JsonV::Arr(cols))).push(("options"@, JsonV::Arr(opts))))
}

/// The value of an added index.
fn index_value(action: &str, name: Json, itype: Option<Option<Json>>, columns: Vec<Json>, options: Vec<Json>) -> (r: Json)
    ensures
        r@ == index_fields(
            action@,
            name@,
            opt_opt_json(itype),
            view_arr(columns@),
            view_arr(options@),
        ),
{
    let ghost nv = name@;
    let ghost iv = opt_opt_json(itype);
    let ghost cv = view_arr(columns@);
    let ghost ov = view_arr(options@);
    let mut def: Vec<(String, Json)> = Vec::new();
    put(&mut def, "action", Json::str_lit(action));
    put(&mut def, "name", name);
    if let Some(t) = itype {
        put(&mut def, "index", or_null(t));
    }
    put(&mut def, "columns", Json::Arr(columns));
    put(&mut def, "options", Json::Arr(options));
    assert(view_obj(def@) =~= index_fields(action@, nv, iv, cv, ov)->Obj_0);
    Json::Obj(def)
}

/// `ADD __ (INDEX | KEY) [__ name] [USING type] (columns) [options]` at `p`.
pub open spec fn add_index_at(ts: Seq<SToken>, p: int) -> Option<(int, JsonV)> {
    if !is_keyword_at(ts, p, "ADD"@) {
        None
    } else {
        match ws1_end(ts, p + 1) {
            None => None,
            Some(a) => if !one_of_at(ts, a, index_key_words()) {
                None
            } else {
                let (b, name) = opt_ws_ident_at(ts, a + 1);
                match index_body_at(ts, b) {
                    Some((f, itype, cols, opts)) => Some(
                        (f, index_fields("addIndex"@, str_or_null_v(name), Some(itype), cols, opts)),
                    ),
                    None => None,
                }
            },
        }
    }
}

/// A name, or null.
fn str_or_null(name: Option<String>) -> (r: Json)
    ensures
        r@ == str_or_null_v(opt_view(name)),
{
    match name {
        Some(n) => Json::Str(n),
        None => Json::Null,
    }
}

fn add_index(s: &mut Stream) -> (r: Option<Json>)
    ensures
        frame(*old(s), *final(s)),
        reached(*old(s), *final(s), add_index_reach(old(s).spec_tokens(), old(s).spec_pos())),
        match add_index_at(old(s).spec_tokens(), old(s).spec_pos()) {
            Some((e, v)) => r matches Some(x) && x@ == v && final(s).spec_pos() == e,
            None => r is None,
        },
{
    proof {
        reveal(add_index_reach);
    }
    if s.eat_keyword("ADD").is_none() || !s.ws1() {
        return None;
    }
    let words: [&str; 2] = ["INDEX", "KEY"];
    assert(words@ =~= index_key_words());
    if one_of_keywords(s, &words).is_none() {
        return None;
    }
    let name = opt_ws_ident(s);
    match index_body(s) {
        Some((index, columns, options)) => Some(
            index_value("addIndex", str_or_null(name), Some(index), columns, options),
        ),
        None => None,
    }
}

/// `ADD __ [CONSTRAINT [name] __] PRIMARY __ KEY [USING type] (columns)
/// [options]` at `p`.
pub open spec fn add_primary_key_at(ts: Seq<SToken>, p: int) -> Option<(int, JsonV)> {
    if !is_keyword_at(ts, p, "ADD"@) {
        None
    } else {
        match ws1_end(ts, p + 1) {
            None => None,
            Some(a) => {
                let (c0, cname) = constraint_at(ts, a, "PRIMARY"@);
                if !is_keyword_at(ts, c0, "PRIMARY"@) {
                    None
                } else {
                    match ws1_end(ts, c0 + 1) {
                        Some(k) => if is_keyword_at(ts, k, "KEY"@) {
                            match index_body_at(ts, k + 1) {
                                Some((f, itype, cols, opts)) => Some(
                                    (
                                        f,
                                        index_fields(
                                            "addPrimaryKey"@,
                                            constraint_name_v(cname),
                                            Some(itype),
                                            cols,
                                            opts,
                                        ),
                                    ),
                                ),
                                None => None,
                            }
                        } else {
                            None
                        },
                        None => None,
                    }
                }
            },
        }
    }
}

fn add_primary_key(s: &mut Stream) -> (r: Option<Json>)
    ensures
        frame(*old(s), *final(s)),
        reached(*old(s), *final(s), add_primary_key_reach(old(s).spec_tokens(), old(s).spec_pos())),
        match add_primary_key_at(old(s).spec_tokens(), old(s).spec_pos()) {
            Some((e, v)) => r matches Some(x) && x@ == v && final(s).spec_pos() == e,
            None => r is None,
        },
{
    proof {
        reveal(add_primary_key_reach);
    }
    if s.eat_keyword("ADD").is_none() || !s.ws1() {
        return None;
    }
    let constraint = opt_constraint(s, "PRIMARY");
    if s.eat_keyword("PRIMARY").is_none() || !s.ws1() || s.eat_keyword("KEY").is_none() {
        return None;
    }
    match index_body(s) {
        Some((index, columns, options)) => Some(
            index_value("addPrimaryKey", constraint_name(Constraint(constraint)), Some(index), columns, options),
        ),
        None => None,
    }
}

/// Where an optional `__ (INDEX | KEY)` from `p` ends.
pub open spec fn opt_index_word_end(ts: Seq<SToken>, p: int) -> int {
    match ws1_end(ts, p) {
        Some(x) => if one_of_at(ts, x, index_key_words()) {
            x + 1
        } else {
            p
        },
        None => p,
    }
}

/// Optional `__ (INDEX | KEY)`.
fn opt_index_word(s: &mut Stream)
    ensures
        frame(*old(s), *final(s)),
        reached(*old(s), *final(s), ws_word_reach(old(s).spec_tokens(), old(s).spec_pos(), index_key_words())),
        final(s).spec_pos() == opt_index_word_end(old(s).spec_tokens(), old(s).spec_pos()),
{
    let sp = s.pos();
    let words: [&str; 2] = ["INDEX", "KEY"];
    assert(words@ =~= index_key_words());
    if s.ws1() && one_of_keywords(s, &words).is_some() {
    } else {
        s.set(sp);
    }
}

/// `ADD __ [CONSTRAINT [name] __] UNIQUE [__ (INDEX | KEY)] [__ name]
/// [USING type] (columns) [options]` at `p`.
pub open spec fn add_unique_key_at(ts: Seq<SToken>, p: int) -> Option<(int, JsonV)> {
    if !is_keyword_at(ts, p, "ADD"@) {
        None
    } else {
        match ws1_end(ts, p + 1) {
            None => None,
            Some(a) => {
                let (c0, cname) = constraint_at(ts, a, "UNIQUE"@);
                if !is_keyword_at(ts, c0, "UNIQUE"@) {
                    None
                } else {
                    let (b, _ident) = opt_ws_ident_at(ts, opt_index_word_end(ts, c0 + 1));
                    match index_body_at(ts, b) {
                        Some((f, itype, cols, opts)) => Some(
                            (f, index_fields("addUniqueKey"@, constraint_name_v(cname), Some(itype), cols, opts)),
                        ),
                        None => None,
                    }
                }
            },
        }
    }
}

fn add_unique_key(s: &mut Stream) -> (r: Option<Json>)
    ensures
        frame(*old(s), *final(s)),
        reached(*old(s), *final(s), add_unique_key_reach(old(s).spec_tokens(), old(s).spec_pos())),
        match add_unique_key_at(old(s).spec_tokens(), old(s).spec_pos()) {
            Some((e, v)) => r matches Some(x) && x@ == v && final(s).spec_pos() == e,
            None => r is None,
        },
{
    proof {
        reveal(add_unique_key_reach);
    }
    if s.eat_keyword("ADD").is_none() || !s.ws1() {
        return None;
    }
    let constraint = opt_constraint(s, "UNIQUE");
    if s.eat_keyword("UNIQUE").is_none() {
        return None;
    }
    // Optional __ INDEX | __ KEY.
    opt_index_word(s);
    // The index identifier is parsed but the name comes from the constraint.
    let _index_ident = opt_ws_ident(s);
    match index_body(s) {
        Some((index, columns, options)) => Some(
            index_value("addUniqueKey", constraint_name(Constraint(constraint)), Some(index), columns, options),
        ),
        None => None,
    }
}

/// A name that is the word index or key counts as none.
pub open spec fn key_name(name: Option<Seq<char>>) -> Option<Seq<char>> {
    match name {
        Some(n) => if spec_is_index_or_key(n) {
            None
        } else {
            Some(n)
        },
        None => None,
    }
}

/// `ADD __ kw [__ (INDEX | KEY)] [__ name] (columns) [options]` at `p`.
pub open spec fn add_named_index_at(ts: Seq<SToken>, p: int, kw: Seq<char>, action: Seq<char>) -> Option<(int, JsonV)> {
    if !is_keyword_at(ts, p, "ADD"@) {
        None
    } else {
        match ws1_end(ts, p + 1) {
            None => None,
            Some(a) => if !is_keyword_at(ts, a, kw) {
                None
            } else {
                let (b, name) = opt_ws_ident_at(ts, opt_index_word_end(ts, a + 1));
                match index_columns_at(ts, b) {
                    None => None,
                    Some((e, cols)) => {
                        let (f, opts) = index_option_list(ts, e, seq![]);
                        Some((f, index_fields(action, str_or_null_v(key_name(name)), None, cols, opts)))
                    },
                }
            },
        }
    }
}

/// ADD FULLTEXT or ADD SPATIAL: `ADD kw [INDEX|KEY]? [name]? (cols) opts`.
fn add_named_index(s: &mut Stream, kw: &str, action: &str) -> (r: Option<Json>)
    ensures
        frame(*old(s), *final(s)),
        reached(*old(s), *final(s), add_named_index_reach(old(s).spec_tokens(), old(s).spec_pos(), kw@)),
        match add_named_index_at(old(s).spec_tokens(), old(s).spec_pos(), kw@, action@) {
            Some((e, v)) => r matches Some(x) && x@ == v && final(s).spec_pos() == e,
            None => r is None,
        },
{
    proof {
        reveal(add_named_index_reach);
    }
    if s.eat_keyword("ADD").is_none() || !s.ws1() || s.eat_keyword(kw).is_none() {
        return None;
    }
    opt_index_word(s);
    let name = opt_ws_ident(s);
    let columns = match index_column_list(s) {
        Some(c) => c,
        None => return None,
    };
    let options = index_options(s);
    // The word index or key read as a name means no name.
    let ghost nv = opt_view(name);
    let name = match name {
        Some(n) => if is_index_or_key(n.as_str()) {
            None
        } else {
            Some(n)
        },
        None => None,
    };
    assert(opt_view(name) == key_name(nv));
    Some(index_value(action, str_or_null(name), None, columns, options))
}

/// `ADD __ [CONSTRAINT [name] __] FOREIGN __ KEY [__ name] (columns) _
/// reference` at `p`.
pub open spec fn add_foreign_key_at(ts: Seq<SToken>, p: int) -> Option<(int, JsonV)> {
    if !is_keyword_at(ts, p, "ADD"@) {
        None
    } else {
        match ws1_end(ts, p + 1) {
            None => None,
            Some(a) => {
                let (c0, cname) = constraint_at(ts, a, "FOREIGN"@);
                if !is_keyword_at(ts, c0, "FOREIGN"@) {
                    None
                } else {
                    match ws1_end(ts, c0 + 1) {
                        Some(k) => if is_keyword_at(ts, k, "KEY"@) {
                            let (b, _index_name) = opt_ws_ident_at(ts, k + 1);
                            match index_columns_at(ts, b) {
                                None => None,
                                Some((e, cols)) => match column_reference_at(ts, ws_end(ts, e)) {
                                    Some((f, reference)) => Some(
                                        (
                                            f,
                                            JsonV::Obj(
                                                seq![
                                                    ("action"@, JsonV::Str("addForeignKey"@)),
                                                    ("name"@, constraint_name_v(cname)),
                                                    ("columns"@, JsonV::Arr(cols)),
                                                    ("reference"@, reference),
                                                ],
                                            ),
                                        ),
                                    ),
                                    None => None,
                                },
                            }
                        } else {
                            None
                        },
                        None => None,
                    }
                }
            },
        }
    }
}

fn add_foreign_key(s: &mut Stream) -> (r: Option<Json>)
    ensures
        frame(*old(s), *final(s)),
        reached(*old(s), *final(s), add_foreign_key_reach(old(s).spec_tokens(), old(s).spec_pos())),
        match add_foreign_key_at(old(s).spec_tokens(), old(s).spec_pos()) {
            Some((e, v)) => r matches Some(x) && x@ == v && final(s).spec_pos() == e,
            None => r is None,
        },
{
    proof {
        reveal(add_foreign_key_reach);
    }
    if s.eat_keyword("ADD").is_none() || !s.ws1() {
        return None;
    }
    let constraint = opt_constraint(s, "FOREIGN");
    let ghost cname = opt_view(constraint);
    if s.eat_keyword("FOREIGN").is_none() || !s.ws1() || s.eat_keyword("KEY").is_none() {
        return None;
    }
    let _index_name = opt_ws_ident(s);
    let columns = match index_column_list(s) {
        Some(c) => c,
        None => return None,
    };
    s.ws0();
    let reference = match p_column_reference(s) {
        Some(r) => r,
        None => return None,
    };
    let ghost cv = view_arr(columns@);
    let ghost rv = reference@;
    let mut def: Vec<(String, Json)> = Vec::new();
    put(&mut def, "action", Json::str_lit("addForeignKey"));
    put(&mut def, "name", constraint_name(Constraint(constraint)));
    put(&mut def, "columns", Json::Arr(columns));
    put(&mut def, "reference", reference);
    assert(view_obj(def@) =~= seq![
        ("action"@, JsonV::Str("addForeignKey"@)),
        ("name"@, constraint_name_v(cname)),
        ("columns"@, JsonV::Arr(cv)),
        ("reference"@, rv),
    ]);
    Some(Json::Obj(def))
}

/// `ALGORITHM ( __ | = ) (DEFAULT | INPLACE | COPY)` at `p`.
pub open spec fn algorithm_at(ts: Seq<SToken>, p: int) -> Option<(int, JsonV)> {
    match keyed_word_at(ts, p, "ALGORITHM"@, algorithm_words()) {
        Some((e, w)) => Some((e, action_with_v("changeAlgorithm"@, "algorithm"@, JsonV::Str(w)))),
        None => None,
    }
}

fn algorithm(s: &mut Stream) -> (r: Option<Json>)
    ensures
        frame(*old(s), *final(s)),
        reached(*old(s), *final(s), keyed_word_reach(old(s).spec_tokens(), old(s).spec_pos(), "ALGORITHM"@, algorithm_words())),
        match algorithm_at(old(s).spec_tokens(), old(s).spec_pos()) {
            Some((e, v)) => r matches Some(x) && x@ == v && final(s).spec_pos() == e,
            None => r is None,
        },
{
    if s.eat_keyword("ALGORITHM").is_none() {
        return None;
    }
    if !ws_or_equals(s) {
        return None;
    }
    let words: [&str; 3] = ["DEFAULT", "INPLACE", "COPY"];
    assert(words@ =~= algorithm_words());
    match one_of_keywords(s, &words) {
        Some(v) => Some(action_with("changeAlgorithm", "algorithm", Json::Str(v))),
        None => None,
    }
}

/// `ALTER __ [COLUMN __] name` at `p`: where the name stands.
pub open spec fn alter_column_at(ts: Seq<SToken>, p: int) -> Option<int> {
    if is_keyword_at(ts, p, "ALTER"@) && ws1_end(ts, p + 1) is Some {
        Some(opt_column_end(ts, ws1_end(ts, p + 1)->Some_0))
    } else {
        None
    }
}

/// `__ kw1 __ kw2` from `p`: where it ends.
pub open spec fn ws_two_words_end(ts: Seq<SToken>, p: int, kw1: Seq<char>, kw2: Seq<char>) -> Option<int> {
    match ws1_end(ts, p) {
        Some(a) => if is_keyword_at(ts, a, kw1) {
            match ws1_end(ts, a + 1) {
                Some(b) => if is_keyword_at(ts, b, kw2) {
                    Some(b + 1)
                } else {
                    None
                },
                None => None,
            }
        } else {
            None
        },
        None => None,
    }
}

/// `ALTER __ [COLUMN __] name __ SET __ DEFAULT __ value` at `p`.
pub open spec fn set_default_at(ts: Seq<SToken>, p: int) -> Option<(int, JsonV)> {
    match alter_column_at(ts, p) {
        None => None,
        Some(c) => match ident_at(ts, c) {
            None => None,
            Some(column) => match ws_two_words_end(ts, c + 1, "SET"@, "DEFAULT"@) {
                None => None,
                Some(d) => match ws1_end(ts, d) {
                    None => None,
                    Some(z) => match default_value_at(ts, z) {
                        Some((e, v)) => Some(
                            (
                                e,
                                JsonV::Obj(
                                    seq![
                                        ("action"@, JsonV::Str("setDefaultColumnValue"@)),
                                        ("column"@, JsonV::Str(column)),
                                        ("value"@, v),
                                    ],
                                ),
                            ),
                        ),
                        None => None,
                    },
                },
            },
        },
    }
}

fn set_default(s: &mut Stream) -> (r: Option<Json>)
    ensures
        frame(*old(s), *final(s)),
        reached(*old(s), *final(s), set_default_reach(old(s).spec_tokens(), old(s).spec_pos())),
        match set_default_at(old(s).spec_tokens(), old(s).spec_pos()) {
            Some((e, v)) => r matches Some(x) && x@ == v && final(s).spec_pos() == e,
            None => r is None,
        },
{
    proof {
        reveal(alter_column_words_reach);
    }
    proof {
        reveal(set_default_reach);
    }
    if s.eat_keyword("ALTER").is_none() || !s.ws1() {
        return None;
    }
    opt_column(s);
    let column = match s_identifier(s) {
        Some(c) => c,
        None => return None,
    };
    if !s.ws1() || s.eat_keyword("SET").is_none() || !s.ws1() || s.eat_keyword("DEFAULT").is_none() {
        return None;
    }
    if !s.ws1() {
        return None;
    }
    let value = match o_default_value(s) {
        Some(v) => v,
        None => return None,
    };
    let ghost cv = column@;
    let ghost vv = value@;
    let mut def: Vec<(String, Json)> = Vec::new();
    put(&mut def, "action", Json::str_lit("setDefaultColumnValue"));
    put(&mut def, "column", Json::Str(column));
    put(&mut def, "value", value);
    assert(view_obj(def@) =~= seq![
        ("action"@, JsonV::Str("setDefaultColumnValue"@)),
        ("column"@, JsonV::Str(cv)),
        ("value"@, vv),
    ]);
    Some(Json::Obj(def))
}

/// `ALTER __ [COLUMN __] name __ DROP __ DEFAULT` at `p`.
pub open spec fn drop_default_at(ts: Seq<SToken>, p: int) -> Option<(int, JsonV)> {
    match alter_column_at(ts, p) {
        None => None,
        Some(c) => match ident_at(ts, c) {
            None => None,
            Some(column) => match ws_two_words_end(ts, c + 1, "DROP"@, "DEFAULT"@) {
                None => None,
                Some(d) => Some((d, action_with_v("dropDefaultColumnValue"@, "column"@, JsonV::Str(column)))),
            },
        },
    }
}

fn drop_default(s: &mut Stream) -> (r: Option<Json>)
    ensures
        frame(*old(s), *final(s)),
        reached(*old(s), *final(s), alter_column_words_reach(old(s).spec_tokens(), old(s).spec_pos(), "DROP"@, "DEFAULT"@)),
        match drop_default_at(old(s).spec_tokens(), old(s).spec_pos()) {
            Some((e, v)) => r matches Some(x) && x@ == v && final(s).spec_pos() == e,
            None => r is None,
        },
{
    proof {
        reveal(alter_column_words_reach);
    }
    if s.eat_keyword("ALTER").is_none() || !s.ws1() {
        return None;
    }
    opt_column(s);
    let column = match s_identifier(s) {
        Some(c) => c,
        None => return None,
    };
    if !s.ws1() || s.eat_keyword("DROP").is_none() || !s.ws1() || s.eat_keyword("DEFAULT").is_none() {
        return None;
    }
    Some(action_with("dropDefaultColumnValue", "column", Json::Str(column)))
}

/// `CHANGE __ [COLUMN __] name __ new __ body` at `p`.
pub open spec fn change_column_at(ts: Seq<SToken>, p: int) -> Option<(int, JsonV)> {
    if !(is_keyword_at(ts, p, "CHANGE"@) && ws1_end(ts, p + 1) is Some) {
        None
    } else {
        let c = opt_column_end(ts, ws1_end(ts, p + 1)->Some_0);
        match ident_at(ts, c) {
            None => None,
            Some(column) => match ws1_end(ts, c + 1) {
                None => None,
                Some(b) => match ident_at(ts, b) {
                    None => None,
                    Some(new_name) => match ws1_end(ts, b + 1) {
                        None => None,
                        Some(d) => match change_body_at(ts, d) {
                            Some((e, fields)) => Some(
                                (
                                    e,
                                    JsonV::Obj(
                                        seq![
                                            ("action"@, JsonV::Str("changeColumn"@)),
                                            ("column"@, JsonV::Str(column)),
                                            ("newName"@, JsonV::Str(new_name)),
                                        ] + fields,
                                    ),
                                ),
                            ),
                            None => None,
                        },
                    },
                },
            },
        }
    }
}

fn change_column(s: &mut Stream) -> (r: Option<Json>)
    ensures
        frame(*old(s), *final(s)),
        reached(*old(s), *final(s), change_column_reach(old(s).spec_tokens(), old(s).spec_pos(), "CHANGE"@, true)),
        match change_column_at(old(s).spec_tokens(), old(s).spec_pos()) {
            Some((e, v)) => r matches Some(x) && x@ == v && final(s).spec_pos() == e,
            None => r is None,
        },
{
    proof {
        reveal(change_column_reach);
    }
    if s.eat_keyword("CHANGE").is_none() || !s.ws1() {
        return None;
    }
    opt_column(s);
    let column = match s_identifier(s) {
        Some(c) => c,
        None => return None,
    };
    if !s.ws1() {
        return None;
    }
    let new_name = match s_identifier(s) {
        Some(n) => n,
        None => return None,
    };
    if !s.ws1() {
        return None;
    }
    let ghost cv = column@;
    let ghost nv = new_name@;
    let mut def: Vec<(String, Json)> = Vec::new();
    put(&mut def, "action", Json::str_lit("changeColumn"));
    put(&mut def, "column", Json::Str(column));
    put(&mut def, "newName", Json::Str(new_name));
    assert(view_obj(def@) =~= seq![
        ("action"@, JsonV::Str("changeColumn"@)),
        ("column"@, JsonV::Str(cv)),
        ("newName"@, JsonV::Str(nv)),
    ]);
    if !column_change_body(s, &mut def) {
        return None;
    }
    Some(Json::Obj(def))
}

/// `MODIFY __ [COLUMN __] name __ body` at `p`.
pub open spec fn modify_column_at(ts: Seq<SToken>, p: int) -> Option<(int, JsonV)> {
    if !(is_keyword_at(ts, p, "MODIFY"@) && ws1_end(ts, p + 1) is Some) {
        None
    } else {
        let c = opt_column_end(ts, ws1_end(ts, p + 1)->Some_0);
        match ident_at(ts, c) {
            None => None,
            Some(column) => match ws1_end(ts, c + 1) {
                None => None,
                Some(d) => match change_body_at(ts, d) {
                    Some((e, fields)) => Some(
                        (
                            e,
                            JsonV::Obj(
                                seq![("action"@, JsonV::Str("changeColumn"@)), ("column"@, JsonV::Str(column))]
                                    + fields,
                            ),
                        ),
                    ),
                    None => None,
                },
            },
        }
    }
}

fn modify_column(s: &mut Stream) -> (r: Option<Json>)
    ensures
        frame(*old(s), *final(s)),
        reached(*old(s), *final(s), change_column_reach(old(s).spec_tokens(), old(s).spec_pos(), "MODIFY"@, false)),
        match modify_column_at(old(s).spec_tokens(), old(s).spec_pos()) {
            Some((e, v)) => r matches Some(x) && x@ == v && final(s).spec_pos() == e,
            None => r is None,
        },
{
    proof {
        reveal(change_column_reach);
    }
    if s.eat_keyword("MODIFY").is_none() || !s.ws1() {
        return None;
    }
    opt_column(s);
    let column = match s_identifier(s) {
        Some(c) => c,
        None => return None,
    };
    if !s.ws1() {
        return None;
    }
    let ghost cv = column@;
    let mut def: Vec<(String, Json)> = Vec::new();
    put(&mut def, "action", Json::str_lit("changeColumn"));
    put(&mut def, "column", Json::Str(column));
    assert(view_obj(def@) =~= seq![("action"@, JsonV::Str("changeColumn"@)), ("column"@, JsonV::Str(cv))]);
    // MODIFY has no new name.
    if !column_change_body(s, &mut def) {
        return None;
    }
    Some(Json::Obj(def))
}

/// An optional `__ COLLATE __ collation` from `p`: where it ends and the
/// collation.
pub open spec fn opt_collate_clause_at(ts: Seq<SToken>, p: int) -> (int, Option<Seq<char>>) {
    match ws1_end(ts, p) {
        Some(a) => if is_keyword_at(ts, a, "COLLATE"@) {
            match ws1_end(ts, a + 1) {
                Some(b) => match word_at(ts, b) {
                    Some(v) => (b + 1, Some(v)),
                    None => (p, None),
                },
                None => (p, None),
            }
        } else {
            (p, None)
        },
        None => (p, None),
    }
}

/// `CONVERT __ TO __ (CHARACTER SET | CHARSET) __ charset [__ COLLATE __
/// collation]` at `p`.
pub open spec fn convert_to_charset_at(ts: Seq<SToken>, p: int) -> Option<(int, JsonV)> {
    if !is_keyword_at(ts, p, "CONVERT"@) {
        None
    } else {
        match ws1_end(ts, p + 1) {
                None => None,
                Some(t) => if !is_keyword_at(ts, t, "TO"@) {
                    None
                } else {
                    match ws1_end(ts, t + 1) {
                        None => None,
                        Some(a) => match charset_words_end(ts, a) {
                            None => None,
                            Some(b) => match ws1_end(ts, b) {
                                None => None,
                                Some(c) => match word_at(ts, c) {
                                    None => None,
                                    Some(charset) => {
                                        let (e, collate) = opt_collate_clause_at(ts, c + 1);
                                        Some(
                                            (
                                                e,
                                                JsonV::Obj(
                                                    seq![
                                                        ("action"@, JsonV::Str("convertToCharacterSet"@)),
                                                        ("charset"@, JsonV::Str(charset)),
                                                        ("collate"@, str_or_null_v(collate)),
                                                    ],
                                                ),
                                            ),
                                        )
                                    },
                                },
                            },
                        },
                    }
                },
        }
    }
}

/// Parse an optional `__ COLLATE __ collation`.
fn opt_collate_clause(s: &mut Stream) -> (r: Option<String>)
    ensures
        frame(*old(s), *final(s)),
        reached(*old(s), *final(s), opt_collate_clause_reach(old(s).spec_tokens(), old(s).spec_pos())),
        opt_collate_clause_at(old(s).spec_tokens(), old(s).spec_pos()) == (final(s).spec_pos(), opt_view(r)),
{
    let sp = s.pos();
    if s.ws1() && s.eat_keyword("COLLATE").is_some() && s.ws1() {
        if let Some(c) = o_string_or_ident(s) {
            return Some(c);
        }
    }
    s.set(sp);
    None
}

fn convert_to_charset(s: &mut Stream) -> (r: Option<Json>)
    ensures
        frame(*old(s), *final(s)),
        reached(*old(s), *final(s), convert_reach(old(s).spec_tokens(), old(s).spec_pos())),
        match convert_to_charset_at(old(s).spec_tokens(), old(s).spec_pos()) {
            Some((e, v)) => r matches Some(x) && x@ == v && final(s).spec_pos() == e,
            None => r is None,
        },
{
    proof {
        reveal(convert_reach);
    }
    if s.eat_keyword("CONVERT").is_none() || !s.ws1() || s.eat_keyword("TO").is_none() || !s.ws1() {
        return None;
    }
    // (CHARACTER SET | CHARSET).
    if !charset_words(s) || !s.ws1() {
        return None;
    }
    let charset = match o_string_or_ident(s) {
        Some(c) => c,
        None => return None,
    };
    // Optional COLLATE collation.
    let collate = opt_collate_clause(s);
    let ghost cv = charset@;
    let ghost lv = opt_view(collate);
    let mut def: Vec<(String, Json)> = Vec::new();
    put(&mut def, "action", Json::str_lit("convertToCharacterSet"));
    put(&mut def, "charset", Json::Str(charset));
    // The collation is null when absent.
    put(&mut def, "collate", str_or_null(collate));
    assert(view_obj(def@) =~= seq![
        ("action"@, JsonV::Str("convertToCharacterSet"@)),
        ("charset"@, JsonV::Str(cv)),
        ("collate"@, str_or_null_v(lv)),
    ]);
    Some(Json::Obj(def))
}

/// The algorithm, default, change, modify, convert and key alternatives at
/// `p`.
#[verifier::opaque]
pub open spec fn alter_change_at(ts: Seq<SToken>, p: int) -> Option<(int, JsonV)> {
    first_of(
        algorithm_at(ts, p),
        first_of(
            set_default_at(ts, p),
            first_of(
                drop_default_at(ts, p),
                first_of(
                    change_column_at(ts, p),
                    first_of(
                        modify_column_at(ts, p),
                        first_of(
                            convert_to_charset_at(ts, p),
                            first_of(
                                two_words_at(ts, p, "ENABLE"@, "KEYS"@, "enableKeys"@),
                                first_of(
                                    two_words_at(ts, p, "DISABLE"@, "KEYS"@, "disableKeys"@),
                                    first_of(
                                        two_words_at(ts, p, "DISCARD"@, "TABLESPACE"@, "discardTablespace"@),
                                        two_words_at(ts, p, "IMPORT"@, "TABLESPACE"@, "importTablespace"@),
                                    ),
                                ),
                            ),
                        ),
                    ),
                ),
            ),
        ),
    )
}

/// The algorithm, default, change, modify, convert and key alternatives.
#[verifier::rlimit(100)]
fn alter_spec_change(s: &mut Stream) -> (r: Option<Json>)
    ensures
        frame(*old(s), *final(s)),
        reached(*old(s), *final(s), alter_change_reach(old(s).spec_tokens(), old(s).spec_pos())),
        r is None ==> final(s).spec_pos() == old(s).spec_pos(),
        match alter_change_at(old(s).spec_tokens(), old(s).spec_pos()) {
            Some((e, v)) => r matches Some(x) && x@ == v && final(s).spec_pos() == e,
            None => r is None,
        },
{
    proof {
        reveal(alter_change_at);
        reveal(alter_change_reach);
    }
    let save = s.pos();
    if let Some(v) = algorithm(s) {
        return Some(v);
    }
    s.set(save);
    if let Some(v) = set_default(s) {
        return Some(v);
    }
    s.set(save);
    if let Some(v) = drop_default(s) {
        return Some(v);
    }
    s.set(save);
    if let Some(v) = change_column(s) {
        return Some(v);
    }
    s.set(save);
    if let Some(v) = modify_column(s) {
        return Some(v);
    }
    s.set(save);
    if let Some(v) = convert_to_charset(s) {
        return Some(v);
    }
    s.set(save);
    if let Some(v) = two_words(s, "ENABLE", "KEYS", "enableKeys") {
        return Some(v);
    }
    s.set(save);
    if let Some(v) = two_words(s, "DISABLE", "KEYS", "disableKeys") {
        return Some(v);
    }
    s.set(save);
    if let Some(v) = two_words(s, "DISCARD", "TABLESPACE", "discardTablespace") {
        return Some(v);
    }
    s.set(save);
    if let Some(v) = two_words(s, "IMPORT", "TABLESPACE", "importTablespace") {
        return Some(v);
    }
    s.set(save);
    None
}

/// `DROP __ [COLUMN __] [IF __ EXISTS __] name` at `p`.
pub open spec fn drop_column_at(ts: Seq<SToken>, p: int) -> Option<(int, JsonV)> {
    if !(is_keyword_at(ts, p, "DROP"@) && ws1_end(ts, p + 1) is Some) {
        None
    } else {
        let a = ws1_end(ts, p + 1)->Some_0;
        let b = opt_column_end(ts, a);
        let c = if is_keyword_at(ts, b, "IF"@) && ws1_end(ts, b + 1) is Some && is_keyword_at(
            ts,
            ws1_end(ts, b + 1)->Some_0,
            "EXISTS"@,
        ) && ws1_end(ts, ws1_end(ts, b + 1)->Some_0 + 1) is Some {
            ws1_end(ts, ws1_end(ts, b + 1)->Some_0 + 1)->Some_0
        } else {
            b
        };
        match ident_at(ts, c) {
            Some(column) => Some((c + 1, action_with_v("dropColumn"@, "column"@, JsonV::Str(column)))),
            None => None,
        }
    }
}

fn drop_column(s: &mut Stream) -> (r: Option<Json>)
    ensures
        frame(*old(s), *final(s)),
        reached(*old(s), *final(s), drop_column_reach(old(s).spec_tokens(), old(s).spec_pos())),
        match drop_column_at(old(s).spec_tokens(), old(s).spec_pos()) {
            Some((e, v)) => r matches Some(x) && x@ == v && final(s).spec_pos() == e,
            None => r is None,
        },
{
    proof {
        reveal(drop_column_reach);
    }
    if s.eat_keyword("DROP").is_none() || !s.ws1() {
        return None;
    }
    // COLUMN __.
    opt_column(s);
    // IF EXISTS __.
    let sp = s.pos();
    if s.eat_keyword("IF").is_some() && s.ws1() && s.eat_keyword("EXISTS").is_some() && s.ws1() {
    } else {
        s.set(sp);
    }
    match s_identifier(s) {
        Some(c) => Some(action_with("dropColumn", "column", Json::Str(c))),
        None => None,
    }
}

/// `kw __ (INDEX | KEY) __ name` at `p`: where the name stands.
pub open spec fn kw_index_name_at(ts: Seq<SToken>, p: int, kw: Seq<char>) -> Option<int> {
    if is_keyword_at(ts, p, kw) && ws1_end(ts, p + 1) is Some && one_of_at(
        ts,
        ws1_end(ts, p + 1)->Some_0,
        index_key_words(),
    ) && ws1_end(ts, ws1_end(ts, p + 1)->Some_0 + 1) is Some {
        Some(ws1_end(ts, ws1_end(ts, p + 1)->Some_0 + 1)->Some_0)
    } else {
        None
    }
}

/// `DROP __ (INDEX | KEY) __ name` at `p`.
pub open spec fn drop_index_at(ts: Seq<SToken>, p: int) -> Option<(int, JsonV)> {
    match kw_index_name_at(ts, p, "DROP"@) {
        Some(b) => match ident_at(ts, b) {
            Some(index) => Some((b + 1, action_with_v("dropIndex"@, "index"@, JsonV::Str(index)))),
            None => None,
        },
        None => None,
    }
}

/// Parse `kw __ (INDEX | KEY) __`.
fn kw_index_word(s: &mut Stream, kw: &str) -> (r: bool)
    ensures
        frame(*old(s), *final(s)),
        reached(*old(s), *final(s), kw_index_word_reach(old(s).spec_tokens(), old(s).spec_pos(), kw@)),
        match kw_index_name_at(old(s).spec_tokens(), old(s).spec_pos(), kw@) {
            Some(b) => r && final(s).spec_pos() == b,
            None => !r,
        },
{
    if s.eat_keyword(kw).is_none() || !s.ws1() {
        return false;
    }
    let words: [&str; 2] = ["INDEX", "KEY"];
    assert(words@ =~= index_key_words());
    one_of_keywords(s, &words).is_some() && s.ws1()
}

fn drop_index(s: &mut Stream) -> (r: Option<Json>)
    ensures
        frame(*old(s), *final(s)),
        reached(*old(s), *final(s), drop_index_reach(old(s).spec_tokens(), old(s).spec_pos())),
        match drop_index_at(old(s).spec_tokens(), old(s).spec_pos()) {
            Some((e, v)) => r matches Some(x) && x@ == v && final(s).spec_pos() == e,
            None => r is None,
        },
{
    proof {
        reveal(drop_index_reach);
    }
    if !kw_index_word(s, "DROP") {
        return None;
    }
    match s_identifier(s) {
        Some(i) => Some(action_with("dropIndex", "index", Json::Str(i))),
        None => None,
    }
}

/// `DROP __ PRIMARY __ KEY` at `p`.
pub open spec fn drop_primary_key_at(ts: Seq<SToken>, p: int) -> Option<(int, JsonV)> {
    if is_keyword_at(ts, p, "DROP"@) {
        match ws_two_words_end(ts, p + 1, "PRIMARY"@, "KEY"@) {
            Some(e) => Some((e, action_v("dropPrimaryKey"@))),
            None => None,
        }
    } else {
        None
    }
}

fn drop_primary_key(s: &mut Stream) -> (r: Option<Json>)
    ensures
        frame(*old(s), *final(s)),
        reached(*old(s), *final(s), drop_primary_key_reach(old(s).spec_tokens(), old(s).spec_pos())),
        match drop_primary_key_at(old(s).spec_tokens(), old(s).spec_pos()) {
            Some((e, v)) => r matches Some(x) && x@ == v && final(s).spec_pos() == e,
            None => r is None,
        },
{
    proof {
        reveal(drop_primary_key_reach);
    }
    if s.eat_keyword("DROP").is_some() && s.ws1() && s.eat_keyword("PRIMARY").is_some() && s.ws1()
        && s.eat_keyword("KEY").is_some() {
        return Some(action_only("dropPrimaryKey"));
    }
    None
}

/// `DROP __ FOREIGN __ KEY __ name` at `p`.
pub open spec fn drop_foreign_key_at(ts: Seq<SToken>, p: int) -> Option<(int, JsonV)> {
    if is_keyword_at(ts, p, "DROP"@) {
        match ws_two_words_end(ts, p + 1, "FOREIGN"@, "KEY"@) {
            Some(k) => match ws1_end(ts, k) {
                Some(b) => match ident_at(ts, b) {
                    Some(key) => Some((b + 1, action_with_v("dropForeignKey"@, "key"@, JsonV::Str(key)))),
                    None => None,
                },
                None => None,
            },
            None => None,
        }
    } else {
        None
    }
}

fn drop_foreign_key(s: &mut Stream) -> (r: Option<Json>)
    ensures
        frame(*old(s), *final(s)),
        reached(*old(s), *final(s), drop_foreign_key_reach(old(s).spec_tokens(), old(s).spec_pos())),
        match drop_foreign_key_at(old(s).spec_tokens(), old(s).spec_pos()) {
            Some((e, v)) => r matches Some(x) && x@ == v && final(s).spec_pos() == e,
            None => r is None,
        },
{
    proof {
        reveal(drop_foreign_key_reach);
    }
    if s.eat_keyword("DROP").is_none() || !s.ws1() {
        return None;
    }
    if s.eat_keyword("FOREIGN").is_none() || !s.ws1() || s.eat_keyword("KEY").is_none() || !s.ws1() {
        return None;
    }
    match s_identifier(s) {
        Some(k) => Some(action_with("dropForeignKey", "key", Json::Str(k))),
        None => None,
    }
}

/// `LOCK ( __ | = ) (DEFAULT | NONE | SHARED | EXCLUSIVE)` at `p`.
pub open spec fn change_lock_at(ts: Seq<SToken>, p: int) -> Option<(int, JsonV)> {
    match keyed_word_at(ts, p, "LOCK"@, lock_words()) {
        Some((e, w)) => Some((e, action_with_v("changeLock"@, "lock"@, JsonV::Str(w)))),
        None => None,
    }
}

fn change_lock(s: &mut Stream) -> (r: Option<Json>)
    ensures
        frame(*old(s), *final(s)),
        reached(*old(s), *final(s), keyed_word_reach(old(s).spec_tokens(), old(s).spec_pos(), "LOCK"@, lock_words())),
        match change_lock_at(old(s).spec_tokens(), old(s).spec_pos()) {
            Some((e, v)) => r matches Some(x) && x@ == v && final(s).spec_pos() == e,
            None => r is None,
        },
{
    if s.eat_keyword("LOCK").is_none() {
        return None;
    }
    if !ws_or_equals(s) {
        return None;
    }
    let words: [&str; 4] = ["DEFAULT", "NONE", "SHARED", "EXCLUSIVE"];
    assert(words@ =~= lock_words());
    match one_of_keywords(s, &words) {
        Some(v) => Some(action_with("changeLock", "lock", Json::Str(v))),
        None => None,
    }
}

/// `ORDER __ BY __ column , ...` at `p`.
pub open spec fn order_by_at(ts: Seq<SToken>, p: int) -> Option<(int, JsonV)> {
    if !is_keyword_at(ts, p, "ORDER"@) {
        None
    } else {
        match ws1_end(ts, p + 1) {
                Some(b0) => if is_keyword_at(ts, b0, "BY"@) {
                    match ws1_end(ts, b0 + 1) {
                        Some(a) => match ident_at(ts, a) {
                            Some(first) => {
                                let (e, names) = ident_list_rest(ts, a + 1, seq![first]);
                                Some((e, action_with_v("orderBy"@, "columns"@, str_arr_v(names))))
                            },
                            None => None,
                        },
                        None => None,
                    }
                } else {
                    None
                },
                None => None,
        }
    }
}

fn order_by(s: &mut Stream) -> (r: Option<Json>)
    ensures
        frame(*old(s), *final(s)),
        reached(*old(s), *final(s), order_by_reach(old(s).spec_tokens(), old(s).spec_pos())),
        match order_by_at(old(s).spec_tokens(), old(s).spec_pos()) {
            Some((e, v)) => r matches Some(x) && x@ == v && final(s).spec_pos() == e,
            None => r is None,
        },
{
    proof {
        reveal(order_by_reach);
    }
    let ghost ts = s.spec_tokens();
    if s.eat_keyword("ORDER").is_none() || !s.ws1() || s.eat_keyword("BY").is_none() || !s.ws1() {
        return None;
    }
    let first = match s_identifier(s) {
        Some(f) => f,
        None => return None,
    };
    let ghost target = ident_list_rest(ts, s.spec_pos(), seq![first@]);
    let ghost g = mx(s.spec_furthest(), ident_list_rest_reach(ts, s.spec_pos()));
    let ghost mut names: Seq<Seq<char>> = seq![first@];
    let mut columns: Vec<Json> = Vec::new();
    let jf = Json::Str(first);
    proof {
        crate::json::lemma_view_arr_push(columns@, jf);
    }
    columns.push(jf);
    assert(view_arr(columns@) =~= names.map_values(|x: Seq<char>| JsonV::Str(x)));
    loop
        invariant
            frame(*old(s), *s),
            s.spec_tokens() == ts,
            ident_list_rest(ts, s.spec_pos(), names) == target,
            view_arr(columns@) == names.map_values(|x: Seq<char>| JsonV::Str(x)),
            mx(s.spec_furthest(), ident_list_rest_reach(ts, s.spec_pos())) == g,
        ensures
            s.spec_furthest() == g,
            target == (s.spec_pos(), names),
            view_arr(columns@) == names.map_values(|x: Seq<char>| JsonV::Str(x)),
        decreases s.spec_tokens().len() - s.spec_pos(),
    {
        let sp = s.pos();
        s.ws0();
        if s.eat(&TokenKind::Comma).is_none() {
            s.set(sp);
            break;
        }
        s.ws0();
        match s_identifier(s) {
            Some(c) => {
                proof {
                    names = names.push(c@);
                }
                let jc = Json::Str(c);
                proof {
                    crate::json::lemma_view_arr_push(columns@, jc);
                }
                columns.push(jc);
                assert(view_arr(columns@) =~= names.map_values(|x: Seq<char>| JsonV::Str(x)));
            },
            None => {
                s.set(sp);
                break;
            },
        }
    }
    Some(action_with("orderBy", "columns", Json::Arr(columns)))
}

/// `RENAME __ (INDEX | KEY) __ name __ TO __ new` at `p`.
pub open spec fn rename_index_at(ts: Seq<SToken>, p: int) -> Option<(int, JsonV)> {
    match kw_index_name_at(ts, p, "RENAME"@) {
        None => None,
        Some(b) => match ident_at(ts, b) {
            None => None,
            Some(index) => match ws1_end(ts, b + 1) {
                    Some(t) => if is_keyword_at(ts, t, "TO"@) {
                        match ws1_end(ts, t + 1) {
                            Some(c) => match ident_at(ts, c) {
                                Some(new_name) => Some(
                                    (
                                        c + 1,
                                        JsonV::Obj(
                                            seq![
                                                ("action"@, JsonV::Str("renameIndex"@)),
                                                ("index"@, JsonV::Str(index)),
                                                ("newName"@, JsonV::Str(new_name)),
                                            ],
                                        ),
                                    ),
                                ),
                                None => None,
                            },
                            None => None,
                        }
                    } else {
                        None
                    },
                    None => None,
            },
        },
    }
}

fn rename_index(s: &mut Stream) -> (r: Option<Json>)
    ensures
        frame(*old(s), *final(s)),
        reached(*old(s), *final(s), rename_index_reach(old(s).spec_tokens(), old(s).spec_pos())),
        match rename_index_at(old(s).spec_tokens(), old(s).spec_pos()) {
            Some((e, v)) => r matches Some(x) && x@ == v && final(s).spec_pos() == e,
            None => r is None,
        },
{
    proof {
        reveal(rename_index_reach);
    }
    if !kw_index_word(s, "RENAME") {
        return None;
    }
    let index = match s_identifier(s) {
        Some(i) => i,
        None => return None,
    };
    if !s.ws1() || s.eat_keyword("TO").is_none() || !s.ws1() {
        return None;
    }
    let new_name = match s_identifier(s) {
        Some(n) => n,
        None => return None,
    };
    let ghost iv = index@;
    let ghost nv = new_name@;
    let mut def: Vec<(String, Json)> = Vec::new();
    put(&mut def, "action", Json::str_lit("renameIndex"));
    put(&mut def, "index", Json::Str(index));
    put(&mut def, "newName", Json::Str(new_name));
    assert(view_obj(def@) =~= seq![
        ("action"@, JsonV::Str("renameIndex"@)),
        ("index"@, JsonV::Str(iv)),
        ("newName"@, JsonV::Str(nv)),
    ]);
    Some(Json::Obj(def))
}

/// `RENAME __ [(TO | AS) __] name` at `p`.
pub open spec fn rename_at(ts: Seq<SToken>, p: int) -> Option<(int, JsonV)> {
    if !(is_keyword_at(ts, p, "RENAME"@) && ws1_end(ts, p + 1) is Some) {
        None
    } else {
        let a = ws1_end(ts, p + 1)->Some_0;
        let b = if (is_keyword_at(ts, a, "TO"@) || is_keyword_at(ts, a, "AS"@)) && ws1_end(ts, a + 1) is Some {
            ws1_end(ts, a + 1)->Some_0
        } else {
            a
        };
        match ident_at(ts, b) {
            Some(n) => Some((b + 1, action_with_v("rename"@, "newName"@, JsonV::Str(n)))),
            None => None,
        }
    }
}

fn rename(s: &mut Stream) -> (r: Option<Json>)
    ensures
        frame(*old(s), *final(s)),
        reached(*old(s), *final(s), rename_reach(old(s).spec_tokens(), old(s).spec_pos())),
        match rename_at(old(s).spec_tokens(), old(s).spec_pos()) {
            Some((e, v)) => r matches Some(x) && x@ == v && final(s).spec_pos() == e,
            None => r is None,
        },
{
    proof {
        reveal(rename_reach);
    }
    if s.eat_keyword("RENAME").is_none() || !s.ws1() {
        return None;
    }
    // TO __ | AS __.
    let sp = s.pos();
    if (s.eat_keyword("TO").is_some() || s.eat_keyword("AS").is_some()) && s.ws1() {
    } else {
        s.set(sp);
    }
    match s_identifier(s) {
        Some(n) => Some(action_with("rename", "newName", Json::Str(n))),
        None => None,
    }
}

/// `ADD __ PERIOD __ FOR __ SYSTEM_TIME _ ( _ start _ , _ end _ )` at `p`.
pub open spec fn add_period_at(ts: Seq<SToken>, p: int) -> Option<(int, JsonV)> {
    if !is_keyword_at(ts, p, "ADD"@) {
        None
    } else {
        match ws_two_words_end(ts, p + 1, "PERIOD"@, "FOR"@) {
            None => None,
            Some(f0) => match ws1_end(ts, f0) {
                None => None,
                Some(a0) => if !is_keyword_at(ts, a0, "SYSTEM_TIME"@) {
                    None
                } else {
                    let b = ws_end(ts, a0 + 1);
                    let c = ws_end(ts, b + 1);
                    let d = ws_end(ts, c + 1);
                    let e = ws_end(ts, d + 1);
                    let f = ws_end(ts, e + 1);
                    if is_kind_at(ts, b, SKind::LParens) && ident_at(ts, c) is Some && is_kind_at(ts, d, SKind::Comma)
                        && ident_at(ts, e) is Some && is_kind_at(ts, f, SKind::RParens) {
                        Some(
                            (
                                f + 1,
                                JsonV::Obj(
                                    seq![
                                        ("action"@, JsonV::Str("addPeriodForSystemTime"@)),
                                        ("startColumnName"@, JsonV::Str(ident_at(ts, c)->Some_0)),
                                        ("endColumnName"@, JsonV::Str(ident_at(ts, e)->Some_0)),
                                    ],
                                ),
                            ),
                        )
                    } else {
                        None
                    }
                },
            },
        }
    }
}

fn add_period_for_system_time(s: &mut Stream) -> (r: Option<Json>)
    ensures
        frame(*old(s), *final(s)),
        reached(*old(s), *final(s), add_period_reach(old(s).spec_tokens(), old(s).spec_pos())),
        match add_period_at(old(s).spec_tokens(), old(s).spec_pos()) {
            Some((e, v)) => r matches Some(x) && x@ == v && final(s).spec_pos() == e,
            None => r is None,
        },
{
    proof {
        reveal(add_period_reach);
    }
    if s.eat_keyword("ADD").is_none() || !s.ws1() || s.eat_keyword("PERIOD").is_none() || !s.ws1() {
        return None;
    }
    if s.eat_keyword("FOR").is_none() || !s.ws1() || s.eat_keyword("SYSTEM_TIME").is_none() {
        return None;
    }
    s.ws0();
    if s.eat(&TokenKind::LParens).is_none() {
        return None;
    }
    s.ws0();
    let start = match s_identifier(s) {
        Some(v) => v,
        None => return None,
    };
    s.ws0();
    if s.eat(&TokenKind::Comma).is_none() {
        return None;
    }
    s.ws0();
    let end = match s_identifier(s) {
        Some(v) => v,
        None => return None,
    };
    s.ws0();
    if s.eat(&TokenKind::RParens).is_none() {
        return None;
    }
    let ghost sv = start@;
    let ghost ev = end@;
    let mut def: Vec<(String, Json)> = Vec::new();
    put(&mut def, "action", Json::str_lit("addPeriodForSystemTime"));
    put(&mut def, "startColumnName", Json::Str(start));
    put(&mut def, "endColumnName", Json::Str(end));
    assert(view_obj(def@) =~= seq![
        ("action"@, JsonV::Str("addPeriodForSystemTime"@)),
        ("startColumnName"@, JsonV::Str(sv)),
        ("endColumnName"@, JsonV::Str(ev)),
    ]);
    Some(Json::Obj(def))
}

/// The `FORCE` alternative at `p`.
pub open spec fn force_at(ts: Seq<SToken>, p: int) -> Option<(int, JsonV)> {
    if is_keyword_at(ts, p, "FORCE"@) {
        Some((p + 1, action_v("force"@)))
    } else {
        None
    }
}

/// The DROP, FORCE, LOCK, ORDER, RENAME, validation and period alternatives
/// at `p`.
#[verifier::opaque]
pub open spec fn alter_other_at(ts: Seq<SToken>, p: int) -> Option<(int, JsonV)> {
    first_of(
        drop_index_at(ts, p),
        first_of(
            drop_primary_key_at(ts, p),
            first_of(
                drop_foreign_key_at(ts, p),
                first_of(
                    drop_column_at(ts, p),
                    first_of(
                        force_at(ts, p),
                        first_of(
                            change_lock_at(ts, p),
                            first_of(
                                order_by_at(ts, p),
                                first_of(
                                    rename_index_at(ts, p),
                                    first_of(
                                        rename_at(ts, p),
                                        first_of(
                                            two_words_at(ts, p, "WITH"@, "VALIDATION"@, "withValidation"@),
                                            first_of(
                                                two_words_at(
                                                    ts,
                                                    p,
                                                    "WITHOUT"@,
                                                    "VALIDATION"@,
                                                    "withoutValidation"@,
                                                ),
                                                add_period_at(ts, p),
                                            ),
                                        ),
                                    ),
                                ),
                            ),
                        ),
                    ),
                ),
            ),
        ),
    )
}

/// The DROP, FORCE, LOCK, ORDER, RENAME, validation and period alternatives.
/// The specific DROP forms come before the column drop so a keyword like
/// INDEX or PRIMARY is not read as a column name.
#[verifier::rlimit(100)]
fn alter_spec_other(s: &mut Stream) -> (r: Option<Json>)
    ensures
        frame(*old(s), *final(s)),
        reached(*old(s), *final(s), alter_other_reach(old(s).spec_tokens(), old(s).spec_pos())),
        r is None ==> final(s).spec_pos() == old(s).spec_pos(),
        match alter_other_at(old(s).spec_tokens(), old(s).spec_pos()) {
            Some((e, v)) => r matches Some(x) && x@ == v && final(s).spec_pos() == e,
            None => r is None,
        },
{
    proof {
        reveal(alter_other_at);
        reveal(alter_other_reach);
    }
    let save = s.pos();
    if let Some(v) = drop_index(s) {
        return Some(v);
    }
    s.set(save);
    if let Some(v) = drop_primary_key(s) {
        return Some(v);
    }
    s.set(save);
    if let Some(v) = drop_foreign_key(s) {
        return Some(v);
    }
    s.set(save);
    if let Some(v) = drop_column(s) {
        return Some(v);
    }
    s.set(save);
    if s.eat_keyword("FORCE").is_some() {
        return Some(action_only("force"));
    }
    if let Some(v) = change_lock(s) {
        return Some(v);
    }
    s.set(save);
    if let Some(v) = order_by(s) {
        return Some(v);
    }
    s.set(save);
    if let Some(v) = rename_index(s) {
        return Some(v);
    }
    s.set(save);
    if let Some(v) = rename(s) {
        return Some(v);
    }
    s.set(save);
    if let Some(v) = two_words(s, "WITH", "VALIDATION", "withValidation") {
        return Some(v);
    }
    s.set(save);
    if let Some(v) = two_words(s, "WITHOUT", "VALIDATION", "withoutValidation") {
        return Some(v);
    }
    s.set(save);
    if let Some(v) = add_period_for_system_time(s) {
        return Some(v);
    }
    s.set(save);
    None
}

/// The ADD alternatives at `p`, in order.
#[verifier::opaque]
pub open spec fn alter_add_at(ts: Seq<SToken>, p: int) -> Option<(int, JsonV)> {
    first_of(
        add_column_at(ts, p),
        first_of(
            add_columns_at(ts, p),
            first_of(
                add_index_at(ts, p),
                first_of(
                    add_primary_key_at(ts, p),
                    first_of(
                        add_unique_key_at(ts, p),
                        first_of(
                            add_named_index_at(ts, p, "FULLTEXT"@, "addFulltextIndex"@),
                            first_of(
                                add_named_index_at(ts, p, "SPATIAL"@, "addSpatialIndex"@),
                                add_foreign_key_at(ts, p),
                            ),
                        ),
                    ),
                ),
            ),
        ),
    )
}

/// The ADD alternatives, in order.
#[verifier::rlimit(100)]
fn alter_spec_add(s: &mut Stream) -> (r: Option<Json>)
    ensures
        frame(*old(s), *final(s)),
        reached(*old(s), *final(s), alter_add_reach(old(s).spec_tokens(), old(s).spec_pos())),
        r is None ==> final(s).spec_pos() == old(s).spec_pos(),
        match alter_add_at(old(s).spec_tokens(), old(s).spec_pos()) {
            Some((e, v)) => r matches Some(x) && x@ == v && final(s).spec_pos() == e,
            None => r is None,
        },
{
    proof {
        reveal(alter_add_at);
        reveal(alter_add_reach);
    }
    let save = s.pos();
    if let Some(v) = add_column(s) {
        return Some(v);
    }
    s.set(save);
    if let Some(v) = add_columns(s) {
        return Some(v);
    }
    s.set(save);
    if let Some(v) = add_index(s) {
        return Some(v);
    }
    s.set(save);
    if let Some(v) = add_primary_key(s) {
        return Some(v);
    }
    s.set(save);
    if let Some(v) = add_unique_key(s) {
        return Some(v);
    }
    s.set(save);
    if let Some(v) = add_named_index(s, "FULLTEXT", "addFulltextIndex") {
        return Some(v);
    }
    s.set(save);
    if let Some(v) = add_named_index(s, "SPATIAL", "addSpatialIndex") {
        return Some(v);
    }
    s.set(save);
    if let Some(v) = add_foreign_key(s) {
        return Some(v);
    }
    s.set(save);
    None
}

/// An alter specification at `p`: its end and `O_ALTER_TABLE_SPEC` node.
pub open spec fn alter_spec_at(ts: Seq<SToken>, p: int) -> Option<(int, JsonV)> {
    match first_of(alter_add_at(ts, p), first_of(alter_change_at(ts, p), alter_other_at(ts, p))) {
        Some((e, v)) => Some((e, node_v("O_ALTER_TABLE_SPEC"@, v))),
        None => None,
    }
}

/// Parse `O_ALTER_TABLE_SPEC`. Tries alternatives in order.
fn o_alter_table_spec(s: &mut Stream) -> (r: Option<Json>)
    ensures
        frame(*old(s), *final(s)),
        reached(*old(s), *final(s), alter_spec_reach(old(s).spec_tokens(), old(s).spec_pos())),
        r is None ==> final(s).spec_pos() == old(s).spec_pos(),
        r matches Some(v) ==> is_node(v@, "O_ALTER_TABLE_SPEC"@),
        match alter_spec_at(old(s).spec_tokens(), old(s).spec_pos()) {
            Some((e, v)) => r matches Some(x) && x@ == v && final(s).spec_pos() == e,
            None => r is None,
        },
{
    if let Some(v) = alter_spec_add(s) {
        return Some(node("O_ALTER_TABLE_SPEC", v));
    }
    if let Some(v) = alter_spec_change(s) {
        return Some(node("O_ALTER_TABLE_SPEC", v));
    }
    if let Some(v) = alter_spec_other(s) {
        return Some(node("O_ALTER_TABLE_SPEC", v));
    }
    None
}

/// Table options, else one alter specification, at `p`: its end and
/// `P_ALTER_TABLE_SPECS` node.
pub open spec fn alter_specs_at(ts: Seq<SToken>, p: int) -> Option<(int, JsonV)> {
    match table_options_at(ts, p) {
        Some((e, v)) => Some((e, node_v("P_ALTER_TABLE_SPECS"@, obj1_v("tableOptions"@, v)))),
        None => match alter_spec_at(ts, p) {
            Some((e, v)) => Some((e, node_v("P_ALTER_TABLE_SPECS"@, obj1_v("spec"@, v)))),
            None => None,
        },
    }
}

/// Parse `P_ALTER_TABLE_SPECS`: table options first, then one spec.
fn p_alter_table_specs(s: &mut Stream) -> (r: Option<Json>)
    ensures
        frame(*old(s), *final(s)),
        reached(*old(s), *final(s), alter_specs_reach(old(s).spec_tokens(), old(s).spec_pos())),
        r is None ==> final(s).spec_pos() == old(s).spec_pos(),
        r matches Some(v) ==> is_node(v@, "P_ALTER_TABLE_SPECS"@),
        match alter_specs_at(old(s).spec_tokens(), old(s).spec_pos()) {
            Some((e, v)) => r matches Some(x) && x@ == v && final(s).spec_pos() == e,
            None => r is None,
        },
{
    let save = s.pos();
    if let Some(opts) = p_create_table_options(s) {
        return Some(node("P_ALTER_TABLE_SPECS", obj1("tableOptions", opts)));
    }
    s.set(save);
    if let Some(spec) = o_alter_table_spec(s) {
        return Some(node("P_ALTER_TABLE_SPECS", obj1("spec", spec)));
    }
    s.set(save);
    None
}

/// The further specifications `, spec` from `p`, after `acc`.
pub open spec fn alter_specs_rest(ts: Seq<SToken>, p: int, acc: Seq<JsonV>) -> (int, Seq<JsonV>)
    decreases ts.len() - p,
{
    let a = ws_end(ts, p);
    if p >= 0 && is_kind_at(ts, a, SKind::Comma) {
        match alter_specs_at(ts, ws_end(ts, a + 1)) {
            Some((e, v)) => if p < e <= ts.len() {
                alter_specs_rest(ts, e, acc.push(v))
            } else {
                (p, acc)
            },
            None => (p, acc),
        }
    } else {
        (p, acc)
    }
}

/// Where an optional `kw __` at `p` ends.
pub open spec fn opt_word_ws_end(ts: Seq<SToken>, p: int, kw: Seq<char>) -> int {
    if is_keyword_at(ts, p, kw) && ws1_end(ts, p + 1) is Some {
        ws1_end(ts, p + 1)->Some_0
    } else {
        p
    }
}

/// Where an optional `WAIT __ n __` or `NOWAIT __` at `p` ends.
pub open spec fn alter_wait_end(ts: Seq<SToken>, p: int) -> int {
    let waited = if is_keyword_at(ts, p, "WAIT"@) && ws1_end(ts, p + 1) is Some && is_kind_at(
        ts,
        ws1_end(ts, p + 1)->Some_0,
        SKind::Number,
    ) && ws1_end(ts, ws1_end(ts, p + 1)->Some_0 + 1) is Some {
        Some(ws1_end(ts, ws1_end(ts, p + 1)->Some_0 + 1)->Some_0)
    } else {
        None
    };
    match waited {
        Some(e) => e,
        None => opt_word_ws_end(ts, p, "NOWAIT"@),
    }
}

/// The start of an `ALTER [ONLINE] [IGNORE] TABLE name __ [WAIT n | NOWAIT]`
/// at `p`: the table and where its specifications begin.
pub open spec fn alter_head_at(ts: Seq<SToken>, p: int) -> Option<(int, Seq<char>)> {
    if !(is_keyword_at(ts, p, "ALTER"@) && ws1_end(ts, p + 1) is Some) {
        None
    } else {
        let a = ws1_end(ts, p + 1)->Some_0;
        let c = opt_word_ws_end(ts, opt_word_ws_end(ts, a, "ONLINE"@), "IGNORE"@);
        if !(is_keyword_at(ts, c, "TABLE"@) && ws1_end(ts, c + 1) is Some) {
            None
        } else {
            let d = ws1_end(ts, c + 1)->Some_0;
            match ident_at(ts, d) {
                None => None,
                Some(table) => match ws1_end(ts, d + 1) {
                    None => None,
                    Some(f) => Some((alter_wait_end(ts, f), table)),
                },
            }
        }
    }
}

/// An `ALTER TABLE name spec, ...;` at `p`: its end and `P_ALTER_TABLE`
/// node.
pub open spec fn spec_alter_table(ts: Seq<SToken>, p: int) -> Option<(int, JsonV)> {
    match alter_head_at(ts, p) {
        None => None,
        Some((g, table)) => match alter_specs_at(ts, g) {
            None => None,
            Some((e1, s1)) => {
                let (e2, specs) = alter_specs_rest(ts, e1, seq![s1]);
                match eos_end(ts, e2) {
                    Some(z) => Some(
                        (
                            z,
                            node_v(
                                "P_ALTER_TABLE"@,
                                JsonV::Obj(seq![("table"@, JsonV::Str(table)), ("specs"@, JsonV::Arr(specs))]),
                            ),
                        ),
                    ),
                    None => None,
                }
            },
        },
    }
}

/// Parse an optional `kw __`.
fn opt_word_ws(s: &mut Stream, kw: &str)
    ensures
        frame(*old(s), *final(s)),
        reached(*old(s), *final(s), word_ws_reach(old(s).spec_tokens(), old(s).spec_pos(), kw@)),
        final(s).spec_pos() == opt_word_ws_end(old(s).spec_tokens(), old(s).spec_pos(), kw@),
{
    let sp = s.pos();
    if s.eat_keyword(kw).is_some() && s.ws1() {
    } else {
        s.set(sp);
    }
}

/// Parse the start of an `ALTER TABLE`, up to its specifications.
fn alter_head(s: &mut Stream) -> (r: Option<String>)
    ensures
        frame(*old(s), *final(s)),
        reached(*old(s), *final(s), alter_head_reach(old(s).spec_tokens(), old(s).spec_pos())),
        match alter_head_at(old(s).spec_tokens(), old(s).spec_pos()) {
            Some((g, table)) => r matches Some(x) && x@ == table && final(s).spec_pos() == g,
            None => r is None,
        },
{
    if s.eat_keyword("ALTER").is_none() || !s.ws1() {
        return None;
    }
    // ONLINE __.
    opt_word_ws(s, "ONLINE");
    // IGNORE __.
    opt_word_ws(s, "IGNORE");
    if s.eat_keyword("TABLE").is_none() || !s.ws1() {
        return None;
    }
    let table = match s_identifier(s) {
        Some(t) => t,
        None => return None,
    };
    if !s.ws1() {
        return None;
    }
    // WAIT n __ | NOWAIT __.
    let sp = s.pos();
    if s.eat_keyword("WAIT").is_some() && s.ws1() && s_number(s).is_some() && s.ws1() {
    } else {
        s.set(sp);
        opt_word_ws(s, "NOWAIT");
    }
    Some(table)
}

/// How far an attempt at `kw __` at `p` reads.
pub open spec fn word_ws_reach(ts: Seq<SToken>, p: int, kw: Seq<char>) -> int {
    if is_keyword_at(ts, p, kw) {
        ws_end(ts, p + 1)
    } else {
        p
    }
}

/// How far an attempt at `first __ second` at `p` reads.
pub open spec fn two_words_at_reach(ts: Seq<SToken>, p: int, first: Seq<char>, second: Seq<char>) -> int {
    let a = ws_end(ts, p + 1);
    if !is_keyword_at(ts, p, first) {
        p
    } else if a > p + 1 && is_keyword_at(ts, a, second) {
        a + 1
    } else {
        a
    }
}

/// How far an attempt at an optional `__ COLUMN` from `p` reads.
pub open spec fn opt_ws_column_reach(ts: Seq<SToken>, p: int) -> int {
    let a = ws_end(ts, p);
    if a > p && is_keyword_at(ts, a, "COLUMN"@) {
        a + 1
    } else {
        a
    }
}

/// How far an attempt at an optional `__ FIRST | __ AFTER __ name` from `p`
/// reads.
pub open spec fn opt_position_reach(ts: Seq<SToken>, p: int) -> int {
    let a = ws_end(ts, p);
    let b = ws_end(ts, a + 1);
    if !(a > p) {
        a
    } else if is_keyword_at(ts, a, "FIRST"@) {
        a + 1
    } else if is_keyword_at(ts, a, "AFTER"@) {
        if b > a + 1 && ident_at(ts, b) is Some {
            b + 1
        } else {
            b
        }
    } else {
        a
    }
}

/// How far an attempt at a column change body at `p` reads.
pub open spec fn change_body_reach(ts: Seq<SToken>, p: int) -> int {
    match datatype_at(ts, p) {
        None => datatype_reach(ts, p),
        Some((e, _)) => {
            let f = column_attr_list(ts, e, seq![]).0;
            let g = opt_reference_at(ts, f).0;
            mx(mx(datatype_reach(ts, p), column_attrs_reach(ts, e)), mx(opt_reference_reach(ts, f), opt_position_reach(ts, g)))
        },
    }
}

/// How far an attempt at `ADD [COLUMN] name datatype ...` at `p` reads.
#[verifier::opaque]
pub open spec fn add_column_reach(ts: Seq<SToken>, p: int) -> int {
    if !is_keyword_at(ts, p, "ADD"@) {
        p
    } else {
        let q = opt_ws_column_end(ts, p + 1);
        let r0 = mx(p + 1, opt_ws_column_reach(ts, p + 1));
        let a = ws_end(ts, q);
        let b = ws_end(ts, a + 1);
        if !(a > q && ident_at(ts, a) is Some) {
            mx(r0, a)
        } else if !(b > a + 1) {
            mx(r0, b)
        } else {
            mx(r0, mx(b, change_body_reach(ts, b)))
        }
    }
}

/// How far an attempt at one column of `ADD (columns)` at `p` reads.
pub open spec fn add_columns_item_reach(ts: Seq<SToken>, p: int) -> int {
    let b = ws_end(ts, p + 1);
    if ident_at(ts, p) is None {
        p
    } else if !(b > p + 1) {
        b
    } else {
        match datatype_at(ts, b) {
            None => mx(b, datatype_reach(ts, b)),
            Some((e, _)) => {
                let f = column_attr_list(ts, e, seq![]).0;
                mx(mx(b, datatype_reach(ts, b)), mx(column_attrs_reach(ts, e), opt_reference_reach(ts, f)))
            },
        }
    }
}

/// How far the further columns `, column` of `ADD (columns)` from `p` read.
pub open spec fn add_columns_rest_reach(ts: Seq<SToken>, p: int) -> int
    decreases ts.len() - p,
{
    let a = ws_end(ts, p);
    let b = ws_end(ts, a + 1);
    if p >= 0 && is_kind_at(ts, a, SKind::Comma) {
        match add_columns_item_at(ts, b) {
            Some((e, _)) => if p < e <= ts.len() {
                mx(mx(p, mx(b, add_columns_item_reach(ts, b))), add_columns_rest_reach(ts, e))
            } else {
                mx(p, mx(b, add_columns_item_reach(ts, b)))
            },
            None => mx(p, mx(b, add_columns_item_reach(ts, b))),
        }
    } else {
        mx(p, a)
    }
}

/// How far an attempt at `ADD [COLUMN] (columns)` at `p` reads.
#[verifier::opaque]
pub open spec fn add_columns_reach(ts: Seq<SToken>, p: int) -> int {
    if !is_keyword_at(ts, p, "ADD"@) {
        p
    } else {
        let q = opt_ws_column_end(ts, p + 1);
        let r0 = mx(p + 1, opt_ws_column_reach(ts, p + 1));
        let a = ws_end(ts, q);
        let b = ws_end(ts, a + 1);
        if !is_kind_at(ts, a, SKind::LParens) {
            mx(r0, a)
        } else {
            match add_columns_item_at(ts, b) {
                None => mx(r0, mx(b, add_columns_item_reach(ts, b))),
                Some((e1, c1)) => {
                    let e2 = add_columns_rest(ts, e1, seq![c1]).0;
                    let f = ws_end(ts, e2);
                    mx(
                        mx(r0, mx(b, add_columns_item_reach(ts, b))),
                        mx(add_columns_rest_reach(ts, e1), if is_kind_at(ts, f, SKind::RParens) { f + 1 } else { f }),
                    )
                },
            }
        }
    }
}

/// How far an attempt at `ADD __ (INDEX | KEY) ...` at `p` reads.
#[verifier::opaque]
pub open spec fn add_index_reach(ts: Seq<SToken>, p: int) -> int {
    let a = ws_end(ts, p + 1);
    if !is_keyword_at(ts, p, "ADD"@) {
        p
    } else if !(a > p + 1 && one_of_at(ts, a, index_key_words())) {
        a
    } else {
        let n = opt_ws_ident_at(ts, a + 1).0;
        mx(a + 1, mx(opt_ws_ident_reach(ts, a + 1), index_body_reach(ts, n)))
    }
}

/// How far an attempt at `ADD __ [CONSTRAINT ...] PRIMARY __ KEY ...` at `p`
/// reads.
#[verifier::opaque]
pub open spec fn add_primary_key_reach(ts: Seq<SToken>, p: int) -> int {
    let a = ws_end(ts, p + 1);
    if !is_keyword_at(ts, p, "ADD"@) {
        p
    } else if !(a > p + 1) {
        a
    } else {
        let c = constraint_at(ts, a, "PRIMARY"@).0;
        let r0 = mx(a, constraint_reach(ts, a));
        let k = ws_end(ts, c + 1);
        if !is_keyword_at(ts, c, "PRIMARY"@) {
            mx(r0, c)
        } else if !(k > c + 1 && is_keyword_at(ts, k, "KEY"@)) {
            mx(r0, mx(c + 1, k))
        } else {
            mx(r0, mx(k + 1, index_body_reach(ts, k + 1)))
        }
    }
}

/// How far an attempt at `ADD __ [CONSTRAINT ...] UNIQUE ...` at `p` reads.
#[verifier::opaque]
pub open spec fn add_unique_key_reach(ts: Seq<SToken>, p: int) -> int {
    let a = ws_end(ts, p + 1);
    if !is_keyword_at(ts, p, "ADD"@) {
        p
    } else if !(a > p + 1) {
        a
    } else {
        let c = constraint_at(ts, a, "UNIQUE"@).0;
        let r0 = mx(a, constraint_reach(ts, a));
        if !is_keyword_at(ts, c, "UNIQUE"@) {
            mx(r0, c)
        } else {
            let w = opt_index_word_end(ts, c + 1);
            let n = opt_ws_ident_at(ts, w).0;
            mx(
                mx(r0, mx(c + 1, ws_word_reach(ts, c + 1, index_key_words()))),
                mx(opt_ws_ident_reach(ts, w), index_body_reach(ts, n)),
            )
        }
    }
}

/// How far an attempt at `ADD __ kw ...` (a fulltext or spatial index) at
/// `p` reads.
#[verifier::opaque]
pub open spec fn add_named_index_reach(ts: Seq<SToken>, p: int, kw: Seq<char>) -> int {
    let a = ws_end(ts, p + 1);
    if !is_keyword_at(ts, p, "ADD"@) {
        p
    } else if !(a > p + 1 && is_keyword_at(ts, a, kw)) {
        a
    } else {
        let w = opt_index_word_end(ts, a + 1);
        let n = opt_ws_ident_at(ts, w).0;
        mx(
            mx(a + 1, ws_word_reach(ts, a + 1, index_key_words())),
            mx(
                opt_ws_ident_reach(ts, w),
                match index_columns_at(ts, n) {
                    None => index_columns_reach(ts, n),
                    Some((e, _)) => mx(index_columns_reach(ts, n), index_options_reach(ts, e)),
                },
            ),
        )
    }
}

/// How far an attempt at `ADD __ [CONSTRAINT ...] FOREIGN __ KEY ...` at `p`
/// reads.
#[verifier::opaque]
pub open spec fn add_foreign_key_reach(ts: Seq<SToken>, p: int) -> int {
    let a = ws_end(ts, p + 1);
    if !is_keyword_at(ts, p, "ADD"@) {
        p
    } else if !(a > p + 1) {
        a
    } else {
        let c = constraint_at(ts, a, "FOREIGN"@).0;
        let r0 = mx(a, constraint_reach(ts, a));
        let k = ws_end(ts, c + 1);
        if !is_keyword_at(ts, c, "FOREIGN"@) {
            mx(r0, c)
        } else if !(k > c + 1 && is_keyword_at(ts, k, "KEY"@)) {
            mx(r0, mx(c + 1, k))
        } else {
            let n = opt_ws_ident_at(ts, k + 1).0;
            mx(
                mx(r0, mx(k + 1, opt_ws_ident_reach(ts, k + 1))),
                match index_columns_at(ts, n) {
                    None => index_columns_reach(ts, n),
                    Some((e, _)) => mx(
                        index_columns_reach(ts, n),
                        mx(ws_end(ts, e), column_reference_reach(ts, ws_end(ts, e))),
                    ),
                },
            )
        }
    }
}

/// How far an attempt at `ALTER __ [COLUMN __] name __ kw1 __ kw2` at `p`
/// reads, and where that ends when it matches.
#[verifier::opaque]
pub open spec fn alter_column_words_reach(ts: Seq<SToken>, p: int, kw1: Seq<char>, kw2: Seq<char>) -> int {
    let a = ws_end(ts, p + 1);
    if !is_keyword_at(ts, p, "ALTER"@) {
        p
    } else if !(a > p + 1) {
        a
    } else {
        let c = opt_column_end(ts, a);
        let r0 = mx(a, word_ws_reach(ts, a, "COLUMN"@));
        let s1 = ws_end(ts, c + 1);
        let d = ws_end(ts, s1 + 1);
        if ident_at(ts, c) is None {
            mx(r0, c)
        } else if !(s1 > c + 1 && is_keyword_at(ts, s1, kw1)) {
            mx(r0, s1)
        } else if d > s1 + 1 && is_keyword_at(ts, d, kw2) {
            mx(r0, d + 1)
        } else {
            mx(r0, d)
        }
    }
}

/// How far an attempt at `ALTER __ [COLUMN __] name __ SET __ DEFAULT __ v`
/// at `p` reads.
#[verifier::opaque]
pub open spec fn set_default_reach(ts: Seq<SToken>, p: int) -> int {
    let r = alter_column_words_reach(ts, p, "SET"@, "DEFAULT"@);
    match alter_column_at(ts, p) {
        Some(c) => match ws_two_words_end(ts, c + 1, "SET"@, "DEFAULT"@) {
            Some(e) => if ident_at(ts, c) is Some {
                let v = ws_end(ts, e);
                if v > e {
                    mx(r, mx(v, default_value_reach(ts, v)))
                } else {
                    mx(r, v)
                }
            } else {
                r
            },
            None => r,
        },
        None => r,
    }
}

/// How far an attempt at `CHANGE | MODIFY` (`kw`) with `renames` telling
/// whether a new name follows, at `p`, reads.
#[verifier::opaque]
pub open spec fn change_column_reach(ts: Seq<SToken>, p: int, kw: Seq<char>, renames: bool) -> int {
    let a = ws_end(ts, p + 1);
    if !is_keyword_at(ts, p, kw) {
        p
    } else if !(a > p + 1) {
        a
    } else {
        let c = opt_column_end(ts, a);
        let r0 = mx(a, word_ws_reach(ts, a, "COLUMN"@));
        let b = ws_end(ts, c + 1);
        if ident_at(ts, c) is None {
            mx(r0, c)
        } else if !(b > c + 1) {
            mx(r0, b)
        } else if !renames {
            mx(r0, mx(b, change_body_reach(ts, b)))
        } else if ident_at(ts, b) is None {
            mx(r0, b)
        } else {
            let d = ws_end(ts, b + 1);
            if !(d > b + 1) {
                mx(r0, d)
            } else {
                mx(r0, mx(d, change_body_reach(ts, d)))
            }
        }
    }
}

/// How far an attempt at an optional `__ COLLATE __ name` from `p` reads.
pub open spec fn opt_collate_clause_reach(ts: Seq<SToken>, p: int) -> int {
    let a = ws_end(ts, p);
    let b = ws_end(ts, a + 1);
    if !(a > p && is_keyword_at(ts, a, "COLLATE"@)) {
        a
    } else if b > a + 1 && word_at(ts, b) is Some {
        b + 1
    } else {
        b
    }
}

/// How far an attempt at `CONVERT __ TO __ charset ...` at `p` reads.
#[verifier::opaque]
pub open spec fn convert_reach(ts: Seq<SToken>, p: int) -> int {
    let a = ws_end(ts, p + 1);
    let b = ws_end(ts, a + 1);
    if !is_keyword_at(ts, p, "CONVERT"@) {
        p
    } else if !(a > p + 1 && is_keyword_at(ts, a, "TO"@)) {
        a
    } else if !(b > a + 1) {
        b
    } else {
        let r0 = mx(b, charset_words_reach(ts, b));
        match charset_words_end(ts, b) {
            None => r0,
            Some(c) => {
                let d = ws_end(ts, c);
                if !(d > c && word_at(ts, d) is Some) {
                    mx(r0, d)
                } else {
                    mx(r0, mx(d + 1, opt_collate_clause_reach(ts, d + 1)))
                }
            },
        }
    }
}

/// How far an attempt at a changing alter specification at `p` reads.
#[verifier::opaque]
pub open spec fn alter_change_reach(ts: Seq<SToken>, p: int) -> int {
    alt_reach(
        algorithm_at(ts, p) is Some,
        keyed_word_reach(ts, p, "ALGORITHM"@, algorithm_words()),
        alt_reach(
            set_default_at(ts, p) is Some,
            set_default_reach(ts, p),
            alt_reach(
                drop_default_at(ts, p) is Some,
                alter_column_words_reach(ts, p, "DROP"@, "DEFAULT"@),
                alt_reach(
                    change_column_at(ts, p) is Some,
                    change_column_reach(ts, p, "CHANGE"@, true),
                    alt_reach(
                        modify_column_at(ts, p) is Some,
                        change_column_reach(ts, p, "MODIFY"@, false),
                        alt_reach(
                            convert_to_charset_at(ts, p) is Some,
                            convert_reach(ts, p),
                            alt_reach(
                                two_words_at(ts, p, "ENABLE"@, "KEYS"@, "enableKeys"@) is Some,
                                two_words_at_reach(ts, p, "ENABLE"@, "KEYS"@),
                                alt_reach(
                                    two_words_at(ts, p, "DISABLE"@, "KEYS"@, "disableKeys"@) is Some,
                                    two_words_at_reach(ts, p, "DISABLE"@, "KEYS"@),
                                    alt_reach(
                                        two_words_at(ts, p, "DISCARD"@, "TABLESPACE"@, "discardTablespace"@) is Some,
                                        two_words_at_reach(ts, p, "DISCARD"@, "TABLESPACE"@),
                                        two_words_at_reach(ts, p, "IMPORT"@, "TABLESPACE"@),
                                    ),
                                ),
                            ),
                        ),
                    ),
                ),
            ),
        ),
    )
}

/// How far an attempt at `DROP __ [COLUMN __] [IF __ EXISTS __] name` at `p`
/// reads.
#[verifier::opaque]
pub open spec fn drop_column_reach(ts: Seq<SToken>, p: int) -> int {
    let a = ws_end(ts, p + 1);
    if !is_keyword_at(ts, p, "DROP"@) {
        p
    } else if !(a > p + 1) {
        a
    } else {
        let b = opt_column_end(ts, a);
        let e1 = ws_end(ts, b + 1);
        let e2 = ws_end(ts, e1 + 1);
        let ifr = if !is_keyword_at(ts, b, "IF"@) {
            b
        } else if !(e1 > b + 1 && is_keyword_at(ts, e1, "EXISTS"@)) {
            e1
        } else {
            e2
        };
        let c = if is_keyword_at(ts, b, "IF"@) && e1 > b + 1 && is_keyword_at(ts, e1, "EXISTS"@) && e2 > e1 + 1 {
            e2
        } else {
            b
        };
        mx(
            mx(mx(a, word_ws_reach(ts, a, "COLUMN"@)), ifr),
            if ident_at(ts, c) is Some {
                c + 1
            } else {
                c
            },
        )
    }
}

/// How far an attempt at `kw __ (INDEX | KEY) __` at `p` reads.
pub open spec fn kw_index_word_reach(ts: Seq<SToken>, p: int, kw: Seq<char>) -> int {
    let a = ws_end(ts, p + 1);
    if !is_keyword_at(ts, p, kw) {
        p
    } else if !(a > p + 1 && one_of_at(ts, a, index_key_words())) {
        a
    } else {
        ws_end(ts, a + 1)
    }
}

/// How far an attempt at `DROP __ (INDEX | KEY) __ name` at `p` reads.
#[verifier::opaque]
pub open spec fn drop_index_reach(ts: Seq<SToken>, p: int) -> int {
    let r = kw_index_word_reach(ts, p, "DROP"@);
    match kw_index_name_at(ts, p, "DROP"@) {
        Some(b) => if ident_at(ts, b) is Some {
            mx(r, b + 1)
        } else {
            mx(r, b)
        },
        None => r,
    }
}

/// How far an attempt at `DROP __ PRIMARY __ KEY` at `p` reads.
#[verifier::opaque]
pub open spec fn drop_primary_key_reach(ts: Seq<SToken>, p: int) -> int {
    let a = ws_end(ts, p + 1);
    let b = ws_end(ts, a + 1);
    if !is_keyword_at(ts, p, "DROP"@) {
        p
    } else if !(a > p + 1 && is_keyword_at(ts, a, "PRIMARY"@)) {
        a
    } else if b > a + 1 && is_keyword_at(ts, b, "KEY"@) {
        b + 1
    } else {
        b
    }
}

/// How far an attempt at `DROP __ FOREIGN __ KEY __ name` at `p` reads.
#[verifier::opaque]
pub open spec fn drop_foreign_key_reach(ts: Seq<SToken>, p: int) -> int {
    let a = ws_end(ts, p + 1);
    let b = ws_end(ts, a + 1);
    let c = ws_end(ts, b + 1);
    if !is_keyword_at(ts, p, "DROP"@) {
        p
    } else if !(a > p + 1 && is_keyword_at(ts, a, "FOREIGN"@)) {
        a
    } else if !(b > a + 1 && is_keyword_at(ts, b, "KEY"@)) {
        b
    } else if !(c > b + 1) {
        c
    } else if ident_at(ts, c) is Some {
        c + 1
    } else {
        c
    }
}

/// How far an attempt at `ORDER __ BY __ names` at `p` reads.
#[verifier::opaque]
pub open spec fn order_by_reach(ts: Seq<SToken>, p: int) -> int {
    let a = ws_end(ts, p + 1);
    let b = ws_end(ts, a + 1);
    if !is_keyword_at(ts, p, "ORDER"@) {
        p
    } else if !(a > p + 1 && is_keyword_at(ts, a, "BY"@)) {
        a
    } else if !(b > a + 1 && ident_at(ts, b) is Some) {
        b
    } else {
        mx(b + 1, ident_list_rest_reach(ts, b + 1))
    }
}

/// How far an attempt at `RENAME __ (INDEX | KEY) __ name __ TO __ name` at
/// `p` reads.
#[verifier::opaque]
pub open spec fn rename_index_reach(ts: Seq<SToken>, p: int) -> int {
    let r = kw_index_word_reach(ts, p, "RENAME"@);
    match kw_index_name_at(ts, p, "RENAME"@) {
        None => r,
        Some(b) => {
            let c = ws_end(ts, b + 1);
            let d = ws_end(ts, c + 1);
            if ident_at(ts, b) is None {
                mx(r, b)
            } else if !(c > b + 1 && is_keyword_at(ts, c, "TO"@)) {
                mx(r, c)
            } else if !(d > c + 1) {
                mx(r, d)
            } else if ident_at(ts, d) is Some {
                mx(r, d + 1)
            } else {
                mx(r, d)
            }
        },
    }
}

/// How far an attempt at `RENAME __ [TO | AS __] name` at `p` reads.
#[verifier::opaque]
pub open spec fn rename_reach(ts: Seq<SToken>, p: int) -> int {
    let a = ws_end(ts, p + 1);
    let b = ws_end(ts, a + 1);
    if !is_keyword_at(ts, p, "RENAME"@) {
        p
    } else if !(a > p + 1) {
        a
    } else {
        let to = is_keyword_at(ts, a, "TO"@) || is_keyword_at(ts, a, "AS"@);
        let i = if to && b > a + 1 {
            b
        } else {
            a
        };
        mx(if to { b } else { a }, if ident_at(ts, i) is Some { i + 1 } else { i })
    }
}

/// How far an attempt at `ADD __ PERIOD __ FOR __ SYSTEM_TIME (a, b)` at `p`
/// reads.
#[verifier::opaque]
pub open spec fn add_period_reach(ts: Seq<SToken>, p: int) -> int {
    let a = ws_end(ts, p + 1);
    let b = ws_end(ts, a + 1);
    let c = ws_end(ts, b + 1);
    let d = ws_end(ts, c + 1);
    let e = ws_end(ts, d + 1);
    let f = ws_end(ts, e + 1);
    let g = ws_end(ts, f + 1);
    let h = ws_end(ts, g + 1);
    if !is_keyword_at(ts, p, "ADD"@) {
        p
    } else if !(a > p + 1 && is_keyword_at(ts, a, "PERIOD"@)) {
        a
    } else if !(b > a + 1 && is_keyword_at(ts, b, "FOR"@)) {
        b
    } else if !(c > b + 1 && is_keyword_at(ts, c, "SYSTEM_TIME"@)) {
        c
    } else if !is_kind_at(ts, d, SKind::LParens) {
        d
    } else if ident_at(ts, e) is None {
        e
    } else if !is_kind_at(ts, f, SKind::Comma) {
        f
    } else if ident_at(ts, g) is None {
        g
    } else if is_kind_at(ts, h, SKind::RParens) {
        h + 1
    } else {
        h
    }
}

/// How far an attempt at a dropping, locking, ordering or renaming alter
/// specification at `p` reads.
#[verifier::opaque]
pub open spec fn alter_other_reach(ts: Seq<SToken>, p: int) -> int {
    alt_reach(
        drop_index_at(ts, p) is Some,
        drop_index_reach(ts, p),
        alt_reach(
            drop_primary_key_at(ts, p) is Some,
            drop_primary_key_reach(ts, p),
            alt_reach(
                drop_foreign_key_at(ts, p) is Some,
                drop_foreign_key_reach(ts, p),
                alt_reach(
                    drop_column_at(ts, p) is Some,
                    drop_column_reach(ts, p),
                    alt_reach(
                        force_at(ts, p) is Some,
                        if force_at(ts, p) is Some {
                            p + 1
                        } else {
                            p
                        },
                        alt_reach(
                            change_lock_at(ts, p) is Some,
                            keyed_word_reach(ts, p, "LOCK"@, lock_words()),
                            alt_reach(
                                order_by_at(ts, p) is Some,
                                order_by_reach(ts, p),
                                alt_reach(
                                    rename_index_at(ts, p) is Some,
                                    rename_index_reach(ts, p),
                                    alt_reach(
                                        rename_at(ts, p) is Some,
                                        rename_reach(ts, p),
                                        alt_reach(
                                            two_words_at(ts, p, "WITH"@, "VALIDATION"@, "withValidation"@) is Some,
                                            two_words_at_reach(ts, p, "WITH"@, "VALIDATION"@),
                                            alt_reach(
                                                two_words_at(ts, p, "WITHOUT"@, "VALIDATION"@, "withoutValidation"@)
                                                    is Some,
                                                two_words_at_reach(ts, p, "WITHOUT"@, "VALIDATION"@),
                                                add_period_reach(ts, p),
                                            ),
                                        ),
                                    ),
                                ),
                            ),
                        ),
                    ),
                ),
            ),
        ),
    )
}

/// How far an attempt at an adding alter specification at `p` reads.
#[verifier::opaque]
pub open spec fn alter_add_reach(ts: Seq<SToken>, p: int) -> int {
    alt_reach(
        add_column_at(ts, p) is Some,
        add_column_reach(ts, p),
        alt_reach(
            add_columns_at(ts, p) is Some,
            add_columns_reach(ts, p),
            alt_reach(
                add_index_at(ts, p) is Some,
                add_index_reach(ts, p),
                alt_reach(
                    add_primary_key_at(ts, p) is Some,
                    add_primary_key_reach(ts, p),
                    alt_reach(
                        add_unique_key_at(ts, p) is Some,
                        add_unique_key_reach(ts, p),
                        alt_reach(
                            add_named_index_at(ts, p, "FULLTEXT"@, "addFulltextIndex"@) is Some,
                            add_named_index_reach(ts, p, "FULLTEXT"@),
                            alt_reach(
                                add_named_index_at(ts, p, "SPATIAL"@, "addSpatialIndex"@) is Some,
                                add_named_index_reach(ts, p, "SPATIAL"@),
                                add_foreign_key_reach(ts, p),
                            ),
                        ),
                    ),
                ),
            ),
        ),
    )
}

/// How far an attempt at an alter specification at `p` reads.
pub open spec fn alter_spec_reach(ts: Seq<SToken>, p: int) -> int {
    alt_reach(
        alter_add_at(ts, p) is Some,
        alter_add_reach(ts, p),
        alt_reach(alter_change_at(ts, p) is Some, alter_change_reach(ts, p), alter_other_reach(ts, p)),
    )
}

/// How far an attempt at table options, else one alter specification, at
/// `p` reads.
pub open spec fn alter_specs_reach(ts: Seq<SToken>, p: int) -> int {
    alt_reach(table_options_at(ts, p) is Some, table_options_reach(ts, p), alter_spec_reach(ts, p))
}

/// How far the further specifications `, spec` from `p` read.
pub open spec fn alter_specs_rest_reach(ts: Seq<SToken>, p: int) -> int
    decreases ts.len() - p,
{
    let a = ws_end(ts, p);
    let b = ws_end(ts, a + 1);
    if p >= 0 && is_kind_at(ts, a, SKind::Comma) {
        match alter_specs_at(ts, b) {
            Some((e, _)) => if p < e <= ts.len() {
                mx(mx(p, mx(b, alter_specs_reach(ts, b))), alter_specs_rest_reach(ts, e))
            } else {
                mx(p, mx(b, alter_specs_reach(ts, b)))
            },
            None => mx(p, mx(b, alter_specs_reach(ts, b))),
        }
    } else {
        mx(p, a)
    }
}

/// How far an attempt at `WAIT __ n __ | NOWAIT __` at `f` reads.
pub open spec fn alter_wait_reach(ts: Seq<SToken>, f: int) -> int {
    let g = ws_end(ts, f + 1);
    let h = ws_end(ts, g + 1);
    let waited = is_keyword_at(ts, f, "WAIT"@) && g > f + 1 && is_kind_at(ts, g, SKind::Number) && h > g + 1;
    let wr = if !is_keyword_at(ts, f, "WAIT"@) {
        f
    } else if !(g > f + 1 && is_kind_at(ts, g, SKind::Number)) {
        g
    } else {
        h
    };
    if waited {
        wr
    } else {
        mx(wr, word_ws_reach(ts, f, "NOWAIT"@))
    }
}

/// How far an attempt at `ALTER [ONLINE] [IGNORE] TABLE name __ [WAIT n |
/// NOWAIT]` at `p` reads.
pub open spec fn alter_head_reach(ts: Seq<SToken>, p: int) -> int {
    let a = ws_end(ts, p + 1);
    if !is_keyword_at(ts, p, "ALTER"@) {
        p
    } else if !(a > p + 1) {
        a
    } else {
        let a2 = opt_word_ws_end(ts, a, "ONLINE"@);
        let c = opt_word_ws_end(ts, a2, "IGNORE"@);
        let r0 = mx(mx(a, word_ws_reach(ts, a, "ONLINE"@)), mx(word_ws_reach(ts, a2, "IGNORE"@), c));
        let d = ws_end(ts, c + 1);
        let f = ws_end(ts, d + 1);
        if !is_keyword_at(ts, c, "TABLE"@) {
            r0
        } else if !(d > c + 1 && ident_at(ts, d) is Some) {
            mx(r0, d)
        } else if !(f > d + 1) {
            mx(r0, f)
        } else {
            mx(r0, mx(f, alter_wait_reach(ts, f)))
        }
    }
}

/// How far an attempt at an `ALTER TABLE` at `p` reads.
#[verifier::opaque]
pub open spec fn alter_table_reach(ts: Seq<SToken>, p: int) -> int {
    let hr = alter_head_reach(ts, p);
    match alter_head_at(ts, p) {
        None => hr,
        Some((g, _)) => match alter_specs_at(ts, g) {
            None => mx(hr, alter_specs_reach(ts, g)),
            Some((e1, s1)) => {
                let e2 = alter_specs_rest(ts, e1, seq![s1]).0;
                mx(mx(hr, alter_specs_reach(ts, g)), mx(alter_specs_rest_reach(ts, e1), eos_reach(ts, e2)))
            },
        },
    }
}


/// Parse `P_ALTER_TABLE`.
pub fn p_alter_table(s: &mut Stream) -> (r: Option<Json>)
    ensures
        frame(*old(s), *final(s)),
        reached(*old(s), *final(s), alter_table_reach(old(s).spec_tokens(), old(s).spec_pos())),
        r is Some ==> final(s).spec_pos() > old(s).spec_pos(),
        r is None ==> final(s).spec_pos() == old(s).spec_pos(),
        r matches Some(v) ==> is_node(v@, "P_ALTER_TABLE"@),
        match spec_alter_table(old(s).spec_tokens(), old(s).spec_pos()) {
            Some((e, v)) => r matches Some(x) && x@ == v && final(s).spec_pos() == e,
            None => r is None,
        },
{
    proof {
        reveal(alter_table_reach);
    }
    let ghost ts = s.spec_tokens();
    let save = s.pos();
    let table = match alter_head(s) {
        Some(t) => t,
        None => {
            s.set(save);
            return None;
        },
    };
    let first = match p_alter_table_specs(s) {
        Some(f) => f,
        None => {
            s.set(save);
            return None;
        },
    };
    let ghost target = alter_specs_rest(ts, s.spec_pos(), seq![first@]);
    let ghost g = mx(s.spec_furthest(), alter_specs_rest_reach(ts, s.spec_pos()));
    let mut specs: Vec<Json> = Vec::new();
    proof {
        crate::json::lemma_view_arr_push(specs@, first);
    }
    specs.push(first);
    assert(view_arr(specs@) =~= seq![first@]);
    loop
        invariant
            frame(*old(s), *s),
            s.spec_tokens() == ts,
            s.spec_pos() > save,
            save == old(s).spec_pos(),
            alter_specs_rest(ts, s.spec_pos(), view_arr(specs@)) == target,
            mx(s.spec_furthest(), alter_specs_rest_reach(ts, s.spec_pos())) == g,
        ensures
            target == (s.spec_pos(), view_arr(specs@)),
            s.spec_furthest() == g,
        decreases s.spec_tokens().len() - s.spec_pos(),
    {
        let sp = s.pos();
        s.ws0();
        if s.eat(&TokenKind::Comma).is_none() {
            s.set(sp);
            break;
        }
        s.ws0();
        match p_alter_table_specs(s) {
            Some(spec) => {
                proof {
                    crate::json::lemma_view_arr_push(specs@, spec);
                }
                specs.push(spec);
            },
            None => {
                s.set(sp);
                break;
            },
        }
    }
    if !s_eos(s) {
        s.set(save);
        return None;
    }
    let ghost tv = table@;
    let ghost sv = view_arr(specs@);
    let mut def: Vec<(String, Json)> = Vec::new();
    put(&mut def, "table", Json::Str(table));
    put(&mut def, "specs", Json::Arr(specs));
    assert(view_obj(def@) =~= seq![("table"@, JsonV::Str(tv)), ("specs"@, JsonV::Arr(sv))]);
    Some(node("P_ALTER_TABLE", Json::Obj(def)))
}

} // verus!
