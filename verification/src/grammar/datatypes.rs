//! Datatype grammar rules. Produces `O_DATATYPE` nodes.

use vstd::prelude::*;

use crate::json::{concat3, is_node, node, put, str_array, Json, JsonV};
use crate::lexer::{SKind, SToken, TokenKind};

use super::common::{one_of_at, one_of_keywords, paren_number_at, paren_number_reach};
use super::helpers::s_number;
use super::statements::{node_v, str_arr_v, ws1_end};
use super::stream::{frame, is_keyword_at, is_kind_at, mx, reached, ws_end, Stream};

verus! {

broadcast use super::stream::lemma_stream_bounds;

/// Parse an optional parenthesized single number: `( n )`.
pub fn opt_paren_number(s: &mut Stream) -> (r: Option<Json>)
    ensures
        frame(*old(s), *final(s)),
        reached(*old(s), *final(s), paren_number_reach(old(s).spec_tokens(), old(s).spec_pos())),
        r is None ==> final(s).spec_pos() == old(s).spec_pos(),
        r matches Some(v) ==> v@ is Num,
        ({
            let (e, n) = paren_number_at(old(s).spec_tokens(), old(s).spec_pos());
            &&& final(s).spec_pos() == e
            &&& match n {
                Some(t) => r matches Some(v) && v@ == JsonV::Num(t),
                None => r is None,
            }
        }),
{
    let save = s.pos();
    s.ws0();
    if s.eat(&TokenKind::LParens).is_none() {
        s.set(save);
        return None;
    }
    s.ws0();
    let n = match s_number(s) {
        Some(n) => n,
        None => {
            s.set(save);
            return None;
        },
    };
    s.ws0();
    if s.eat(&TokenKind::RParens).is_none() {
        s.set(save);
        return None;
    }
    Some(n)
}

/// An optional `_ ( _ d _ , _ n _ )` from `p`: where it ends and the two
/// numbers.
pub open spec fn paren_pair_at(ts: Seq<SToken>, p: int) -> Option<(int, Seq<char>, Seq<char>)> {
    let a = ws_end(ts, p);
    let b = ws_end(ts, a + 1);
    let c = ws_end(ts, b + 1);
    let d = ws_end(ts, c + 1);
    let e = ws_end(ts, d + 1);
    if is_kind_at(ts, a, SKind::LParens) && is_kind_at(ts, b, SKind::Number) && is_kind_at(ts, c, SKind::Comma)
        && is_kind_at(ts, d, SKind::Number) && is_kind_at(ts, e, SKind::RParens) {
        Some((e + 1, ts[b].value, ts[d].value))
    } else {
        None
    }
}

/// Parse an optional `( d , n )` pair. Returns `(digits, decimals)`.
pub fn opt_paren_pair(s: &mut Stream) -> (r: Option<(Json, Json)>)
    ensures
        frame(*old(s), *final(s)),
        reached(*old(s), *final(s), paren_pair_reach(old(s).spec_tokens(), old(s).spec_pos())),
        r is None ==> final(s).spec_pos() == old(s).spec_pos(),
        r matches Some((d, n)) ==> d@ is Num && n@ is Num,
        match paren_pair_at(old(s).spec_tokens(), old(s).spec_pos()) {
            Some((e, d, n)) => r matches Some((x, y)) && x@ == JsonV::Num(d) && y@ == JsonV::Num(n)
                && final(s).spec_pos() == e,
            None => r is None,
        },
{
    let save = s.pos();
    s.ws0();
    if s.eat(&TokenKind::LParens).is_none() {
        s.set(save);
        return None;
    }
    s.ws0();
    let d = match s_number(s) {
        Some(v) => v,
        None => {
            s.set(save);
            return None;
        },
    };
    s.ws0();
    if s.eat(&TokenKind::Comma).is_none() {
        s.set(save);
        return None;
    }
    s.ws0();
    let n = match s_number(s) {
        Some(v) => v,
        None => {
            s.set(save);
            return None;
        },
    };
    s.ws0();
    if s.eat(&TokenKind::RParens).is_none() {
        s.set(save);
        return None;
    }
    Some((d, n))
}

/// A node `{ id, def: { datatype } }`.
pub open spec fn simple_v(id: Seq<char>, datatype: Seq<char>) -> JsonV {
    node_v(id, JsonV::Obj(seq![("datatype"@, JsonV::Str(datatype))]))
}

/// A node `{ id, def: { datatype, key: v } }`.
pub open spec fn typed_v(id: Seq<char>, datatype: Seq<char>, key: Seq<char>, v: JsonV) -> JsonV {
    node_v(id, JsonV::Obj(seq![("datatype"@, JsonV::Str(datatype)), (key, v)]))
}

/// A node `{ id, def: { datatype, digits, decimals } }`.
pub open spec fn digits_v(id: Seq<char>, datatype: Seq<char>, digits: Seq<char>, decimals: Seq<char>) -> JsonV {
    node_v(
        id,
        JsonV::Obj(
            seq![
                ("datatype"@, JsonV::Str(datatype)),
                ("digits"@, JsonV::Num(digits)),
                ("decimals"@, JsonV::Num(decimals)),
            ],
        ),
    )
}

/// The number `v`, or `dflt` when there is none.
pub open spec fn num_or(v: Option<Seq<char>>, dflt: Seq<char>) -> JsonV {
    match v {
        Some(n) => JsonV::Num(n),
        None => JsonV::Num(dflt),
    }
}

/// The value of the keyword at `p`, if it is one of `words`.
pub open spec fn word_of(ts: Seq<SToken>, p: int, words: Seq<&str>) -> Option<Seq<char>> {
    if one_of_at(ts, p, words) {
        Some(ts[p].value)
    } else {
        None
    }
}

/// A node `{ id, def: { datatype } }`.
fn simple_type(id: &str, datatype: String) -> (r: Json)
    ensures
        is_node(r@, id@),
        r@ == simple_v(id@, datatype@),
{
    let mut def: Vec<(String, Json)> = Vec::new();
    let ghost d = datatype@;
    put(&mut def, "datatype", Json::Str(datatype));
    assert(crate::json::view_obj(def@) =~= seq![("datatype"@, JsonV::Str(d))]);
    node(id, Json::Obj(def))
}

/// A node `{ id, def: { datatype, <key>: v } }`.
fn typed_value(id: &str, datatype: String, key: &str, v: Json) -> (r: Json)
    ensures
        is_node(r@, id@),
        r@ == typed_v(id@, datatype@, key@, v@),
{
    let mut def: Vec<(String, Json)> = Vec::new();
    let ghost d = datatype@;
    let ghost vv = v@;
    put(&mut def, "datatype", Json::Str(datatype));
    put(&mut def, key, v);
    assert(crate::json::view_obj(def@) =~= seq![("datatype"@, JsonV::Str(d)), (key@, vv)]);
    node(id, Json::Obj(def))
}

/// The integer type names.
pub open spec fn integer_words() -> Seq<&'static str> {
    seq!["INT", "INTEGER", "TINYINT", "SMALLINT", "MEDIUMINT", "BIGINT"]
}

/// An integer type at `p`: its end and node.
pub open spec fn integer_at(ts: Seq<SToken>, p: int) -> Option<(int, JsonV)> {
    match word_of(ts, p, integer_words()) {
        None => None,
        Some(d) => {
            let (e, w) = paren_number_at(ts, p + 1);
            Some(
                (
                    e,
                    typed_v(
                        "O_INTEGER_DATATYPE"@,
                        d,
                        "displayWidth"@,
                        match w {
                            Some(n) => JsonV::Num(n),
                            None => JsonV::Null,
                        },
                    ),
                ),
            )
        },
    }
}

/// The fixed point type names.
pub open spec fn fixed_point_words() -> Seq<&'static str> {
    seq!["DECIMAL", "NUMERIC"]
}

/// A fixed point type at `p`: its end and node. Digits default to 10 and
/// decimals to 0.
pub open spec fn fixed_point_at(ts: Seq<SToken>, p: int) -> Option<(int, JsonV)> {
    match word_of(ts, p, fixed_point_words()) {
        None => None,
        Some(d) => match paren_pair_at(ts, p + 1) {
            Some((e, dg, dc)) => Some((e, digits_v("O_FIXED_POINT_DATATYPE"@, d, dg, dc))),
            None => {
                let (e, w) = paren_number_at(ts, p + 1);
                match w {
                    Some(n) => Some((e, digits_v("O_FIXED_POINT_DATATYPE"@, d, n, "0"@))),
                    None => Some((p + 1, digits_v("O_FIXED_POINT_DATATYPE"@, d, "10"@, "0"@))),
                }
            },
        },
    }
}

/// The floating point type names.
pub open spec fn floating_point_words() -> Seq<&'static str> {
    seq!["FLOAT", "DOUBLE"]
}

/// A floating point type at `p`: its end and node.
pub open spec fn floating_point_at(ts: Seq<SToken>, p: int) -> Option<(int, JsonV)> {
    match word_of(ts, p, floating_point_words()) {
        None => None,
        Some(d) => match paren_pair_at(ts, p + 1) {
            Some((e, dg, dc)) => Some((e, digits_v("O_FLOATING_POINT_DATATYPE"@, d, dg, dc))),
            None => Some((p + 1, simple_v("O_FLOATING_POINT_DATATYPE"@, d))),
        },
    }
}

/// A type `name [( n )]` at `p`, with `key` the number or `dflt`: its end
/// and node.
pub open spec fn keyword_number_at(
    ts: Seq<SToken>,
    p: int,
    name: Seq<char>,
    id: Seq<char>,
    key: Seq<char>,
    dflt: Seq<char>,
) -> Option<(int, JsonV)> {
    if !is_keyword_at(ts, p, name) {
        None
    } else {
        let (e, w) = paren_number_at(ts, p + 1);
        Some((e, typed_v(id, ts[p].value, key, num_or(w, dflt))))
    }
}

/// The boolean type names.
pub open spec fn boolean_words() -> Seq<&'static str> {
    seq!["BOOLEAN", "BOOL"]
}

/// The date and time type names.
pub open spec fn datetime_words() -> Seq<&'static str> {
    seq!["DATE", "TIME", "DATETIME", "TIMESTAMP"]
}

/// A date or time type at `p`: its end and node. The fraction defaults to 0.
pub open spec fn datetime_at(ts: Seq<SToken>, p: int) -> Option<(int, JsonV)> {
    match word_of(ts, p, datetime_words()) {
        None => None,
        Some(d) => {
            let (e, w) = paren_number_at(ts, p + 1);
            Some((e, typed_v("O_DATETIME_DATATYPE"@, d, "fractional"@, num_or(w, "0"@))))
        },
    }
}

/// The leading name of a character string type at `p`: its end and text.
pub open spec fn variable_string_name_at(ts: Seq<SToken>, p: int) -> Option<(int, Seq<char>)> {
    if is_keyword_at(ts, p, "NCHAR"@) {
        Some((p + 1, ts[p].value))
    } else if is_keyword_at(ts, p, "NATIONAL"@) && ws1_end(ts, p + 1) is Some && is_keyword_at(
        ts,
        ws1_end(ts, p + 1)->Some_0,
        "CHAR"@,
    ) {
        let b = ws1_end(ts, p + 1)->Some_0;
        Some((b + 1, ts[p].value + " "@ + ts[b].value))
    } else if is_keyword_at(ts, p, "NVARCHAR"@) || is_keyword_at(ts, p, "CHARACTER"@) || is_keyword_at(
        ts,
        p,
        "CHAR"@,
    ) || is_keyword_at(ts, p, "BINARY"@) {
        Some((p + 1, ts[p].value))
    } else {
        None
    }
}

/// A `VARCHAR (n) [BINARY]` type at `p`: its end and node.
pub open spec fn varchar_at(ts: Seq<SToken>, p: int) -> Option<(int, JsonV)> {
    let (e, w) = paren_number_at(ts, p + 1);
    if is_keyword_at(ts, p, "VARCHAR"@) && w is Some {
        let b = ws_end(ts, e);
        let base = seq![("datatype"@, JsonV::Str(ts[p].value)), ("length"@, JsonV::Num(w->Some_0))];
        if is_keyword_at(ts, b, "BINARY"@) {
            Some(
                (
                    b + 1,
                    node_v(
                        "O_VARIABLE_STRING_DATATYPE"@,
                        JsonV::Obj(base.push(("binaryCollation"@, JsonV::Bool(true)))),
                    ),
                ),
            )
        } else {
            Some((e, node_v("O_VARIABLE_STRING_DATATYPE"@, JsonV::Obj(base))))
        }
    } else {
        None
    }
}

/// A `VARBINARY (n)` type at `p`: its end and node.
pub open spec fn varbinary_at(ts: Seq<SToken>, p: int) -> Option<(int, JsonV)> {
    let (e, w) = paren_number_at(ts, p + 1);
    if is_keyword_at(ts, p, "VARBINARY"@) && w is Some {
        Some((e, typed_v("O_VARIABLE_STRING_DATATYPE"@, ts[p].value, "length"@, JsonV::Num(w->Some_0))))
    } else {
        None
    }
}

/// A character string type `name [(n)]` at `p`: its end and node. The
/// length defaults to 1.
pub open spec fn char_string_at(ts: Seq<SToken>, p: int) -> Option<(int, JsonV)> {
    match variable_string_name_at(ts, p) {
        None => None,
        Some((q, name)) => {
            let (f, l) = paren_number_at(ts, q);
            Some((f, typed_v("O_VARIABLE_STRING_DATATYPE"@, name, "length"@, num_or(l, "1"@))))
        },
    }
}

/// A variable string type at `p`: its end and node.
pub open spec fn variable_string_at(ts: Seq<SToken>, p: int) -> Option<(int, JsonV)> {
    first_of(varchar_at(ts, p), first_of(varbinary_at(ts, p), char_string_at(ts, p)))
}

/// The sized blob and text type names, and their lengths.
pub open spec fn sized_string_words() -> Seq<&'static str> {
    seq!["TINYBLOB", "MEDIUMBLOB", "LONGBLOB", "TINYTEXT", "MEDIUMTEXT", "LONGTEXT"]
}

pub open spec fn sized_string_lengths() -> Seq<&'static str> {
    seq!["255", "16777215", "4294967295", "255", "16777215", "4294967295"]
}

/// The first of `words` from index `i` on that is the keyword at `p`.
pub open spec fn first_keyword_from(ts: Seq<SToken>, p: int, words: Seq<&str>, i: int) -> Option<int>
    decreases words.len() - i,
{
    if i < 0 || i >= words.len() {
        None
    } else if is_keyword_at(ts, p, words[i]@) {
        Some(i)
    } else {
        first_keyword_from(ts, p, words, i + 1)
    }
}

/// A blob or text type at `p`: its end and node.
pub open spec fn fixed_string_at(ts: Seq<SToken>, p: int) -> Option<(int, JsonV)> {
    match word_of(ts, p, seq!["BLOB", "TEXT"]) {
        Some(d) => {
            let (e, w) = paren_number_at(ts, p + 1);
            Some((e, typed_v("O_FIXED_STRING_DATATYPE"@, d, "length"@, num_or(w, "65535"@))))
        },
        None => match first_keyword_from(ts, p, sized_string_words(), 0) {
            Some(i) => Some(
                (
                    p + 1,
                    typed_v(
                        "O_FIXED_STRING_DATATYPE"@,
                        ts[p].value,
                        "length"@,
                        JsonV::Num(sized_string_lengths()[i]@),
                    ),
                ),
            ),
            None => None,
        },
    }
}

/// The further quoted strings `, 'x'` from `p`, after `acc`.
pub open spec fn squote_rest(ts: Seq<SToken>, p: int, acc: Seq<Seq<char>>) -> (int, Seq<Seq<char>>)
    decreases ts.len() - p,
{
    let a = ws_end(ts, p);
    let b = ws_end(ts, a + 1);
    if p >= 0 && is_kind_at(ts, a, SKind::Comma) && is_kind_at(ts, b, SKind::SQuoteString) && p < b + 1 <= ts.len() {
        squote_rest(ts, b + 1, acc.push(ts[b].value))
    } else {
        (p, acc)
    }
}

/// A list `_ ( _ 'x' , ... _ )` from `p`: its end and the strings.
pub open spec fn squote_list_at(ts: Seq<SToken>, p: int) -> Option<(int, Seq<Seq<char>>)> {
    let a = ws_end(ts, p);
    let b = ws_end(ts, a + 1);
    if is_kind_at(ts, a, SKind::LParens) && is_kind_at(ts, b, SKind::SQuoteString) {
        let (e, vals) = squote_rest(ts, b + 1, seq![ts[b].value]);
        let f = ws_end(ts, e);
        if is_kind_at(ts, f, SKind::RParens) {
            Some((f + 1, vals))
        } else {
            None
        }
    } else {
        None
    }
}

/// An `ENUM` or `SET` type (`name`, node `id`) at `p`: its end and node.
pub open spec fn value_list_type_at(ts: Seq<SToken>, p: int, name: Seq<char>, id: Seq<char>) -> Option<(int, JsonV)> {
    if !is_keyword_at(ts, p, name) {
        None
    } else {
        match squote_list_at(ts, p + 1) {
            Some((e, vals)) => Some((e, typed_v(id, ts[p].value, "values"@, str_arr_v(vals)))),
            None => None,
        }
    }
}

/// The spatial type names.
pub open spec fn spatial_words() -> Seq<&'static str> {
    seq![
        "GEOMETRY",
        "POINT",
        "LINESTRING",
        "POLYGON",
        "MULTIPOINT",
        "MULTILINESTRING",
        "MULTIPOLYGON",
        "GEOMETRYCOLLECTION",
    ]
}

/// A type named by one of `words` alone at `p`: its end and node `id`.
pub open spec fn simple_type_at(ts: Seq<SToken>, p: int, words: Seq<&str>, id: Seq<char>) -> Option<(int, JsonV)> {
    match word_of(ts, p, words) {
        Some(d) => Some((p + 1, simple_v(id, d))),
        None => None,
    }
}

/// The first of two alternatives that matches.
pub open spec fn first_of(a: Option<(int, JsonV)>, b: Option<(int, JsonV)>) -> Option<(int, JsonV)> {
    match a {
        Some(x) => Some(x),
        None => b,
    }
}

/// The numeric, boolean and temporal datatypes at `p`.
pub open spec fn numeric_type_at(ts: Seq<SToken>, p: int) -> Option<(int, JsonV)> {
    first_of(
        integer_at(ts, p),
        first_of(
            fixed_point_at(ts, p),
            first_of(
                floating_point_at(ts, p),
                first_of(
                    keyword_number_at(ts, p, "BIT"@, "O_BIT_DATATYPE"@, "length"@, "1"@),
                    first_of(
                        simple_type_at(ts, p, boolean_words(), "O_BOOLEAN_DATATYPE"@),
                        first_of(
                            datetime_at(ts, p),
                            keyword_number_at(ts, p, "YEAR"@, "O_YEAR_DATATYPE"@, "digits"@, "4"@),
                        ),
                    ),
                ),
            ),
        ),
    )
}

/// The string, list, uuid, spatial and json datatypes at `p`.
pub open spec fn other_type_at(ts: Seq<SToken>, p: int) -> Option<(int, JsonV)> {
    first_of(
        variable_string_at(ts, p),
        first_of(
            fixed_string_at(ts, p),
            first_of(
                value_list_type_at(ts, p, "ENUM"@, "O_ENUM_DATATYPE"@),
                first_of(
                    value_list_type_at(ts, p, "SET"@, "O_SET_DATATYPE"@),
                    first_of(
                        simple_type_at(ts, p, seq!["UUID", "UNIQUEIDENTIFIER"], "O_UUID_DATATYPE"@),
                        first_of(
                            simple_type_at(ts, p, spatial_words(), "O_SPATIAL_DATATYPE"@),
                            simple_type_at(ts, p, seq!["JSON"], "O_JSON_DATATYPE"@),
                        ),
                    ),
                ),
            ),
        ),
    )
}

/// A datatype at `p`: its end and `O_DATATYPE` node.
pub open spec fn datatype_at(ts: Seq<SToken>, p: int) -> Option<(int, JsonV)> {
    match first_of(numeric_type_at(ts, p), other_type_at(ts, p)) {
        Some((e, v)) => Some((e, node_v("O_DATATYPE"@, v))),
        None => None,
    }
}

/// Where a rule's attempt stops reading when the first alternative, which
/// read to `ra`, matched (`ok`) or did not and the second read to `rb`.
pub open spec fn alt_reach(ok: bool, ra: int, rb: int) -> int {
    if ok {
        ra
    } else {
        mx(ra, rb)
    }
}

/// How far an attempt at `_ ( _ d _ , _ n _ )` from `p` reads.
pub open spec fn paren_pair_reach(ts: Seq<SToken>, p: int) -> int {
    let a = ws_end(ts, p);
    let b = ws_end(ts, a + 1);
    let c = ws_end(ts, b + 1);
    let d = ws_end(ts, c + 1);
    let e = ws_end(ts, d + 1);
    if !is_kind_at(ts, a, SKind::LParens) {
        a
    } else if !is_kind_at(ts, b, SKind::Number) {
        b
    } else if !is_kind_at(ts, c, SKind::Comma) {
        c
    } else if !is_kind_at(ts, d, SKind::Number) {
        d
    } else if !is_kind_at(ts, e, SKind::RParens) {
        e
    } else {
        e + 1
    }
}

/// How far a type `kw [( n )]` at `p`, with `kw` matched by `ok`, reads.
pub open spec fn keyword_paren_reach(ts: Seq<SToken>, p: int, ok: bool) -> int {
    if ok {
        mx(p + 1, paren_number_reach(ts, p + 1))
    } else {
        p
    }
}

/// How far an attempt at a fixed point type at `p` reads.
pub open spec fn fixed_point_reach(ts: Seq<SToken>, p: int) -> int {
    if one_of_at(ts, p, fixed_point_words()) {
        mx(
            p + 1,
            alt_reach(paren_pair_at(ts, p + 1) is Some, paren_pair_reach(ts, p + 1), paren_number_reach(ts, p + 1)),
        )
    } else {
        p
    }
}

/// How far an attempt at a floating point type at `p` reads.
pub open spec fn floating_point_reach(ts: Seq<SToken>, p: int) -> int {
    if one_of_at(ts, p, floating_point_words()) {
        mx(p + 1, paren_pair_reach(ts, p + 1))
    } else {
        p
    }
}

/// How far an attempt at a type named by one of `words` alone reads.
pub open spec fn one_word_reach(ts: Seq<SToken>, p: int, words: Seq<&str>) -> int {
    if one_of_at(ts, p, words) {
        p + 1
    } else {
        p
    }
}

/// How far an attempt at `VARCHAR (n) [BINARY]` at `p` reads.
pub open spec fn varchar_reach(ts: Seq<SToken>, p: int) -> int {
    if !is_keyword_at(ts, p, "VARCHAR"@) {
        p
    } else if paren_number_at(ts, p + 1).1 is None {
        mx(p + 1, paren_number_reach(ts, p + 1))
    } else {
        let b = ws_end(ts, paren_number_at(ts, p + 1).0);
        mx(mx(p + 1, paren_number_reach(ts, p + 1)), if is_keyword_at(ts, b, "BINARY"@) { b + 1 } else { b })
    }
}

/// How far an attempt at the name of a character string type at `p` reads.
pub open spec fn variable_string_name_reach(ts: Seq<SToken>, p: int) -> int {
    if is_keyword_at(ts, p, "NCHAR"@) {
        p + 1
    } else if is_keyword_at(ts, p, "NATIONAL"@) {
        let a = ws_end(ts, p + 1);
        if a > p + 1 && is_keyword_at(ts, a, "CHAR"@) {
            a + 1
        } else {
            a
        }
    } else if is_keyword_at(ts, p, "NVARCHAR"@) || is_keyword_at(ts, p, "CHARACTER"@) || is_keyword_at(
        ts,
        p,
        "CHAR"@,
    ) || is_keyword_at(ts, p, "BINARY"@) {
        p + 1
    } else {
        p
    }
}

/// How far an attempt at a character string type at `p` reads.
pub open spec fn char_string_reach(ts: Seq<SToken>, p: int) -> int {
    match variable_string_name_at(ts, p) {
        None => variable_string_name_reach(ts, p),
        Some((q, _)) => mx(variable_string_name_reach(ts, p), paren_number_reach(ts, q)),
    }
}

/// How far an attempt at a variable string type at `p` reads.
pub open spec fn variable_string_reach(ts: Seq<SToken>, p: int) -> int {
    alt_reach(
        varchar_at(ts, p) is Some,
        varchar_reach(ts, p),
        alt_reach(
            varbinary_at(ts, p) is Some,
            keyword_paren_reach(ts, p, is_keyword_at(ts, p, "VARBINARY"@)),
            char_string_reach(ts, p),
        ),
    )
}

/// How far an attempt at a blob or text type at `p` reads.
pub open spec fn fixed_string_reach(ts: Seq<SToken>, p: int) -> int {
    if one_of_at(ts, p, seq!["BLOB", "TEXT"]) {
        mx(p + 1, paren_number_reach(ts, p + 1))
    } else if first_keyword_from(ts, p, sized_string_words(), 0) is Some {
        p + 1
    } else {
        p
    }
}

/// How far the further quoted strings `, 'x'` from `p` read.
pub open spec fn squote_rest_reach(ts: Seq<SToken>, p: int) -> int
    decreases ts.len() - p,
{
    let a = ws_end(ts, p);
    let b = ws_end(ts, a + 1);
    if p >= 0 && is_kind_at(ts, a, SKind::Comma) && is_kind_at(ts, b, SKind::SQuoteString) && p < b + 1 <= ts.len() {
        mx(p, squote_rest_reach(ts, b + 1))
    } else if p >= 0 && is_kind_at(ts, a, SKind::Comma) {
        mx(p, b)
    } else {
        mx(p, a)
    }
}

/// How far an attempt at `_ ( _ 'x' , ... _ )` from `p` reads.
pub open spec fn squote_list_reach(ts: Seq<SToken>, p: int) -> int {
    let a = ws_end(ts, p);
    let b = ws_end(ts, a + 1);
    if !is_kind_at(ts, a, SKind::LParens) {
        a
    } else if !is_kind_at(ts, b, SKind::SQuoteString) {
        b
    } else {
        let e = squote_rest(ts, b + 1, seq![ts[b].value]).0;
        let f = ws_end(ts, e);
        mx(squote_rest_reach(ts, b + 1), if is_kind_at(ts, f, SKind::RParens) { f + 1 } else { f })
    }
}

/// How far an attempt at an `ENUM` or `SET` type at `p` reads.
pub open spec fn value_list_reach(ts: Seq<SToken>, p: int, name: Seq<char>) -> int {
    if is_keyword_at(ts, p, name) {
        mx(p + 1, squote_list_reach(ts, p + 1))
    } else {
        p
    }
}

/// How far an attempt at a numeric, boolean or temporal type at `p` reads.
pub open spec fn numeric_type_reach(ts: Seq<SToken>, p: int) -> int {
    alt_reach(
        integer_at(ts, p) is Some,
        keyword_paren_reach(ts, p, one_of_at(ts, p, integer_words())),
        alt_reach(
            fixed_point_at(ts, p) is Some,
            fixed_point_reach(ts, p),
            alt_reach(
                floating_point_at(ts, p) is Some,
                floating_point_reach(ts, p),
                alt_reach(
                    keyword_number_at(ts, p, "BIT"@, "O_BIT_DATATYPE"@, "length"@, "1"@) is Some,
                    keyword_paren_reach(ts, p, is_keyword_at(ts, p, "BIT"@)),
                    alt_reach(
                        simple_type_at(ts, p, boolean_words(), "O_BOOLEAN_DATATYPE"@) is Some,
                        one_word_reach(ts, p, boolean_words()),
                        alt_reach(
                            datetime_at(ts, p) is Some,
                            keyword_paren_reach(ts, p, one_of_at(ts, p, datetime_words())),
                            keyword_paren_reach(ts, p, is_keyword_at(ts, p, "YEAR"@)),
                        ),
                    ),
                ),
            ),
        ),
    )
}

/// How far an attempt at a string, list, uuid, spatial or json type at `p`
/// reads.
pub open spec fn other_type_reach(ts: Seq<SToken>, p: int) -> int {
    alt_reach(
        variable_string_at(ts, p) is Some,
        variable_string_reach(ts, p),
        alt_reach(
            fixed_string_at(ts, p) is Some,
            fixed_string_reach(ts, p),
            alt_reach(
                value_list_type_at(ts, p, "ENUM"@, "O_ENUM_DATATYPE"@) is Some,
                value_list_reach(ts, p, "ENUM"@),
                alt_reach(
                    value_list_type_at(ts, p, "SET"@, "O_SET_DATATYPE"@) is Some,
                    value_list_reach(ts, p, "SET"@),
                    alt_reach(
                        simple_type_at(ts, p, seq!["UUID", "UNIQUEIDENTIFIER"], "O_UUID_DATATYPE"@) is Some,
                        one_word_reach(ts, p, seq!["UUID", "UNIQUEIDENTIFIER"]),
                        alt_reach(
                            simple_type_at(ts, p, spatial_words(), "O_SPATIAL_DATATYPE"@) is Some,
                            one_word_reach(ts, p, spatial_words()),
                            one_word_reach(ts, p, seq!["JSON"]),
                        ),
                    ),
                ),
            ),
        ),
    )
}

/// How far an attempt at a datatype at `p` reads.
pub open spec fn datatype_reach(ts: Seq<SToken>, p: int) -> int {
    alt_reach(numeric_type_at(ts, p) is Some, numeric_type_reach(ts, p), other_type_reach(ts, p))
}

/// Parse the numeric, boolean and temporal datatypes.
fn numeric_type(s: &mut Stream) -> (r: Option<Json>)
    ensures
        frame(*old(s), *final(s)),
        reached(*old(s), *final(s), numeric_type_reach(old(s).spec_tokens(), old(s).spec_pos())),
        r is Some ==> final(s).spec_pos() > old(s).spec_pos(),
        r is None ==> final(s).spec_pos() == old(s).spec_pos(),
        match numeric_type_at(old(s).spec_tokens(), old(s).spec_pos()) {
            Some((e, v)) => r matches Some(x) && x@ == v && final(s).spec_pos() == e,
            None => r is None,
        },
{
    let save = s.pos();
    if let Some(v) = integer(s) {
        return Some(v);
    }
    s.set(save);
    if let Some(v) = fixed_point(s) {
        return Some(v);
    }
    s.set(save);
    if let Some(v) = floating_point(s) {
        return Some(v);
    }
    s.set(save);
    if let Some(v) = bit(s) {
        return Some(v);
    }
    s.set(save);
    if let Some(v) = boolean(s) {
        return Some(v);
    }
    s.set(save);
    if let Some(v) = datetime(s) {
        return Some(v);
    }
    s.set(save);
    if let Some(v) = year(s) {
        return Some(v);
    }
    s.set(save);
    None
}

/// Parse the string, list, uuid, spatial and json datatypes.
fn other_type(s: &mut Stream) -> (r: Option<Json>)
    ensures
        frame(*old(s), *final(s)),
        reached(*old(s), *final(s), other_type_reach(old(s).spec_tokens(), old(s).spec_pos())),
        r is Some ==> final(s).spec_pos() > old(s).spec_pos(),
        r is None ==> final(s).spec_pos() == old(s).spec_pos(),
        match other_type_at(old(s).spec_tokens(), old(s).spec_pos()) {
            Some((e, v)) => r matches Some(x) && x@ == v && final(s).spec_pos() == e,
            None => r is None,
        },
{
    let save = s.pos();
    if let Some(v) = variable_string(s) {
        return Some(v);
    }
    s.set(save);
    if let Some(v) = fixed_string(s) {
        return Some(v);
    }
    s.set(save);
    if let Some(v) = enum_type(s) {
        return Some(v);
    }
    s.set(save);
    if let Some(v) = set_type(s) {
        return Some(v);
    }
    s.set(save);
    if let Some(v) = uuid(s) {
        return Some(v);
    }
    s.set(save);
    if let Some(v) = spatial(s) {
        return Some(v);
    }
    s.set(save);
    if let Some(v) = json_type(s) {
        return Some(v);
    }
    s.set(save);
    None
}

/// Parse `O_DATATYPE`. Tries each kind of datatype in order.
pub fn o_datatype(s: &mut Stream) -> (r: Option<Json>)
    ensures
        frame(*old(s), *final(s)),
        reached(*old(s), *final(s), datatype_reach(old(s).spec_tokens(), old(s).spec_pos())),
        r is Some ==> final(s).spec_pos() > old(s).spec_pos(),
        r is None ==> final(s).spec_pos() == old(s).spec_pos(),
        r matches Some(v) ==> is_node(v@, "O_DATATYPE"@),
        match datatype_at(old(s).spec_tokens(), old(s).spec_pos()) {
            Some((e, v)) => r matches Some(x) && x@ == v && final(s).spec_pos() == e,
            None => r is None,
        },
{
    let save = s.pos();
    if let Some(v) = numeric_type(s) {
        return Some(node("O_DATATYPE", v));
    }
    s.set(save);
    if let Some(v) = other_type(s) {
        return Some(node("O_DATATYPE", v));
    }
    s.set(save);
    None
}

fn integer(s: &mut Stream) -> (r: Option<Json>)
    ensures
        frame(*old(s), *final(s)),
        reached(*old(s), *final(s), keyword_paren_reach(old(s).spec_tokens(), old(s).spec_pos(), one_of_at(old(s).spec_tokens(), old(s).spec_pos(), integer_words()))),
        r is Some ==> final(s).spec_pos() > old(s).spec_pos(),
        match integer_at(old(s).spec_tokens(), old(s).spec_pos()) {
            Some((e, v)) => r matches Some(x) && x@ == v && final(s).spec_pos() == e,
            None => r is None,
        },
{
    let words: [&str; 6] = ["INT", "INTEGER", "TINYINT", "SMALLINT", "MEDIUMINT", "BIGINT"];
    assert(words@ =~= integer_words());
    let datatype = match one_of_keywords(s, &words) {
        Some(d) => d,
        None => return None,
    };
    let display_width = opt_paren_number(s);
    // The display width is null when there is no parenthesized width.
    Some(
        typed_value(
            "O_INTEGER_DATATYPE",
            datatype,
            "displayWidth",
            match display_width {
                Some(w) => w,
                None => Json::Null,
            },
        ),
    )
}

fn fixed_point(s: &mut Stream) -> (r: Option<Json>)
    ensures
        frame(*old(s), *final(s)),
        reached(*old(s), *final(s), fixed_point_reach(old(s).spec_tokens(), old(s).spec_pos())),
        r is Some ==> final(s).spec_pos() > old(s).spec_pos(),
        match fixed_point_at(old(s).spec_tokens(), old(s).spec_pos()) {
            Some((e, v)) => r matches Some(x) && x@ == v && final(s).spec_pos() == e,
            None => r is None,
        },
{
    let words: [&str; 2] = ["DECIMAL", "NUMERIC"];
    assert(words@ =~= fixed_point_words());
    let datatype = match one_of_keywords(s, &words) {
        Some(d) => d,
        None => return None,
    };
    let ghost dv = datatype@;
    let mut def: Vec<(String, Json)> = Vec::new();
    put(&mut def, "datatype", Json::Str(datatype));
    let ghost digits: Seq<char>;
    let ghost decimals: Seq<char>;
    if let Some((d, n)) = opt_paren_pair(s) {
        proof {
            digits = d@->Num_0;
            decimals = n@->Num_0;
        }
        put(&mut def, "digits", d);
        put(&mut def, "decimals", n);
    } else if let Some(d) = opt_paren_number(s) {
        proof {
            digits = d@->Num_0;
            decimals = "0"@;
        }
        put(&mut def, "digits", d);
        put(&mut def, "decimals", Json::num_lit("0"));
    } else {
        proof {
            digits = "10"@;
            decimals = "0"@;
        }
        put(&mut def, "digits", Json::num_lit("10"));
        put(&mut def, "decimals", Json::num_lit("0"));
    }
    assert(crate::json::view_obj(def@) =~= seq![
        ("datatype"@, JsonV::Str(dv)),
        ("digits"@, JsonV::Num(digits)),
        ("decimals"@, JsonV::Num(decimals)),
    ]);
    Some(node("O_FIXED_POINT_DATATYPE", Json::Obj(def)))
}

fn floating_point(s: &mut Stream) -> (r: Option<Json>)
    ensures
        frame(*old(s), *final(s)),
        reached(*old(s), *final(s), floating_point_reach(old(s).spec_tokens(), old(s).spec_pos())),
        r is Some ==> final(s).spec_pos() > old(s).spec_pos(),
        match floating_point_at(old(s).spec_tokens(), old(s).spec_pos()) {
            Some((e, v)) => r matches Some(x) && x@ == v && final(s).spec_pos() == e,
            None => r is None,
        },
{
    let words: [&str; 2] = ["FLOAT", "DOUBLE"];
    assert(words@ =~= floating_point_words());
    let datatype = match one_of_keywords(s, &words) {
        Some(d) => d,
        None => return None,
    };
    let ghost dv = datatype@;
    let mut def: Vec<(String, Json)> = Vec::new();
    put(&mut def, "datatype", Json::Str(datatype));
    if let Some((d, n)) = opt_paren_pair(s) {
        let ghost dg = d@->Num_0;
        let ghost dc = n@->Num_0;
        put(&mut def, "digits", d);
        put(&mut def, "decimals", n);
        assert(crate::json::view_obj(def@) =~= seq![
            ("datatype"@, JsonV::Str(dv)),
            ("digits"@, JsonV::Num(dg)),
            ("decimals"@, JsonV::Num(dc)),
        ]);
    } else {
        assert(crate::json::view_obj(def@) =~= seq![("datatype"@, JsonV::Str(dv))]);
    }
    Some(node("O_FLOATING_POINT_DATATYPE", Json::Obj(def)))
}

/// Parse `name [( n )]`, with `key` the number or `dflt`.
fn keyword_number(s: &mut Stream, name: &str, id: &str, key: &str, dflt: &str) -> (r: Option<Json>)
    ensures
        frame(*old(s), *final(s)),
        reached(*old(s), *final(s), keyword_paren_reach(old(s).spec_tokens(), old(s).spec_pos(), is_keyword_at(old(s).spec_tokens(), old(s).spec_pos(), name@))),
        r is Some ==> final(s).spec_pos() > old(s).spec_pos(),
        match keyword_number_at(old(s).spec_tokens(), old(s).spec_pos(), name@, id@, key@, dflt@) {
            Some((e, v)) => r matches Some(x) && x@ == v && final(s).spec_pos() == e,
            None => r is None,
        },
{
    let datatype = match s.eat_keyword(name) {
        Some(d) => d,
        None => return None,
    };
    let length = match opt_paren_number(s) {
        Some(l) => l,
        None => Json::num_lit(dflt),
    };
    Some(typed_value(id, datatype, key, length))
}

fn bit(s: &mut Stream) -> (r: Option<Json>)
    ensures
        frame(*old(s), *final(s)),
        reached(*old(s), *final(s), keyword_paren_reach(old(s).spec_tokens(), old(s).spec_pos(), is_keyword_at(old(s).spec_tokens(), old(s).spec_pos(), "BIT"@))),
        r is Some ==> final(s).spec_pos() > old(s).spec_pos(),
        match keyword_number_at(old(s).spec_tokens(), old(s).spec_pos(), "BIT"@, "O_BIT_DATATYPE"@, "length"@, "1"@) {
            Some((e, v)) => r matches Some(x) && x@ == v && final(s).spec_pos() == e,
            None => r is None,
        },
{
    keyword_number(s, "BIT", "O_BIT_DATATYPE", "length", "1")
}

/// Parse a type named by one of `words` alone.
fn simple_named(s: &mut Stream, words: &[&str], id: &str) -> (r: Option<Json>)
    ensures
        frame(*old(s), *final(s)),
        reached(*old(s), *final(s), one_word_reach(old(s).spec_tokens(), old(s).spec_pos(), words@)),
        r is Some ==> final(s).spec_pos() > old(s).spec_pos(),
        match simple_type_at(old(s).spec_tokens(), old(s).spec_pos(), words@, id@) {
            Some((e, v)) => r matches Some(x) && x@ == v && final(s).spec_pos() == e,
            None => r is None,
        },
{
    match one_of_keywords(s, words) {
        Some(d) => Some(simple_type(id, d)),
        None => None,
    }
}

fn boolean(s: &mut Stream) -> (r: Option<Json>)
    ensures
        frame(*old(s), *final(s)),
        reached(*old(s), *final(s), one_word_reach(old(s).spec_tokens(), old(s).spec_pos(), boolean_words())),
        r is Some ==> final(s).spec_pos() > old(s).spec_pos(),
        match simple_type_at(old(s).spec_tokens(), old(s).spec_pos(), boolean_words(), "O_BOOLEAN_DATATYPE"@) {
            Some((e, v)) => r matches Some(x) && x@ == v && final(s).spec_pos() == e,
            None => r is None,
        },
{
    let words: [&str; 2] = ["BOOLEAN", "BOOL"];
    assert(words@ =~= boolean_words());
    simple_named(s, &words, "O_BOOLEAN_DATATYPE")
}

fn datetime(s: &mut Stream) -> (r: Option<Json>)
    ensures
        frame(*old(s), *final(s)),
        reached(*old(s), *final(s), keyword_paren_reach(old(s).spec_tokens(), old(s).spec_pos(), one_of_at(old(s).spec_tokens(), old(s).spec_pos(), datetime_words()))),
        r is Some ==> final(s).spec_pos() > old(s).spec_pos(),
        match datetime_at(old(s).spec_tokens(), old(s).spec_pos()) {
            Some((e, v)) => r matches Some(x) && x@ == v && final(s).spec_pos() == e,
            None => r is None,
        },
{
    let words: [&str; 4] = ["DATE", "TIME", "DATETIME", "TIMESTAMP"];
    assert(words@ =~= datetime_words());
    let datatype = match one_of_keywords(s, &words) {
        Some(d) => d,
        None => return None,
    };
    let fractional = match opt_paren_number(s) {
        Some(f) => f,
        None => Json::num_lit("0"),
    };
    Some(typed_value("O_DATETIME_DATATYPE", datatype, "fractional", fractional))
}

fn year(s: &mut Stream) -> (r: Option<Json>)
    ensures
        frame(*old(s), *final(s)),
        reached(*old(s), *final(s), keyword_paren_reach(old(s).spec_tokens(), old(s).spec_pos(), is_keyword_at(old(s).spec_tokens(), old(s).spec_pos(), "YEAR"@))),
        r is Some ==> final(s).spec_pos() > old(s).spec_pos(),
        match keyword_number_at(old(s).spec_tokens(), old(s).spec_pos(), "YEAR"@, "O_YEAR_DATATYPE"@, "digits"@, "4"@) {
            Some((e, v)) => r matches Some(x) && x@ == v && final(s).spec_pos() == e,
            None => r is None,
        },
{
    keyword_number(s, "YEAR", "O_YEAR_DATATYPE", "digits", "4")
}

/// Parse `VARCHAR (n) [BINARY]`.
fn varchar(s: &mut Stream) -> (r: Option<Json>)
    ensures
        frame(*old(s), *final(s)),
        reached(*old(s), *final(s), varchar_reach(old(s).spec_tokens(), old(s).spec_pos())),
        r is Some ==> final(s).spec_pos() > old(s).spec_pos(),
        r is None ==> final(s).spec_pos() == old(s).spec_pos(),
        match varchar_at(old(s).spec_tokens(), old(s).spec_pos()) {
            Some((e, v)) => r matches Some(x) && x@ == v && final(s).spec_pos() == e,
            None => r is None,
        },
{
    let ghost ts = old(s).spec_tokens();
    let ghost p = old(s).spec_pos();
    let save = s.pos();
    let datatype = match s.eat_keyword("VARCHAR") {
        Some(d) => d,
        None => return None,
    };
    let length = match opt_paren_number(s) {
        Some(l) => l,
        None => {
            s.set(save);
            return None;
        },
    };
    let ghost dv = datatype@;
    let ghost lv = length@;
    assert(paren_number_at(ts, p + 1).1 is Some);
    assert(lv == JsonV::Num(paren_number_at(ts, p + 1).1->Some_0));
    assert(dv == ts[p].value);
    let ghost base = seq![("datatype"@, JsonV::Str(ts[p].value)), ("length"@, lv)];
    let mut def: Vec<(String, Json)> = Vec::new();
    put(&mut def, "datatype", Json::Str(datatype));
    put(&mut def, "length", length);
    let bsave = s.pos();
    assert(bsave == paren_number_at(ts, p + 1).0);
    assert(is_keyword_at(ts, p, "VARCHAR"@));
    s.ws0();
    let ghost b = s.spec_pos();
    assert(b == ws_end(ts, paren_number_at(ts, p + 1).0));
    if s.eat_keyword("BINARY").is_some() {
        put(&mut def, "binaryCollation", Json::Bool(true));
        assert(crate::json::view_obj(def@) =~= base.push(("binaryCollation"@, JsonV::Bool(true))));
        Some(node("O_VARIABLE_STRING_DATATYPE", Json::Obj(def)))
    } else {
        assert(!is_keyword_at(ts, b, "BINARY"@));
        s.set(bsave);
        assert(crate::json::view_obj(def@) =~= base);
        Some(node("O_VARIABLE_STRING_DATATYPE", Json::Obj(def)))
    }
}

/// Parse `VARBINARY (n)`.
fn varbinary(s: &mut Stream) -> (r: Option<Json>)
    ensures
        frame(*old(s), *final(s)),
        reached(*old(s), *final(s), keyword_paren_reach(old(s).spec_tokens(), old(s).spec_pos(), is_keyword_at(old(s).spec_tokens(), old(s).spec_pos(), "VARBINARY"@))),
        r is Some ==> final(s).spec_pos() > old(s).spec_pos(),
        r is None ==> final(s).spec_pos() == old(s).spec_pos(),
        match varbinary_at(old(s).spec_tokens(), old(s).spec_pos()) {
            Some((e, v)) => r matches Some(x) && x@ == v && final(s).spec_pos() == e,
            None => r is None,
        },
{
    let save = s.pos();
    let datatype = match s.eat_keyword("VARBINARY") {
        Some(d) => d,
        None => return None,
    };
    match opt_paren_number(s) {
        Some(length) => Some(typed_value("O_VARIABLE_STRING_DATATYPE", datatype, "length", length)),
        None => {
            s.set(save);
            None
        },
    }
}

/// Parse `NCHAR | NATIONAL CHAR | NVARCHAR | CHARACTER | CHAR | BINARY`,
/// with an optional `(n)`.
fn char_string(s: &mut Stream) -> (r: Option<Json>)
    ensures
        frame(*old(s), *final(s)),
        reached(*old(s), *final(s), char_string_reach(old(s).spec_tokens(), old(s).spec_pos())),
        r is Some ==> final(s).spec_pos() > old(s).spec_pos(),
        r is None ==> final(s).spec_pos() == old(s).spec_pos(),
        match char_string_at(old(s).spec_tokens(), old(s).spec_pos()) {
            Some((e, v)) => r matches Some(x) && x@ == v && final(s).spec_pos() == e,
            None => r is None,
        },
{
    let datatype = match variable_string_name(s) {
        Some(d) => d,
        None => return None,
    };
    let length = match opt_paren_number(s) {
        Some(l) => l,
        None => Json::num_lit("1"),
    };
    Some(typed_value("O_VARIABLE_STRING_DATATYPE", datatype, "length", length))
}

fn variable_string(s: &mut Stream) -> (r: Option<Json>)
    ensures
        frame(*old(s), *final(s)),
        reached(*old(s), *final(s), variable_string_reach(old(s).spec_tokens(), old(s).spec_pos())),
        r is Some ==> final(s).spec_pos() > old(s).spec_pos(),
        r is None ==> final(s).spec_pos() == old(s).spec_pos(),
        match variable_string_at(old(s).spec_tokens(), old(s).spec_pos()) {
            Some((e, v)) => r matches Some(x) && x@ == v && final(s).spec_pos() == e,
            None => r is None,
        },
{
    if let Some(v) = varchar(s) {
        return Some(v);
    }
    if let Some(v) = varbinary(s) {
        return Some(v);
    }
    char_string(s)
}

/// Parse the leading name of a fixed-length variable string type.
pub fn variable_string_name(s: &mut Stream) -> (r: Option<String>)
    ensures
        frame(*old(s), *final(s)),
        reached(*old(s), *final(s), variable_string_name_reach(old(s).spec_tokens(), old(s).spec_pos())),
        r is Some ==> final(s).spec_pos() > old(s).spec_pos(),
        r is None ==> final(s).spec_pos() == old(s).spec_pos(),
        match variable_string_name_at(old(s).spec_tokens(), old(s).spec_pos()) {
            Some((e, v)) => r matches Some(x) && x@ == v && final(s).spec_pos() == e,
            None => r is None,
        },
{
    if let Some(v) = s.eat_keyword("NCHAR") {
        return Some(v);
    }
    // NATIONAL CHAR -> "NATIONAL CHAR".
    let save = s.pos();
    if let Some(national) = s.eat_keyword("NATIONAL") {
        if s.ws1() {
            if let Some(ch) = s.eat_keyword("CHAR") {
                return Some(concat3(national.as_str(), " ", ch.as_str()));
            }
        }
        s.set(save);
    }
    if let Some(v) = s.eat_keyword("NVARCHAR") {
        return Some(v);
    }
    if let Some(v) = s.eat_keyword("CHARACTER") {
        return Some(v);
    }
    if let Some(v) = s.eat_keyword("CHAR") {
        return Some(v);
    }
    if let Some(v) = s.eat_keyword("BINARY") {
        return Some(v);
    }
    None
}

fn fixed_string(s: &mut Stream) -> (r: Option<Json>)
    ensures
        frame(*old(s), *final(s)),
        reached(*old(s), *final(s), fixed_string_reach(old(s).spec_tokens(), old(s).spec_pos())),
        r is Some ==> final(s).spec_pos() > old(s).spec_pos(),
        match fixed_string_at(old(s).spec_tokens(), old(s).spec_pos()) {
            Some((e, v)) => r matches Some(x) && x@ == v && final(s).spec_pos() == e,
            None => r is None,
        },
{
    // BLOB | TEXT with optional (n), default 65535.
    let words: [&str; 2] = ["BLOB", "TEXT"];
    assert(words@ =~= seq!["BLOB", "TEXT"]);
    if let Some(datatype) = one_of_keywords(s, &words) {
        let length = match opt_paren_number(s) {
            Some(l) => l,
            None => Json::num_lit("65535"),
        };
        return Some(typed_value("O_FIXED_STRING_DATATYPE", datatype, "length", length));
    }
    let names: [&str; 6] = ["TINYBLOB", "MEDIUMBLOB", "LONGBLOB", "TINYTEXT", "MEDIUMTEXT", "LONGTEXT"];
    let lens: [&str; 6] = ["255", "16777215", "4294967295", "255", "16777215", "4294967295"];
    assert(names@ =~= sized_string_words());
    assert(lens@ =~= sized_string_lengths());
    let mut i: usize = 0;
    while i < 6
        invariant
            0 <= i <= 6,
            names@ == sized_string_words(),
            lens@ == sized_string_lengths(),
            s.spec_tokens() == old(s).spec_tokens(),
            s.spec_pos() == old(s).spec_pos(),
            s.spec_furthest() == old(s).spec_furthest(),
            s.spec_mark() >= old(s).spec_mark(),
            word_of(s.spec_tokens(), s.spec_pos(), seq!["BLOB", "TEXT"]) is None,
            first_keyword_from(s.spec_tokens(), s.spec_pos(), sized_string_words(), 0) == first_keyword_from(
                s.spec_tokens(),
                s.spec_pos(),
                sized_string_words(),
                i as int,
            ),
        decreases 6 - i,
    {
        if let Some(datatype) = s.eat_keyword(names[i]) {
            assert(names@[i as int] == sized_string_words()[i as int]);
            assert(lens@[i as int] == sized_string_lengths()[i as int]);
            assert(first_keyword_from(s.spec_tokens(), old(s).spec_pos(), sized_string_words(), i as int) == Some(
                i as int,
            ));
            return Some(
                typed_value("O_FIXED_STRING_DATATYPE", datatype, "length", Json::num_lit(lens[i])),
            );
        }
        i += 1;
    }
    None
}

/// Parse a comma-separated list of single-quoted strings inside parens.
pub fn squote_list(s: &mut Stream) -> (r: Option<Vec<String>>)
    ensures
        frame(*old(s), *final(s)),
        reached(*old(s), *final(s), squote_list_reach(old(s).spec_tokens(), old(s).spec_pos())),
        r is None ==> final(s).spec_pos() == old(s).spec_pos(),
        match squote_list_at(old(s).spec_tokens(), old(s).spec_pos()) {
            Some((e, vals)) => r matches Some(x) && x@.map_values(|v: String| v@) == vals
                && final(s).spec_pos() == e,
            None => r is None,
        },
{
    let ghost ts = s.spec_tokens();
    let save = s.pos();
    s.ws0();
    if s.eat(&TokenKind::LParens).is_none() {
        s.set(save);
        return None;
    }
    s.ws0();
    let first = match s.eat(&TokenKind::SQuoteString) {
        Some(v) => v,
        None => {
            s.set(save);
            return None;
        },
    };
    let ghost target = squote_rest(ts, s.spec_pos(), seq![first@]);
    let ghost g = mx(s.spec_furthest(), squote_rest_reach(ts, s.spec_pos()));
    let mut values: Vec<String> = Vec::new();
    values.push(first);
    assert(values@.map_values(|v: String| v@) =~= seq![first@]);
    loop
        invariant
            frame(*old(s), *s),
            s.spec_tokens() == ts,
            save == old(s).spec_pos(),
            s.spec_pos() > save,
            squote_rest(ts, s.spec_pos(), values@.map_values(|v: String| v@)) == target,
            mx(s.spec_furthest(), squote_rest_reach(ts, s.spec_pos())) == g,
        ensures
            target == (s.spec_pos(), values@.map_values(|v: String| v@)),
            s.spec_furthest() == g,
        decreases s.spec_tokens().len() - s.spec_pos(),
    {
        let item_save = s.pos();
        s.ws0();
        if s.eat(&TokenKind::Comma).is_none() {
            s.set(item_save);
            break;
        }
        s.ws0();
        match s.eat(&TokenKind::SQuoteString) {
            Some(v) => {
                let ghost old_vals = values@;
                values.push(v);
                assert(values@.map_values(|v: String| v@) =~= old_vals.map_values(|v: String| v@).push(v@));
            },
            None => {
                s.set(item_save);
                break;
            },
        }
    }
    s.ws0();
    if s.eat(&TokenKind::RParens).is_none() {
        s.set(save);
        return None;
    }
    Some(values)
}

/// Parse an `ENUM` or `SET` type.
fn value_list_type(s: &mut Stream, name: &str, id: &str) -> (r: Option<Json>)
    ensures
        frame(*old(s), *final(s)),
        reached(*old(s), *final(s), value_list_reach(old(s).spec_tokens(), old(s).spec_pos(), name@)),
        r is Some ==> final(s).spec_pos() > old(s).spec_pos(),
        match value_list_type_at(old(s).spec_tokens(), old(s).spec_pos(), name@, id@) {
            Some((e, v)) => r matches Some(x) && x@ == v && final(s).spec_pos() == e,
            None => r is None,
        },
{
    let save = s.pos();
    let datatype = match s.eat_keyword(name) {
        Some(d) => d,
        None => return None,
    };
    let values = match squote_list(s) {
        Some(v) => v,
        None => {
            s.set(save);
            return None;
        },
    };
    let arr = str_array(&values);
    assert(arr@ =~= str_arr_v(values@.map_values(|v: String| v@))) by {
        assert(arr@->Arr_0 =~= values@.map_values(|v: String| v@).map_values(|x: Seq<char>| JsonV::Str(x)));
    }
    Some(typed_value(id, datatype, "values", arr))
}

fn enum_type(s: &mut Stream) -> (r: Option<Json>)
    ensures
        frame(*old(s), *final(s)),
        reached(*old(s), *final(s), value_list_reach(old(s).spec_tokens(), old(s).spec_pos(), "ENUM"@)),
        r is Some ==> final(s).spec_pos() > old(s).spec_pos(),
        match value_list_type_at(old(s).spec_tokens(), old(s).spec_pos(), "ENUM"@, "O_ENUM_DATATYPE"@) {
            Some((e, v)) => r matches Some(x) && x@ == v && final(s).spec_pos() == e,
            None => r is None,
        },
{
    value_list_type(s, "ENUM", "O_ENUM_DATATYPE")
}

fn set_type(s: &mut Stream) -> (r: Option<Json>)
    ensures
        frame(*old(s), *final(s)),
        reached(*old(s), *final(s), value_list_reach(old(s).spec_tokens(), old(s).spec_pos(), "SET"@)),
        r is Some ==> final(s).spec_pos() > old(s).spec_pos(),
        match value_list_type_at(old(s).spec_tokens(), old(s).spec_pos(), "SET"@, "O_SET_DATATYPE"@) {
            Some((e, v)) => r matches Some(x) && x@ == v && final(s).spec_pos() == e,
            None => r is None,
        },
{
    value_list_type(s, "SET", "O_SET_DATATYPE")
}

fn uuid(s: &mut Stream) -> (r: Option<Json>)
    ensures
        frame(*old(s), *final(s)),
        reached(*old(s), *final(s), one_word_reach(old(s).spec_tokens(), old(s).spec_pos(), seq!["UUID", "UNIQUEIDENTIFIER"])),
        r is Some ==> final(s).spec_pos() > old(s).spec_pos(),
        match simple_type_at(old(s).spec_tokens(), old(s).spec_pos(), seq!["UUID", "UNIQUEIDENTIFIER"], "O_UUID_DATATYPE"@) {
            Some((e, v)) => r matches Some(x) && x@ == v && final(s).spec_pos() == e,
            None => r is None,
        },
{
    let words: [&str; 2] = ["UUID", "UNIQUEIDENTIFIER"];
    assert(words@ =~= seq!["UUID", "UNIQUEIDENTIFIER"]);
    simple_named(s, &words, "O_UUID_DATATYPE")
}

fn spatial(s: &mut Stream) -> (r: Option<Json>)
    ensures
        frame(*old(s), *final(s)),
        reached(*old(s), *final(s), one_word_reach(old(s).spec_tokens(), old(s).spec_pos(), spatial_words())),
        r is Some ==> final(s).spec_pos() > old(s).spec_pos(),
        match simple_type_at(old(s).spec_tokens(), old(s).spec_pos(), spatial_words(), "O_SPATIAL_DATATYPE"@) {
            Some((e, v)) => r matches Some(x) && x@ == v && final(s).spec_pos() == e,
            None => r is None,
        },
{
    let words: [&str; 8] = [
        "GEOMETRY",
        "POINT",
        "LINESTRING",
        "POLYGON",
        "MULTIPOINT",
        "MULTILINESTRING",
        "MULTIPOLYGON",
        "GEOMETRYCOLLECTION",
    ];
    assert(words@ =~= spatial_words());
    simple_named(s, &words, "O_SPATIAL_DATATYPE")
}

fn json_type(s: &mut Stream) -> (r: Option<Json>)
    ensures
        frame(*old(s), *final(s)),
        reached(*old(s), *final(s), one_word_reach(old(s).spec_tokens(), old(s).spec_pos(), seq!["JSON"])),
        r is Some ==> final(s).spec_pos() > old(s).spec_pos(),
        match simple_type_at(old(s).spec_tokens(), old(s).spec_pos(), seq!["JSON"], "O_JSON_DATATYPE"@) {
            Some((e, v)) => r matches Some(x) && x@ == v && final(s).spec_pos() == e,
            None => r is None,
        },
{
    let words: [&str; 1] = ["JSON"];
    assert(words@ =~= seq!["JSON"]);
    simple_named(s, &words, "O_JSON_DATATYPE")
}

} // verus!
