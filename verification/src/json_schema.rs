//! JSON Schema draft-07 formatter: one schema document per compact table.

use vstd::prelude::*;

use crate::compact::database::{arr_at, arr_of};
use crate::compact::models::{insert_all, str_or_empty, Fields};
use crate::compact::util::{i64_text, int_text, num_as_i64, spec_num_as_i64};
use crate::json::{
    chars_of, chars_to_string, concat2, concat3, fields_get, fields_insert, fields_remove, lemma_fields_insert_get, lemma_view_arr,
    lemma_view_obj, obj_insert, obj_remove, put, str_eq, str_items, string_of, strings_of, view_arr, view_json,
    view_obj, Json, JsonV,
};
use crate::parser::JsonSchemaOptions;

verus! {

/// The JSON Schema type of a datatype.
pub open spec fn spec_filter_type(datatype: Seq<char>) -> Seq<char> {
    if datatype == "tinyint"@ || datatype == "smallint"@ || datatype == "mediumint"@ || datatype == "int"@
        || datatype == "bigint"@ {
        "integer"@
    } else if datatype == "decimal"@ || datatype == "float"@ || datatype == "double"@ {
        "number"@
    } else if datatype == "boolean"@ {
        "boolean"@
    } else {
        "string"@
    }
}

/// Maps a datatype name to a JSON Schema type name.
pub fn filter_type(datatype: &str) -> (r: &'static str)
    ensures
        r@ == spec_filter_type(datatype@),
{
    if str_eq(datatype, "tinyint") || str_eq(datatype, "smallint") || str_eq(datatype, "mediumint") || str_eq(
        datatype,
        "int",
    ) || str_eq(datatype, "bigint") {
        "integer"
    } else if str_eq(datatype, "decimal") || str_eq(datatype, "float") || str_eq(datatype, "double") {
        "number"
    } else if str_eq(datatype, "boolean") {
        "boolean"
    } else {
        "string"
    }
}

/// `n` nines.
pub open spec fn nines(n: int) -> Seq<char> {
    Seq::new(n as nat, |i: int| '9')
}

/// The largest value of a decimal type with `digits` digits of which
/// `decimals` follow the point, as decimal text: the integer part and the
/// fraction made of nines, `0` when both are empty.
pub open spec fn decimal_max_text(digits: int, decimals: int) -> Seq<char> {
    let whole = if digits - decimals > 0 {
        digits - decimals
    } else {
        0
    };
    let frac = if decimals > 0 {
        decimals
    } else {
        0
    };
    if whole == 0 && frac == 0 {
        seq!['0']
    } else if frac == 0 {
        nines(whole)
    } else if whole == 0 {
        seq!['0', '.'] + nines(frac)
    } else {
        nines(whole) + seq!['.'] + nines(frac)
    }
}

/// The negated value of a number's text: zero stays zero.
pub open spec fn neg_text(t: Seq<char>) -> Seq<char> {
    if t == seq!['0'] {
        t
    } else {
        seq!['-'] + t
    }
}

/// Whether a character has a meaning in a regular expression.
pub open spec fn is_regex_meta(c: char) -> bool {
    c == '.' || c == '*' || c == '+' || c == '?' || c == '^' || c == '$' || c == '{' || c == '}' || c == '('
        || c == ')' || c == '|' || c == '[' || c == ']' || c == '\\'
}

/// A text with every regular-expression metacharacter escaped by a
/// backslash.
pub open spec fn escape_regex(s: Seq<char>) -> Seq<char>
    decreases s.len(),
{
    if s.len() == 0 {
        Seq::empty()
    } else if is_regex_meta(s.last()) {
        escape_regex(s.drop_last()) + seq!['\\', s.last()]
    } else {
        escape_regex(s.drop_last()).push(s.last())
    }
}

/// The texts joined by `|`.
pub open spec fn join_bar(vals: Seq<Seq<char>>) -> Seq<char>
    decreases vals.len(),
{
    if vals.len() == 0 {
        Seq::empty()
    } else if vals.len() == 1 {
        vals[0]
    } else {
        join_bar(vals.drop_last()) + seq!['|'] + vals.last()
    }
}

/// The value of an integer field, zero when it is not an integer.
pub open spec fn int_field(j: JsonV, key: Seq<char>) -> int {
    match j.get(key) {
        Some(JsonV::Num(t)) => match spec_num_as_i64(t) {
            Some(v) => v,
            None => 0,
        },
        _ => 0,
    }
}

/// The range of an integer type, as texts: signed minimum and maximum, then
/// unsigned minimum and maximum. The `bigint` range is the range of integers
/// a double holds exactly.
pub open spec fn int_range(datatype: Seq<char>) -> Option<(Seq<char>, Seq<char>, Seq<char>)> {
    if datatype == "tinyint"@ {
        Some(("-128"@, "127"@, "255"@))
    } else if datatype == "smallint"@ {
        Some(("-32768"@, "32767"@, "65535"@))
    } else if datatype == "mediumint"@ {
        Some(("-8388608"@, "8388607"@, "16777215"@))
    } else if datatype == "int"@ {
        Some(("-2147483648"@, "2147483647"@, "4294967295"@))
    } else if datatype == "bigint"@ {
        Some(("-9007199254740991"@, "9007199254740991"@, "9007199254740991"@))
    } else {
        None
    }
}

/// The pattern that a value of a `SET` type matches: one or more of its
/// values, separated by commas, each value taken literally.
pub open spec fn set_pattern(vals: Seq<Seq<char>>) -> Seq<char> {
    let opts = join_bar(vals.map_values(|v: Seq<char>| escape_regex(v)));
    "^("@ + opts + ")(,("@ + opts + "))*$"@
}

/// The type schema of a datatype.
pub open spec fn spec_datatype_schema(tf: JsonV, datatype: Seq<char>, unsigned: bool) -> Fields {
    let f0 = seq![("type"@, JsonV::Str(spec_filter_type(datatype)))];
    match int_range(datatype) {
        Some((smin, smax, umax)) => if unsigned {
            f0.push(("minimum"@, JsonV::Num("0"@))).push(("maximum"@, JsonV::Num(umax)))
        } else {
            f0.push(("minimum"@, JsonV::Num(smin))).push(("maximum"@, JsonV::Num(smax)))
        },
        None => if datatype == "decimal"@ || datatype == "float"@ {
            let max = decimal_max_text(int_field(tf, "digits"@), int_field(tf, "decimals"@));
            f0.push(("maximum"@, JsonV::Num(max))).push(
                (
                    "minimum"@,
                    JsonV::Num(
                        if unsigned {
                            "0"@
                        } else {
                            neg_text(max)
                        },
                    ),
                ),
            )
        } else if datatype == "date"@ {
            f0.push(("format"@, JsonV::Str("date"@)))
        } else if datatype == "time"@ {
            f0.push(("format"@, JsonV::Str("time"@)))
        } else if datatype == "datetime"@ {
            f0.push(("format"@, JsonV::Str("date-time"@)))
        } else if datatype == "year"@ {
            f0.push(("pattern"@, JsonV::Str("\\d{1,"@ + int_text(int_field(tf, "digits"@)) + "}"@)))
        } else if datatype == "char"@ || datatype == "binary"@ || datatype == "varchar"@ || datatype == "nvarchar"@
            || datatype == "varbinary"@ || datatype == "text"@ {
            match tf.get("length"@) {
                Some(len) => f0.push(("maxLength"@, len)),
                None => f0,
            }
        } else if datatype == "enum"@ {
            match tf.get("values"@) {
                Some(v) => f0.push(("enum"@, v)),
                None => f0,
            }
        } else if datatype == "set"@ {
            f0.push(("pattern"@, JsonV::Str(set_pattern(str_items(arr_at(tf, "values"@))))))
        } else if datatype == "uuid"@ {
            f0.push(("pattern"@, JsonV::Str("^[a-f\\d]{8}-([a-f\\d]{4}-){3}[a-f\\d]{12}$"@)))
        } else {
            f0
        },
    }
}

/// The field `key` of the column's options, if any.
pub open spec fn option_of(col: JsonV, key: Seq<char>) -> Option<JsonV> {
    match col.get("options"@) {
        Some(o) => o.get(key),
        None => None,
    }
}

/// The default a column schema keeps: null, or a non-empty string.
pub open spec fn kept_default(col: JsonV) -> Option<JsonV> {
    match option_of(col, "default"@) {
        Some(JsonV::Null) => Some(JsonV::Null),
        Some(JsonV::Str(s)) => if s.len() > 0 {
            Some(JsonV::Str(s))
        } else {
            None
        },
        _ => None,
    }
}

/// The comment a column schema keeps: a non-empty string.
pub open spec fn kept_comment(col: JsonV) -> Option<Seq<char>> {
    match option_of(col, "comment"@) {
        Some(JsonV::Str(s)) => if s.len() > 0 {
            Some(s)
        } else {
            None
        },
        _ => None,
    }
}

/// The schema of a compact column. A primary key column is marked in a
/// comment, and an integer or number one has minimum 1; the column comment
/// becomes the description; a `uuid` column has no default.
pub open spec fn spec_column_schema(col: JsonV, is_pk: bool) -> JsonV {
    let tf = match col.get("type"@) {
        Some(t) => t,
        None => JsonV::Null,
    };
    let datatype = str_or_empty(tf.get_str("datatype"@));
    let unsigned = option_of(col, "unsigned"@) == Some(JsonV::Bool(true));
    let ts0 = spec_datatype_schema(tf, datatype, unsigned);
    let is_numeric = fields_get(ts0, "type"@) == Some(JsonV::Str("integer"@)) || fields_get(ts0, "type"@) == Some(
        JsonV::Str("number"@),
    );
    let ts = if is_pk && is_numeric {
        fields_insert(ts0, "minimum"@, JsonV::Num("1"@))
    } else {
        ts0
    };
    let j0 = if is_pk {
        seq![("$comment"@, JsonV::Str("primary key"@))]
    } else {
        Seq::empty()
    };
    let j1 = match kept_comment(col) {
        Some(c) => j0.push(("description"@, JsonV::Str(c))),
        None => j0,
    };
    let j2 = insert_all(j1, ts);
    let j3 = match kept_default(col) {
        Some(d) => fields_insert(j2, "default"@, d),
        None => j2,
    };
    JsonV::Obj(
        if datatype == "uuid"@ {
            fields_remove(j3, "default"@)
        } else {
            j3
        },
    )
}

/// The names of the primary key columns of a compact table.
pub open spec fn pk_names(table: JsonV) -> Seq<Seq<char>> {
    match table.get("primaryKey"@) {
        Some(pk) => column_names(arr_at(pk, "columns"@)),
        None => Seq::empty(),
    }
}

/// The `column` strings of a list of index columns.
pub open spec fn column_names(a: Seq<JsonV>) -> Seq<Seq<char>>
    decreases a.len(),
{
    if a.len() == 0 {
        Seq::empty()
    } else {
        match a.last().get_str("column"@) {
            Some(n) => column_names(a.drop_last()).push(n),
            None => column_names(a.drop_last()),
        }
    }
}

/// The name of a compact column, or the empty text.
pub open spec fn col_name(col: JsonV) -> Seq<char> {
    str_or_empty(col.get_str("name"@))
}

/// Whether a column's options say it is not nullable.
pub open spec fn not_nullable(col: JsonV) -> bool {
    option_of(col, "nullable"@) == Some(JsonV::Bool(false))
}

/// The names of the columns that are not nullable, in order.
pub open spec fn required_of(cols: Seq<JsonV>) -> Seq<JsonV>
    decreases cols.len(),
{
    if cols.len() == 0 {
        Seq::empty()
    } else if not_nullable(cols.last()) {
        required_of(cols.drop_last()).push(JsonV::Str(col_name(cols.last())))
    } else {
        required_of(cols.drop_last())
    }
}

/// The column schemas by column name.
pub open spec fn definitions_of(cols: Seq<JsonV>, pk: Seq<Seq<char>>) -> Fields
    decreases cols.len(),
{
    if cols.len() == 0 {
        Seq::empty()
    } else {
        let c = cols.last();
        fields_insert(
            definitions_of(cols.drop_last(), pk),
            col_name(c),
            spec_column_schema(c, pk.contains(col_name(c))),
        )
    }
}

/// References to the column schemas by column name.
pub open spec fn properties_of(cols: Seq<JsonV>) -> Fields
    decreases cols.len(),
{
    if cols.len() == 0 {
        Seq::empty()
    } else {
        let n = col_name(cols.last());
        fields_insert(
            properties_of(cols.drop_last()),
            n,
            JsonV::Obj(seq![("$ref"@, JsonV::Str("#/definitions/"@ + n))]),
        )
    }
}

/// The schema document of a compact table. With `use_ref` the column schemas
/// stand under `definitions` and `properties` refers to them; without, they
/// stand under `properties`.
pub open spec fn spec_table_schema(table: JsonV, use_ref: bool) -> JsonV {
    let name = str_or_empty(table.get_str("name"@));
    let comment = match table.get("options"@) {
        Some(o) => o.get_str("comment"@),
        None => None,
    };
    let cols = arr_at(table, "columns"@);
    let d0 = seq![
        ("$schema"@, JsonV::Str("http://json-schema.org/draft-07/schema"@)),
        ("$comment"@, JsonV::Str("JSON Schema for "@ + name + " table"@)),
        ("$id"@, JsonV::Str(name)),
        ("title"@, JsonV::Str(name)),
    ];
    let d1 = match comment {
        Some(c) => d0.push(("description"@, JsonV::Str(c))),
        None => d0,
    };
    let d2 = d1.push(("type"@, JsonV::Str("object"@))).push(("required"@, JsonV::Arr(required_of(cols))));
    let defs = JsonV::Obj(definitions_of(cols, pk_names(table)));
    JsonV::Obj(
        if use_ref {
            d2.push(("definitions"@, defs)).push(("properties"@, JsonV::Obj(properties_of(cols))))
        } else {
            d2.push(("properties"@, defs))
        },
    )
}

/// Appends the characters of a text.
fn push_str_chars(out: &mut Vec<char>, s: &str)
    ensures
        final(out)@ == old(out)@ + s@,
{
    let cs = chars_of(s);
    let mut i: usize = 0;
    while i < cs.len()
        invariant
            0 <= i <= cs.len(),
            out@ == old(out)@ + cs@.take(i as int),
        decreases cs.len() - i,
    {
        out.push(cs[i]);
        i += 1;
        assert(out@ =~= old(out)@ + cs@.take(i as int));
    }
    assert(cs@.take(cs.len() as int) =~= cs@);
}

/// Appends `n` nines.
fn push_nines(out: &mut Vec<char>, n: i128)
    requires
        n >= 0,
    ensures
        final(out)@ == old(out)@ + nines(n as int),
{
    let mut i: i128 = 0;
    while i < n
        invariant
            0 <= i <= n,
            out@ == old(out)@ + nines(i as int),
        decreases n - i,
    {
        out.push('9');
        i += 1;
        assert(out@ =~= old(out)@ + nines(i as int));
    }
}

/// The largest value of a decimal type, as decimal text.
fn decimal_maximum(digits: i64, decimals: i64) -> (r: String)
    ensures
        r@ == decimal_max_text(digits as int, decimals as int),
{
    let d: i128 = digits as i128 - decimals as i128;
    let whole: i128 = if d > 0 {
        d
    } else {
        0
    };
    let frac: i128 = if decimals > 0 {
        decimals as i128
    } else {
        0
    };
    let mut out: Vec<char> = Vec::new();
    if whole == 0 && frac == 0 {
        out.push('0');
    } else if frac == 0 {
        push_nines(&mut out, whole);
    } else if whole == 0 {
        out.push('0');
        out.push('.');
        push_nines(&mut out, frac);
    } else {
        push_nines(&mut out, whole);
        out.push('.');
        push_nines(&mut out, frac);
    }
    assert(out@ =~= decimal_max_text(digits as int, decimals as int));
    chars_to_string(out.as_slice())
}

/// The negated value of a number's text.
fn negate(t: &String) -> (r: String)
    ensures
        r@ == neg_text(t@),
{
    let cs = chars_of(t.as_str());
    if cs.len() == 1 && cs[0] == '0' {
        assert(cs@ =~= seq!['0']);
        return t.clone();
    }
    assert(cs@ != seq!['0']);
    let mut out: Vec<char> = Vec::new();
    out.push('-');
    push_str_chars(&mut out, t.as_str());
    assert(out@ =~= seq!['-'] + t@);
    chars_to_string(out.as_slice())
}

/// Escapes the regular-expression metacharacters of a text.
fn escape(s: &str) -> (r: String)
    ensures
        r@ == escape_regex(s@),
{
    let cs = chars_of(s);
    let mut out: Vec<char> = Vec::new();
    let mut i: usize = 0;
    while i < cs.len()
        invariant
            0 <= i <= cs.len(),
            out@ == escape_regex(cs@.take(i as int)),
        decreases cs.len() - i,
    {
        let c = cs[i];
        assert(cs@.take(i + 1).drop_last() =~= cs@.take(i as int));
        if c == '.' || c == '*' || c == '+' || c == '?' || c == '^' || c == '$' || c == '{' || c == '}' || c == '('
            || c == ')' || c == '|' || c == '[' || c == ']' || c == '\\' {
            out.push('\\');
            out.push(c);
        } else {
            out.push(c);
        }
        i += 1;
        assert(out@ =~= escape_regex(cs@.take(i as int)));
    }
    assert(cs@.take(cs.len() as int) =~= cs@);
    chars_to_string(out.as_slice())
}

/// The pattern for the values of a `SET` type.
fn set_pattern_of(vals: &Vec<String>) -> (r: String)
    ensures
        r@ == set_pattern(vals@.map_values(|s: String| s@)),
{
    let ghost vs = vals@.map_values(|s: String| s@);
    let mut opts: Vec<char> = Vec::new();
    let mut i: usize = 0;
    while i < vals.len()
        invariant
            0 <= i <= vals.len(),
            vs == vals@.map_values(|s: String| s@),
            opts@ == join_bar(vs.take(i as int).map_values(|v: Seq<char>| escape_regex(v))),
        decreases vals.len() - i,
    {
        let e = escape(vals[i].as_str());
        let ghost prev = vs.take(i as int).map_values(|v: Seq<char>| escape_regex(v));
        let ghost next = vs.take(i + 1).map_values(|v: Seq<char>| escape_regex(v));
        assert(next.drop_last() =~= prev);
        assert(next.last() == e@);
        if i > 0 {
            opts.push('|');
        }
        push_str_chars(&mut opts, e.as_str());
        proof {
            if i == 0 {
                assert(opts@ =~= next[0]);
            } else {
                assert(opts@ =~= join_bar(prev) + seq!['|'] + next.last());
            }
        }
        i += 1;
    }
    assert(vs.take(vals.len() as int) =~= vs);
    let o = chars_to_string(opts.as_slice());
    let a = concat3("^(", o.as_str(), ")(,(");
    concat3(a.as_str(), o.as_str(), "))*$")
}

/// The value of an integer field, zero when it is not an integer.
fn int_field_of(j: &Json, key: &str) -> (r: i64)
    ensures
        r == int_field(j@, key@),
{
    match j.get(key) {
        Some(Json::Num(t)) => match num_as_i64(t.as_str()) {
            Some(v) => v,
            None => 0,
        },
        _ => 0,
    }
}

/// The base type schema of a datatype.
fn datatype_schema(tf: &Json, datatype: &str, unsigned: bool) -> (r: Vec<(String, Json)>)
    ensures
        view_obj(r@) == spec_datatype_schema(tf@, datatype@, unsigned),
{
    let mut m: Vec<(String, Json)> = Vec::new();
    put(&mut m, "type", Json::Str(string_of(filter_type(datatype))));
    let range: Option<(&str, &str, &str)> = if str_eq(datatype, "tinyint") {
        Some(("-128", "127", "255"))
    } else if str_eq(datatype, "smallint") {
        Some(("-32768", "32767", "65535"))
    } else if str_eq(datatype, "mediumint") {
        Some(("-8388608", "8388607", "16777215"))
    } else if str_eq(datatype, "int") {
        Some(("-2147483648", "2147483647", "4294967295"))
    } else if str_eq(datatype, "bigint") {
        Some(("-9007199254740991", "9007199254740991", "9007199254740991"))
    } else {
        None
    };
    match range {
        Some((smin, smax, umax)) => {
            if unsigned {
                put(&mut m, "minimum", Json::num_lit("0"));
                put(&mut m, "maximum", Json::num_lit(umax));
            } else {
                put(&mut m, "minimum", Json::num_lit(smin));
                put(&mut m, "maximum", Json::num_lit(smax));
            }
        },
        None => {
            if str_eq(datatype, "decimal") || str_eq(datatype, "float") {
                let max = decimal_maximum(int_field_of(tf, "digits"), int_field_of(tf, "decimals"));
                let min = if unsigned {
                    string_of("0")
                } else {
                    negate(&max)
                };
                put(&mut m, "maximum", Json::Num(max));
                put(&mut m, "minimum", Json::Num(min));
            } else if str_eq(datatype, "date") {
                put(&mut m, "format", Json::str_lit("date"));
            } else if str_eq(datatype, "time") {
                put(&mut m, "format", Json::str_lit("time"));
            } else if str_eq(datatype, "datetime") {
                put(&mut m, "format", Json::str_lit("date-time"));
            } else if str_eq(datatype, "year") {
                let d = i64_text(int_field_of(tf, "digits"));
                put(&mut m, "pattern", Json::Str(concat3("\\d{1,", d.as_str(), "}")));
            } else if str_eq(datatype, "char") || str_eq(datatype, "binary") || str_eq(datatype, "varchar")
                || str_eq(datatype, "nvarchar") || str_eq(datatype, "varbinary") || str_eq(datatype, "text") {
                match tf.get("length") {
                    Some(len) => put(&mut m, "maxLength", len.deep_clone()),
                    None => {},
                }
            } else if str_eq(datatype, "enum") {
                match tf.get("values") {
                    Some(v) => put(&mut m, "enum", v.deep_clone()),
                    None => {},
                }
            } else if str_eq(datatype, "set") {
                let empty: Vec<Json> = Vec::new();
                let vals = strings_of(arr_of(tf, "values", &empty));
                put(&mut m, "pattern", Json::Str(set_pattern_of(&vals)));
            } else if str_eq(datatype, "uuid") {
                put(&mut m, "pattern", Json::str_lit("^[a-f\\d]{8}-([a-f\\d]{4}-){3}[a-f\\d]{12}$"));
            }
        },
    }
    proof {
        assert(view_obj(m@) =~= spec_datatype_schema(tf@, datatype@, unsigned));
    }
    m
}


/// The field `key` of a column's options.
fn option_ref<'a>(col: &'a Json, key: &str) -> (r: Option<&'a Json>)
    ensures
        match r {
            Some(v) => option_of(col@, key@) == Some(v@),
            None => option_of(col@, key@) is None,
        },
{
    match col.get("options") {
        Some(o) => o.get(key),
        None => None,
    }
}

/// The schema of a compact column.
pub fn column_to_schema(col: &Json, is_primary_key: bool) -> (r: Json)
    ensures
        r@ == spec_column_schema(col@, is_primary_key),
{
    let null = Json::Null;
    let tf = at_or_null(col, "type", &null);
    let datatype = crate::compact::models::get_str_or_empty(tf, "datatype");
    let unsigned = match option_ref(col, "unsigned") {
        Some(Json::Bool(b)) => *b,
        _ => false,
    };
    let mut ts = datatype_schema(tf, datatype.as_str(), unsigned);
    let is_numeric = match crate::compact::models::field_ref(&ts, "type") {
        Some(Json::Str(t)) => str_eq(t.as_str(), "integer") || str_eq(t.as_str(), "number"),
        _ => false,
    };
    if is_primary_key && is_numeric {
        obj_insert(&mut ts, "minimum", Json::num_lit("1"));
    }
    let mut j: Vec<(String, Json)> = Vec::new();
    if is_primary_key {
        put(&mut j, "$comment", Json::str_lit("primary key"));
    }
    match option_ref(col, "comment") {
        Some(Json::Str(c)) => if c.as_str().unicode_len() > 0 {
            put(&mut j, "description", Json::Str(c.clone()));
        },
        _ => {},
    }
    let ghost j1 = view_obj(j@);
    let mut i: usize = 0;
    proof {
        lemma_view_obj(ts@);
    }
    while i < ts.len()
        invariant
            0 <= i <= ts.len(),
            view_obj(ts@).len() == ts@.len(),
            forall|k: int| 0 <= k < ts@.len() ==> #[trigger] view_obj(ts@)[k] == (ts@[k].0@, view_json(ts@[k].1)),
            view_obj(j@) == insert_all(j1, view_obj(ts@).take(i as int)),
        decreases ts.len() - i,
    {
        assert(view_obj(ts@).take(i + 1).drop_last() =~= view_obj(ts@).take(i as int));
        let v = ts[i].1.deep_clone();
        obj_insert(&mut j, ts[i].0.as_str(), v);
        i += 1;
    }
    assert(view_obj(ts@).take(ts.len() as int) =~= view_obj(ts@));
    match option_ref(col, "default") {
        Some(Json::Null) => obj_insert(&mut j, "default", Json::Null),
        Some(Json::Str(s)) => if s.as_str().unicode_len() > 0 {
            obj_insert(&mut j, "default", Json::Str(s.clone()));
        },
        _ => {},
    }
    if str_eq(datatype.as_str(), "uuid") {
        obj_remove(&mut j, "default");
    }
    Json::Obj(j)
}

/// The value of a field, or null.
fn at_or_null<'a>(v: &'a Json, key: &str, null: &'a Json) -> (r: &'a Json)
    requires
        null@ is Null,
    ensures
        r@ == (match v@.get(key@) {
            Some(t) => t,
            None => JsonV::Null,
        }),
{
    crate::json::at(v, key, null)
}

/// The `column` strings of a list of index columns.
fn column_names_of(a: &Vec<Json>) -> (r: Vec<String>)
    ensures
        r@.map_values(|s: String| s@) == column_names(view_arr(a@)),
{
    let mut out: Vec<String> = Vec::new();
    let mut i: usize = 0;
    proof {
        lemma_view_arr(a@);
    }
    while i < a.len()
        invariant
            0 <= i <= a.len(),
            view_arr(a@).len() == a@.len(),
            forall|k: int| 0 <= k < a@.len() ==> #[trigger] view_arr(a@)[k] == view_json(a@[k]),
            out@.map_values(|s: String| s@) == column_names(view_arr(a@).take(i as int)),
        decreases a.len() - i,
    {
        let ghost pre = view_arr(a@).take(i as int);
        assert(view_arr(a@).take(i + 1).drop_last() =~= pre);
        match a[i].get_str("column") {
            Some(n) => {
                let ghost before = out@;
                out.push(n.clone());
                assert(out@.map_values(|s: String| s@) =~= before.map_values(|s: String| s@).push(n@));
            },
            None => {},
        }
        i += 1;
    }
    assert(view_arr(a@).take(a.len() as int) =~= view_arr(a@));
    out
}

/// Whether one of the strings is `s`.
fn strings_contain(v: &Vec<String>, s: &str) -> (r: bool)
    ensures
        r == v@.map_values(|x: String| x@).contains(s@),
{
    let mut i: usize = 0;
    while i < v.len()
        invariant
            0 <= i <= v.len(),
            forall|k: int| 0 <= k < i ==> #[trigger] v@[k]@ != s@,
        decreases v.len() - i,
    {
        if str_eq(v[i].as_str(), s) {
            assert(v@.map_values(|x: String| x@)[i as int] == s@);
            return true;
        }
        i += 1;
    }
    let ghost vs = v@.map_values(|x: String| x@);
    assert forall|k: int| 0 <= k < vs.len() implies #[trigger] vs[k] != s@ by {
        assert(v@[k]@ != s@);
    }
    false
}

/// The schema document of a compact table.
pub fn table_to_schema(table: &Json, options: JsonSchemaOptions) -> (r: Json)
    ensures
        r@ == spec_table_schema(table@, options.use_ref),
{
    let name = crate::compact::models::get_str_or_empty(table, "name");
    let comment: Option<String> = match table.get("options") {
        Some(o) => match o.get_str("comment") {
            Some(c) => Some(c.clone()),
            None => None,
        },
        None => None,
    };
    let empty: Vec<Json> = Vec::new();
    let pk_columns: Vec<String> = match table.get("primaryKey") {
        Some(pk) => column_names_of(arr_of(pk, "columns", &empty)),
        None => Vec::new(),
    };
    let ghost pk = pk_names(table@);
    assert(pk_columns@.map_values(|s: String| s@) =~= pk);
    let columns = arr_of(table, "columns", &empty);
    let mut required: Vec<Json> = Vec::new();
    let mut definitions: Vec<(String, Json)> = Vec::new();
    let mut properties: Vec<(String, Json)> = Vec::new();
    let mut i: usize = 0;
    proof {
        lemma_view_arr(columns@);
    }
    while i < columns.len()
        invariant
            0 <= i <= columns.len(),
            pk_columns@.map_values(|s: String| s@) == pk,
            view_arr(columns@).len() == columns@.len(),
            forall|k: int| 0 <= k < columns@.len() ==> #[trigger] view_arr(columns@)[k] == view_json(columns@[k]),
            view_arr(required@) == required_of(view_arr(columns@).take(i as int)),
            view_obj(definitions@) == definitions_of(view_arr(columns@).take(i as int), pk),
            view_obj(properties@) == properties_of(view_arr(columns@).take(i as int)),
        decreases columns.len() - i,
    {
        assert(view_arr(columns@).take(i + 1).drop_last() =~= view_arr(columns@).take(i as int));
        let col = &columns[i];
        let col_name = crate::compact::models::get_str_or_empty(col, "name");
        let is_pk = strings_contain(&pk_columns, col_name.as_str());
        let schema = column_to_schema(col, is_pk);
        let refobj = crate::json::obj1("$ref", Json::Str(concat2("#/definitions/", col_name.as_str())));
        obj_insert(&mut properties, col_name.as_str(), refobj);
        obj_insert(&mut definitions, col_name.as_str(), schema);
        let nullable_false = match option_ref(col, "nullable") {
            Some(Json::Bool(b)) => !*b,
            _ => false,
        };
        if nullable_false {
            let s = Json::Str(col_name.clone());
            proof {
                crate::json::lemma_view_arr_push(required@, s);
            }
            required.push(s);
        }
        i += 1;
    }
    assert(view_arr(columns@).take(columns.len() as int) =~= view_arr(columns@));
    let mut doc: Vec<(String, Json)> = Vec::new();
    put(&mut doc, "$schema", Json::str_lit("http://json-schema.org/draft-07/schema"));
    put(&mut doc, "$comment", Json::Str(concat3("JSON Schema for ", name.as_str(), " table")));
    put(&mut doc, "$id", Json::Str(name.clone()));
    put(&mut doc, "title", Json::Str(name.clone()));
    match comment {
        Some(c) => put(&mut doc, "description", Json::Str(c)),
        None => {},
    }
    put(&mut doc, "type", Json::str_lit("object"));
    put(&mut doc, "required", Json::Arr(required));
    if options.use_ref {
        put(&mut doc, "definitions", Json::Obj(definitions));
        put(&mut doc, "properties", Json::Obj(properties));
    } else {
        put(&mut doc, "properties", Json::Obj(definitions));
    }
    proof {
        assert(view_obj(doc@) =~= spec_table_schema(table@, options.use_ref)->Obj_0);
    }
    Json::Obj(doc)
}

/// Formats compact tables into JSON Schema documents, one per table.
pub fn format(tables: &Vec<Json>, options: JsonSchemaOptions) -> (r: Vec<Json>)
    ensures
        view_arr(r@) == view_arr(tables@).map_values(|t: JsonV| spec_table_schema(t, options.use_ref)),
{
    let mut out: Vec<Json> = Vec::new();
    let mut i: usize = 0;
    proof {
        lemma_view_arr(tables@);
    }
    while i < tables.len()
        invariant
            0 <= i <= tables.len(),
            view_arr(tables@).len() == tables@.len(),
            forall|k: int| 0 <= k < tables@.len() ==> #[trigger] view_arr(tables@)[k] == view_json(tables@[k]),
            view_arr(out@) == view_arr(tables@).take(i as int).map_values(
                |t: JsonV| spec_table_schema(t, options.use_ref),
            ),
        decreases tables.len() - i,
    {
        let d = table_to_schema(&tables[i], options);
        proof {
            crate::json::lemma_view_arr_push(out@, d);
            assert(view_arr(tables@).take(i + 1) =~= view_arr(tables@).take(i as int).push(view_arr(tables@)[i as int]));
            assert(view_arr(tables@).take(i + 1).map_values(|t: JsonV| spec_table_schema(t, options.use_ref))
                =~= view_arr(tables@).take(i as int).map_values(|t: JsonV| spec_table_schema(t, options.use_ref)).push(d@));
        }
        out.push(d);
        i += 1;
    }
    assert(view_arr(tables@).take(tables.len() as int) =~= view_arr(tables@));
    out
}


/// The keys of a field list.
pub open spec fn keys(fs: Fields) -> Seq<Seq<char>> {
    fs.map_values(|f: (Seq<char>, JsonV)| f.0)
}

/// Where a key stands depends on the keys alone.
proof fn lemma_key_index_same_keys(a: Fields, b: Fields, k: Seq<char>)
    requires
        keys(a) == keys(b),
    ensures
        crate::json::key_index(a, k) == crate::json::key_index(b, k),
    decreases a.len(),
{
    assert(a.len() == keys(a).len() && b.len() == keys(b).len());
    if a.len() > 0 {
        assert(keys(a.drop_last()) =~= keys(a).drop_last());
        assert(keys(b.drop_last()) =~= keys(b).drop_last());
        assert(a.last().0 == keys(a)[a.len() - 1]);
        assert(b.last().0 == keys(b)[b.len() - 1]);
        lemma_key_index_same_keys(a.drop_last(), b.drop_last(), k);
    }
}

/// Inserting a key into lists with the same keys gives lists with the same
/// keys.
proof fn lemma_insert_same_keys(a: Fields, b: Fields, k: Seq<char>, va: JsonV, vb: JsonV)
    requires
        keys(a) == keys(b),
    ensures
        keys(fields_insert(a, k, va)) == keys(fields_insert(b, k, vb)),
{
    lemma_key_index_same_keys(a, b, k);
    crate::json::lemma_key_index_bounds(a, k);
    assert(a.len() == keys(a).len() && b.len() == keys(b).len());
    assert forall|j: int| 0 <= j < a.len() implies a[j].0 == b[j].0 by {
        assert(keys(a)[j] == keys(b)[j]);
    }
    match crate::json::key_index(a, k) {
        Some(i) => {
            assert(keys(a.update(i, (k, va))) =~= keys(b.update(i, (k, vb))));
        },
        None => {
            assert(keys(a.push((k, va))) =~= keys(b.push((k, vb))));
        },
    }
}

/// With `$ref`, `properties` and `definitions` hold the same column names in
/// the same order.
pub proof fn law_properties_match_definitions(cols: Seq<JsonV>, pk: Seq<Seq<char>>)
    ensures
        keys(properties_of(cols)) == keys(definitions_of(cols, pk)),
    decreases cols.len(),
{
    if cols.len() > 0 {
        law_properties_match_definitions(cols.drop_last(), pk);
        let c = cols.last();
        lemma_insert_same_keys(
            properties_of(cols.drop_last()),
            definitions_of(cols.drop_last(), pk),
            col_name(c),
            JsonV::Obj(seq![("$ref"@, JsonV::Str("#/definitions/"@ + col_name(c)))]),
            spec_column_schema(c, pk.contains(col_name(c))),
        );
    } else {
        assert(keys(properties_of(cols)) =~= keys(definitions_of(cols, pk)));
    }
}

/// Every column that a schema requires is one of its properties, and has a
/// definition.
pub proof fn law_required_are_properties(cols: Seq<JsonV>, pk: Seq<Seq<char>>)
    ensures
        forall|i: int|
            0 <= i < required_of(cols).len() ==> (#[trigger] required_of(cols)[i]) is Str
                && fields_get(properties_of(cols), required_of(cols)[i]->Str_0) is Some
                && fields_get(definitions_of(cols, pk), required_of(cols)[i]->Str_0) is Some,
    decreases cols.len(),
{
    if cols.len() > 0 {
        let init = cols.drop_last();
        let c = cols.last();
        let n = col_name(c);
        law_required_are_properties(init, pk);
        let refv = JsonV::Obj(seq![("$ref"@, JsonV::Str("#/definitions/"@ + n))]);
        let schema = spec_column_schema(c, pk.contains(n));
        assert forall|i: int| 0 <= i < required_of(cols).len() implies (#[trigger] required_of(cols)[i]) is Str
            && fields_get(properties_of(cols), required_of(cols)[i]->Str_0) is Some
            && fields_get(definitions_of(cols, pk), required_of(cols)[i]->Str_0) is Some by {
            let k = required_of(cols)[i]->Str_0;
            if i < required_of(init).len() {
                assert(required_of(cols)[i] == required_of(init)[i]);
            } else {
                assert(required_of(cols)[i] == JsonV::Str(n));
            }
            crate::json::lemma_fields_insert_get(properties_of(init), n, refv, k);
            crate::json::lemma_fields_insert_get(definitions_of(init, pk), n, schema, k);
        }
    }
}


/// The type names a temporal column is told apart from.
proof fn lemma_temporal_names_differ()
    ensures
        "date"@ != "time"@,
        "date"@ != "datetime"@,
        "time"@ != "datetime"@,
        "date"@ != "uuid"@,
        "time"@ != "uuid"@,
        "datetime"@ != "uuid"@,
        "format"@ != "type"@,
        "format"@ != "default"@,
        "type"@ != "default"@,
        "string"@ != "integer"@,
        "string"@ != "number"@,
{
    reveal_strlit("date");
    reveal_strlit("time");
    reveal_strlit("datetime");
    reveal_strlit("uuid");
    reveal_strlit("format");
    reveal_strlit("type");
    reveal_strlit("default");
    reveal_strlit("string");
    reveal_strlit("integer");
    reveal_strlit("number");
    assert("date"@[0] != "time"@[0]);
    assert("date"@.len() != "datetime"@.len());
    assert("time"@.len() != "datetime"@.len());
    assert("date"@[0] != "uuid"@[0]);
    assert("time"@[0] != "uuid"@[0]);
    assert("datetime"@.len() != "uuid"@.len());
    assert("format"@.len() != "type"@.len());
    assert("format"@.len() != "default"@.len());
    assert("type"@.len() != "default"@.len());
    assert("string"@.len() != "integer"@.len());
    assert("string"@[0] != "number"@[0]);
}

/// The type schema of a temporal datatype: a string with a format.
proof fn lemma_temporal_type_schema(tf: JsonV, datatype: Seq<char>, unsigned: bool, fmt: Seq<char>)
    requires
        (datatype == "date"@ && fmt == "date"@) || (datatype == "time"@ && fmt == "time"@) || (datatype
            == "datetime"@ && fmt == "date-time"@),
    ensures
        spec_datatype_schema(tf, datatype, unsigned) == seq![
            ("type"@, JsonV::Str("string"@)),
            ("format"@, JsonV::Str(fmt)),
        ],
{
    reveal_strlit("date");
    reveal_strlit("time");
    reveal_strlit("datetime");
    reveal_strlit("tinyint");
    reveal_strlit("smallint");
    reveal_strlit("mediumint");
    reveal_strlit("int");
    reveal_strlit("bigint");
    reveal_strlit("decimal");
    reveal_strlit("float");
    reveal_strlit("double");
    reveal_strlit("boolean");
    assert("date"@.len() == 4 && "time"@.len() == 4 && "datetime"@.len() == 8);
    assert("tinyint"@.len() == 7 && "mediumint"@.len() == 9 && "int"@.len() == 3 && "bigint"@.len() == 6);
    assert("decimal"@.len() == 7 && "float"@.len() == 5 && "double"@.len() == 6 && "boolean"@.len() == 7);
    assert("smallint"@.len() == 8 && "smallint"@[0] == 's' && "datetime"@[0] == 'd');
    assert("date"@[0] == 'd' && "time"@[0] == 't');
    assert(spec_filter_type(datatype) == "string"@);
    assert(int_range(datatype) is None);
    assert(spec_datatype_schema(tf, datatype, unsigned) =~= seq![
        ("type"@, JsonV::Str("string"@)),
        ("format"@, JsonV::Str(fmt)),
    ]);
}

/// A column of datatype `date`, `time` or `datetime` is described as a
/// string with the draft-07 format of the same kind: `date`, `time` and
/// `date-time`, so that a `date` column accepts a plain date and a
/// `datetime` column a full timestamp.
pub proof fn law_temporal_formats(col: JsonV, is_pk: bool)
    requires
        col.at("type"@).get_str("datatype"@) matches Some(d) && (d == "date"@ || d == "time"@ || d
            == "datetime"@),
    ensures
        spec_column_schema(col, is_pk).get("type"@) == Some(JsonV::Str("string"@)),
        col.at("type"@).get_str("datatype"@) == Some("date"@) ==> spec_column_schema(col, is_pk).get("format"@)
            == Some(JsonV::Str("date"@)),
        col.at("type"@).get_str("datatype"@) == Some("time"@) ==> spec_column_schema(col, is_pk).get("format"@)
            == Some(JsonV::Str("time"@)),
        col.at("type"@).get_str("datatype"@) == Some("datetime"@) ==> spec_column_schema(col, is_pk).get(
            "format"@,
        ) == Some(JsonV::Str("date-time"@)),
{
    lemma_temporal_names_differ();
    let tf = match col.get("type"@) {
        Some(t) => t,
        None => JsonV::Null,
    };
    let datatype = str_or_empty(tf.get_str("datatype"@));
    let unsigned = option_of(col, "unsigned"@) == Some(JsonV::Bool(true));
    let fmt = if datatype == "date"@ {
        "date"@
    } else if datatype == "time"@ {
        "time"@
    } else {
        "date-time"@
    };
    lemma_temporal_type_schema(tf, datatype, unsigned, fmt);
    let ts = spec_datatype_schema(tf, datatype, unsigned);
    crate::json::lemma_key_index_first(ts, "type"@, 0);
    let j0 = if is_pk {
        seq![("$comment"@, JsonV::Str("primary key"@))]
    } else {
        Seq::empty()
    };
    let j1 = match kept_comment(col) {
        Some(c) => j0.push(("description"@, JsonV::Str(c))),
        None => j0,
    };
    let j2 = insert_all(j1, ts);
    assert(ts.drop_last() =~= seq![("type"@, JsonV::Str("string"@))]);
    assert(ts.drop_last().drop_last() =~= Seq::<(Seq<char>, JsonV)>::empty());
    let ja = crate::json::fields_insert(j1, "type"@, JsonV::Str("string"@));
    assert(insert_all(j1, ts.drop_last().drop_last()) == j1);
    assert(ts.drop_last().last() == ("type"@, JsonV::Str("string"@)));
    assert(insert_all(j1, ts.drop_last()) == ja);
    assert(j2 == crate::json::fields_insert(ja, "format"@, JsonV::Str(fmt)));
    lemma_fields_insert_get(j1, "type"@, JsonV::Str("string"@), "type"@);
    lemma_fields_insert_get(ja, "format"@, JsonV::Str(fmt), "type"@);
    lemma_fields_insert_get(ja, "format"@, JsonV::Str(fmt), "format"@);
    match kept_default(col) {
        Some(d) => {
            lemma_fields_insert_get(j2, "default"@, d, "type"@);
            lemma_fields_insert_get(j2, "default"@, d, "format"@);
        },
        None => {},
    }
}

/// An integer type schema with its bounds.
pub open spec fn integer_schema(min: Seq<char>, max: Seq<char>) -> Fields {
    seq![("type"@, JsonV::Str("integer"@)), ("minimum"@, JsonV::Num(min)), ("maximum"@, JsonV::Num(max))]
}

/// The integer types are described as integers bounded by the MySQL ranges
/// (from zero when unsigned), and `bigint` by the range of integers that a
/// double holds exactly.
pub proof fn law_integer_ranges(tf: JsonV, unsigned: bool)
    ensures
        spec_datatype_schema(tf, "tinyint"@, unsigned) == if unsigned {
            integer_schema("0"@, "255"@)
        } else {
            integer_schema("-128"@, "127"@)
        },
        spec_datatype_schema(tf, "smallint"@, unsigned) == if unsigned {
            integer_schema("0"@, "65535"@)
        } else {
            integer_schema("-32768"@, "32767"@)
        },
        spec_datatype_schema(tf, "mediumint"@, unsigned) == if unsigned {
            integer_schema("0"@, "16777215"@)
        } else {
            integer_schema("-8388608"@, "8388607"@)
        },
        spec_datatype_schema(tf, "int"@, unsigned) == if unsigned {
            integer_schema("0"@, "4294967295"@)
        } else {
            integer_schema("-2147483648"@, "2147483647"@)
        },
        spec_datatype_schema(tf, "bigint"@, unsigned) == if unsigned {
            integer_schema("0"@, "9007199254740991"@)
        } else {
            integer_schema("-9007199254740991"@, "9007199254740991"@)
        },
{
    reveal_strlit("tinyint");
    reveal_strlit("smallint");
    reveal_strlit("mediumint");
    reveal_strlit("int");
    reveal_strlit("bigint");
    assert("tinyint"@.len() == 7 && "smallint"@.len() == 8 && "mediumint"@.len() == 9);
    assert("int"@.len() == 3 && "bigint"@.len() == 6);
    assert(spec_datatype_schema(tf, "tinyint"@, unsigned) =~= if unsigned {
        integer_schema("0"@, "255"@)
    } else {
        integer_schema("-128"@, "127"@)
    });
    assert(spec_datatype_schema(tf, "smallint"@, unsigned) =~= if unsigned {
        integer_schema("0"@, "65535"@)
    } else {
        integer_schema("-32768"@, "32767"@)
    });
    assert(spec_datatype_schema(tf, "mediumint"@, unsigned) =~= if unsigned {
        integer_schema("0"@, "16777215"@)
    } else {
        integer_schema("-8388608"@, "8388607"@)
    });
    assert(spec_datatype_schema(tf, "int"@, unsigned) =~= if unsigned {
        integer_schema("0"@, "4294967295"@)
    } else {
        integer_schema("-2147483648"@, "2147483647"@)
    });
    assert(spec_datatype_schema(tf, "bigint"@, unsigned) =~= if unsigned {
        integer_schema("0"@, "9007199254740991"@)
    } else {
        integer_schema("-9007199254740991"@, "9007199254740991"@)
    });
}

} // verus!
