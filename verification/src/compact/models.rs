//! The leaf models of the compact format: datatypes, column options, index
//! columns, index options and column references.

use vstd::prelude::*;

use crate::json::{
    at, clone_opt, fields_get, find_key, fields_insert, fields_remove, lemma_view_arr, lemma_view_obj,
    lemma_view_obj_push, obj_insert, obj_remove, opt_field, opt_json, opt_str, put, spec_to_lowercase,
    str_array, str_eq, str_items, string_of, strings_of, to_lowercase, view_arr, view_json, view_obj,
    Json, JsonV,
};

use super::util::{num_as_i64, spec_num_as_i64, spec_truthy, truthy};

verus! {

/// An object's field list, as a sequence of keys and values.
pub type Fields = Seq<(Seq<char>, JsonV)>;

/// Appends `key` with the value when the value is present and not null.
pub open spec fn push_opt(fs: Fields, key: Seq<char>, o: Option<JsonV>) -> Fields {
    match o {
        Some(v) => if v is Null {
            fs
        } else {
            fs.push((key, v))
        },
        None => fs,
    }
}

/// Appends `key` with a string when there is one.
pub open spec fn push_str(fs: Fields, key: Seq<char>, o: Option<Seq<char>>) -> Fields {
    match o {
        Some(s) => fs.push((key, JsonV::Str(s))),
        None => fs,
    }
}

/// Appends the field of `src` under `key` when it is present and not null.
pub open spec fn copy_def(dst: Fields, src: Fields, key: Seq<char>) -> Fields {
    push_opt(dst, key, fields_get(src, key))
}

/// The texts of a vector of strings.
pub open spec fn strs(v: Seq<String>) -> Seq<Seq<char>> {
    v.map_values(|s: String| s@)
}

/// An array of strings.
pub open spec fn str_arr(v: Seq<Seq<char>>) -> JsonV {
    JsonV::Arr(v.map_values(|s: Seq<char>| JsonV::Str(s)))
}

/// Appends a field when the value is present and not null.
pub fn put_opt(fields: &mut Vec<(String, Json)>, key: &str, o: &Option<Json>)
    ensures
        view_obj(final(fields)@) == push_opt(view_obj(old(fields)@), key@, opt_json(*o)),
{
    match o {
        Some(v) => if !v.is_null() {
            put(fields, key, v.deep_clone());
        },
        None => {},
    }
}

/// Appends a string field when there is one.
pub fn put_str(fields: &mut Vec<(String, Json)>, key: &str, o: &Option<String>)
    ensures
        view_obj(final(fields)@) == push_str(view_obj(old(fields)@), key@, opt_str(*o)),
{
    match o {
        Some(s) => put(fields, key, Json::Str(s.clone())),
        None => {},
    }
}

/// Copies a field of `src` under `key` into `dst` when it is present and not
/// null.
pub fn copy_defined(dst: &mut Vec<(String, Json)>, src: &Vec<(String, Json)>, key: &str)
    ensures
        view_obj(final(dst)@) == copy_def(view_obj(old(dst)@), view_obj(src@), key@),
{
    match find_key(src, key) {
        Some(i) => {
            proof {
                lemma_view_obj(src@);
            }
            if !src[i].1.is_null() {
                put(dst, key, src[i].1.deep_clone());
            }
        },
        None => {},
    }
}

/// A copy of a field list.
pub fn clone_fields(src: &Vec<(String, Json)>) -> (r: Vec<(String, Json)>)
    ensures
        view_obj(r@) == view_obj(src@),
{
    let mut out: Vec<(String, Json)> = Vec::new();
    let mut i: usize = 0;
    while i < src.len()
        invariant
            0 <= i <= src.len(),
            view_obj(out@) == view_obj(src@.take(i as int)),
        decreases src.len() - i,
    {
        let c = src[i].1.deep_clone();
        let k = src[i].0.clone();
        proof {
            lemma_view_obj_push(out@, (k, c));
            lemma_view_obj_push(src@.take(i as int), src@[i as int]);
            assert(src@.take(i + 1) =~= src@.take(i as int).push(src@[i as int]));
        }
        out.push((k, c));
        i += 1;
    }
    assert(src@.take(src.len() as int) =~= src@);
    out
}

/// A copy of a vector of strings.
pub fn clone_strings(v: &Vec<String>) -> (r: Vec<String>)
    ensures
        strs(r@) == strs(v@),
{
    let mut out: Vec<String> = Vec::new();
    let mut i: usize = 0;
    while i < v.len()
        invariant
            0 <= i <= v.len(),
            strs(out@) == strs(v@.take(i as int)),
        decreases v.len() - i,
    {
        let ghost old_out = out@;
        out.push(v[i].clone());
        proof {
            assert(v@.take(i + 1) =~= v@.take(i as int).push(v@[i as int]));
            assert(strs(out@) =~= strs(old_out).push(v@[i as int]@));
            assert(strs(v@.take(i + 1)) =~= strs(v@.take(i as int)).push(v@[i as int]@));
        }
        i += 1;
    }
    assert(v@.take(v.len() as int) =~= v@);
    out
}

/// An array of the given strings.
pub fn strs_json(v: &Vec<String>) -> (r: Json)
    ensures
        r@ == str_arr(strs(v@)),
{
    let r = str_array(v);
    assert(r@->Arr_0 =~= strs(v@).map_values(|s: Seq<char>| JsonV::Str(s)));
    r
}

/// The text of a string, or the empty text.
pub open spec fn str_or_empty(o: Option<Seq<char>>) -> Seq<char> {
    match o {
        Some(s) => s,
        None => Seq::empty(),
    }
}

/// The string under `key`, or the empty string.
pub fn get_str_or_empty(v: &Json, key: &str) -> (r: String)
    ensures
        r@ == str_or_empty(v@.get_str(key@)),
{
    match v.get_str(key) {
        Some(s) => s.clone(),
        None => {
            let e = string_of("");
            proof {
                reveal_strlit("");
            }
            assert(e@ =~= Seq::<char>::empty());
            e
        },
    }
}

/// The lowercase text of the string under `key`, if any.
pub fn get_lower(v: &Json, key: &str) -> (r: Option<String>)
    ensures
        opt_str(r) == (match v@.get_str(key@) {
            Some(s) => Some(spec_to_lowercase(s)),
            None => None,
        }),
{
    match v.get_str(key) {
        Some(s) => Some(to_lowercase(s.as_str())),
        None => None,
    }
}

/// The string under `key`, if any.
pub fn get_string(v: &Json, key: &str) -> (r: Option<String>)
    ensures
        opt_str(r) == v@.get_str(key@),
{
    match v.get_str(key) {
        Some(s) => Some(s.clone()),
        None => None,
    }
}

// ---------------------------------------------------------------- Datatype
/// The usual name of a datatype, from its lowercased name.
pub open spec fn spec_filter_datatype(lower: Seq<char>) -> Seq<char> {
    if lower == "integer"@ {
        "int"@
    } else if lower == "numeric"@ {
        "decimal"@
    } else if lower == "bool"@ {
        "boolean"@
    } else if lower == "tinyblob"@ || lower == "mediumblob"@ || lower == "longblob"@ {
        "blob"@
    } else if lower == "tinytext"@ || lower == "mediumtext"@ || lower == "longtext"@ {
        "text"@
    } else if lower == "national char"@ || lower == "character"@ || lower == "nchar"@ {
        "char"@
    } else if lower == "nvarchar"@ {
        "varchar"@
    } else if lower == "uniqueidentifier"@ {
        "uuid"@
    } else {
        lower
    }
}

/// Normalizes a datatype name: lowercases it and maps synonyms to one name.
pub fn filter_datatype(term: &str) -> (r: String)
    ensures
        r@ == spec_filter_datatype(spec_to_lowercase(term@)),
{
    let lower = to_lowercase(term);
    let l = lower.as_str();
    if str_eq(l, "integer") {
        string_of("int")
    } else if str_eq(l, "numeric") {
        string_of("decimal")
    } else if str_eq(l, "bool") {
        string_of("boolean")
    } else if str_eq(l, "tinyblob") || str_eq(l, "mediumblob") || str_eq(l, "longblob") {
        string_of("blob")
    } else if str_eq(l, "tinytext") || str_eq(l, "mediumtext") || str_eq(l, "longtext") {
        string_of("text")
    } else if str_eq(l, "national char") || str_eq(l, "character") || str_eq(l, "nchar") {
        string_of("char")
    } else if str_eq(l, "nvarchar") {
        string_of("varchar")
    } else if str_eq(l, "uniqueidentifier") {
        string_of("uuid")
    } else {
        lower
    }
}

/// A column datatype.
pub struct Datatype {
    pub datatype: String,
    pub display_width: Option<Json>,
    pub digits: Option<Json>,
    pub decimals: Option<Json>,
    pub length: Option<Json>,
    pub fractional: Option<Json>,
    pub values: Option<Vec<String>>,
    pub binary_collation: Option<bool>,
}

/// The value of a [`Datatype`].
pub struct DatatypeV {
    pub datatype: Seq<char>,
    pub display_width: Option<JsonV>,
    pub digits: Option<JsonV>,
    pub decimals: Option<JsonV>,
    pub length: Option<JsonV>,
    pub fractional: Option<JsonV>,
    pub values: Option<Seq<Seq<char>>>,
    pub binary_collation: Option<bool>,
}

impl View for Datatype {
    type V = DatatypeV;

    open spec fn view(&self) -> DatatypeV {
        DatatypeV {
            datatype: self.datatype@,
            display_width: opt_json(self.display_width),
            digits: opt_json(self.digits),
            decimals: opt_json(self.decimals),
            length: opt_json(self.length),
            fractional: opt_json(self.fractional),
            values: match self.values {
                Some(v) => Some(strs(v@)),
                None => None,
            },
            binary_collation: self.binary_collation,
        }
    }
}

/// The datatype an `O_DATATYPE` node's inner object describes.
pub open spec fn spec_datatype_from(inner: JsonV) -> DatatypeV {
    DatatypeV {
        datatype: spec_filter_datatype(spec_to_lowercase(str_or_empty(inner.get_str("datatype"@)))),
        display_width: inner.opt_field("displayWidth"@),
        digits: inner.opt_field("digits"@),
        decimals: inner.opt_field("decimals"@),
        length: inner.opt_field("length"@),
        fractional: inner.opt_field("fractional"@),
        values: match inner.get("values"@) {
            Some(JsonV::Arr(a)) => Some(str_items(a)),
            _ => None,
        },
        binary_collation: inner.get_bool("binaryCollation"@),
    }
}

/// Whether index lengths apply to a datatype.
pub open spec fn is_indexable_type(d: Seq<char>) -> bool {
    d == "blob"@ || d == "text"@ || d == "char"@ || d == "binary"@ || d == "varchar"@ || d
        == "nvarchar"@ || d == "varbinary"@
}

/// The length an index can cover: the declared length of a string or binary
/// type, zero otherwise.
pub open spec fn spec_max_indexable_size(d: DatatypeV) -> int {
    if is_indexable_type(d.datatype) {
        match d.length {
            Some(JsonV::Num(t)) => match spec_num_as_i64(t) {
                Some(v) => v,
                None => 0,
            },
            _ => 0,
        }
    } else {
        0
    }
}

/// The compact JSON of a datatype.
pub open spec fn spec_datatype_json(d: DatatypeV) -> JsonV {
    let f0 = seq![("datatype"@, JsonV::Str(d.datatype))];
    let f1 = push_opt(f0, "displayWidth"@, d.display_width);
    let f2 = push_opt(f1, "digits"@, d.digits);
    let f3 = push_opt(f2, "decimals"@, d.decimals);
    let f4 = push_opt(f3, "length"@, d.length);
    let f5 = push_opt(f4, "fractional"@, d.fractional);
    let f6 = match d.values {
        Some(vals) => f5.push(("values"@, str_arr(vals))),
        None => f5,
    };
    let f7 = match d.binary_collation {
        Some(b) => f6.push(("binaryCollation"@, JsonV::Bool(b))),
        None => f6,
    };
    JsonV::Obj(f7)
}

impl Datatype {
    /// Builds a datatype from an `O_DATATYPE` node.
    pub fn from_def(json: &Json) -> (r: Datatype)
        ensures
            r@ == spec_datatype_from(json@.at("def"@).at("def"@)),
    {
        let null = Json::Null;
        let inner = at(at(json, "def", &null), "def", &null);
        let raw = get_str_or_empty(inner, "datatype");
        let values = match inner.get("values") {
            Some(v) => match v.as_array() {
                Some(a) => Some(strings_of(a)),
                None => None,
            },
            None => None,
        };
        let binary_collation = match inner.get("binaryCollation") {
            Some(v) => v.as_bool(),
            None => None,
        };
        Datatype {
            datatype: filter_datatype(raw.as_str()),
            display_width: opt_field(inner, "displayWidth"),
            digits: opt_field(inner, "digits"),
            decimals: opt_field(inner, "decimals"),
            length: opt_field(inner, "length"),
            fractional: opt_field(inner, "fractional"),
            values,
            binary_collation,
        }
    }

    /// The length an index on this datatype can cover.
    pub fn max_indexable_size(&self) -> (r: i64)
        ensures
            r == spec_max_indexable_size(self@),
    {
        let d = self.datatype.as_str();
        if str_eq(d, "blob") || str_eq(d, "text") || str_eq(d, "char") || str_eq(d, "binary")
            || str_eq(d, "varchar") || str_eq(d, "nvarchar") || str_eq(d, "varbinary") {
            match &self.length {
                Some(Json::Num(t)) => match num_as_i64(t.as_str()) {
                    Some(v) => v,
                    None => 0,
                },
                _ => 0,
            }
        } else {
            0
        }
    }

    /// The compact JSON of this datatype.
    pub fn to_json(&self) -> (r: Json)
        ensures
            r@ == spec_datatype_json(self@),
    {
        let mut m: Vec<(String, Json)> = Vec::new();
        put(&mut m, "datatype", Json::Str(self.datatype.clone()));
        put_opt(&mut m, "displayWidth", &self.display_width);
        put_opt(&mut m, "digits", &self.digits);
        put_opt(&mut m, "decimals", &self.decimals);
        put_opt(&mut m, "length", &self.length);
        put_opt(&mut m, "fractional", &self.fractional);
        match &self.values {
            Some(vals) => put(&mut m, "values", strs_json(vals)),
            None => {},
        }
        match self.binary_collation {
            Some(b) => put(&mut m, "binaryCollation", Json::Bool(b)),
            None => {},
        }
        proof {
            assert(view_obj(m@) =~= spec_datatype_json(self@)->Obj_0);
        }
        Json::Obj(m)
    }

    /// A copy of this datatype without its binary-collation flag.
    pub fn clone_model(&self) -> (r: Datatype)
        ensures
            r@ == (DatatypeV { binary_collation: None, ..self@ }),
    {
        Datatype {
            datatype: self.datatype.clone(),
            display_width: clone_opt(&self.display_width),
            digits: clone_opt(&self.digits),
            decimals: clone_opt(&self.decimals),
            length: clone_opt(&self.length),
            fractional: clone_opt(&self.fractional),
            values: match &self.values {
                Some(v) => Some(clone_strings(v)),
                None => None,
            },
            binary_collation: None,
        }
    }
}


// ----------------------------------------------------------- ColumnOptions
/// Inserts every field of `fs`, in order, into `acc`.
pub open spec fn insert_all(acc: Fields, fs: Fields) -> Fields
    decreases fs.len(),
{
    if fs.len() == 0 {
        acc
    } else {
        fields_insert(insert_all(acc, fs.drop_last()), fs.last().0, fs.last().1)
    }
}

/// The fields of the `def` objects of a list of nodes, merged in order.
pub open spec fn merge_defs(defs: Seq<JsonV>) -> Fields
    decreases defs.len(),
{
    if defs.len() == 0 {
        Seq::empty()
    } else {
        match defs.last().get("def"@) {
            Some(JsonV::Obj(fs)) => insert_all(merge_defs(defs.drop_last()), fs),
            _ => merge_defs(defs.drop_last()),
        }
    }
}

/// Lowercases a string field when there is one.
pub open spec fn lower_field(fs: Fields, key: Seq<char>) -> Fields {
    match fields_get(fs, key) {
        Some(JsonV::Str(s)) => fields_insert(fs, key, JsonV::Str(spec_to_lowercase(s))),
        _ => fs,
    }
}

/// The column options that a list of `O_COLUMN_DEFINITION` nodes give:
/// their fields merged, four of them lowercased, `nullable` true unless set,
/// `unsigned` set by `zerofill`, and `nullable` false for a primary column.
pub open spec fn spec_column_options(defs: Seq<JsonV>) -> Fields {
    let f0 = merge_defs(defs);
    let f1 = lower_field(
        lower_field(lower_field(lower_field(f0, "collation"@), "charset"@), "storage"@),
        "format"@,
    );
    let f2 = match fields_get(f1, "nullable"@) {
        Some(v) => if v is Null {
            fields_insert(f1, "nullable"@, JsonV::Bool(true))
        } else {
            f1
        },
        None => fields_insert(f1, "nullable"@, JsonV::Bool(true)),
    };
    let f3 = if fields_get(f2, "zerofill"@) == Some(JsonV::Bool(true)) {
        fields_insert(f2, "unsigned"@, JsonV::Bool(true))
    } else {
        f2
    };
    if fields_get(f3, "primary"@) == Some(JsonV::Bool(true)) {
        fields_insert(f3, "nullable"@, JsonV::Bool(false))
    } else {
        f3
    }
}

/// Whether a field holds `true`.
pub open spec fn flag(fs: Fields, key: Seq<char>) -> bool {
    fields_get(fs, key) == Some(JsonV::Bool(true))
}

/// A string default that reads `null` in any case becomes JSON null.
pub open spec fn fix_default(m: Fields) -> Fields {
    match fields_get(m, "default"@) {
        Some(JsonV::Str(sd)) => if spec_to_lowercase(sd) == "null"@ {
            fields_insert(m, "default"@, JsonV::Null)
        } else {
            m
        },
        _ => m,
    }
}

/// The compact JSON of column options.
pub open spec fn spec_options_json(f: Fields) -> JsonV {
    let m0 = Seq::<(Seq<char>, JsonV)>::empty();
    let m1 = copy_def(copy_def(copy_def(m0, f, "unsigned"@), f, "zerofill"@), f, "charset"@);
    let m2 = copy_def(copy_def(copy_def(m1, f, "collation"@), f, "nullable"@), f, "default"@);
    let m3 = copy_def(copy_def(copy_def(m2, f, "autoincrement"@), f, "unique"@), f, "primary"@);
    let m4 = copy_def(copy_def(copy_def(m3, f, "invisible"@), f, "format"@), f, "storage"@);
    let m5 = copy_def(copy_def(m4, f, "comment"@), f, "onUpdate"@);
    let m6 = fix_default(m5);
    JsonV::Obj(
        copy_def(
            copy_def(m6, f, "invisibleWithSystemVersioning"@),
            f,
            "invisibleWithoutSystemVersioning"@,
        ),
    )
}

/// Column options: the merged fields of the column definitions.
pub struct ColumnOptions {
    fields: Vec<(String, Json)>,
}

impl View for ColumnOptions {
    type V = Fields;

    closed spec fn view(&self) -> Fields {
        view_obj(self.fields@)
    }
}

/// Lowercases a string field in place when there is one.
fn lowercase_field(fields: &mut Vec<(String, Json)>, key: &str)
    ensures
        view_obj(final(fields)@) == lower_field(view_obj(old(fields)@), key@),
{
    match find_key(fields, key) {
        Some(i) => {
            proof {
                lemma_view_obj(fields@);
            }
            match &fields[i].1 {
                Json::Str(s) => {
                    let lowered = to_lowercase(s.as_str());
                    obj_insert(fields, key, Json::Str(lowered));
                },
                _ => {},
            }
        },
        None => {},
    }
}

/// The value stored under `key`, by reference.
pub fn field_ref<'a>(fields: &'a Vec<(String, Json)>, key: &str) -> (r: Option<&'a Json>)
    ensures
        match r {
            Some(v) => fields_get(view_obj(fields@), key@) == Some(v@),
            None => fields_get(view_obj(fields@), key@) is None,
        },
{
    match find_key(fields, key) {
        Some(i) => {
            proof {
                lemma_view_obj(fields@);
            }
            Some(&fields[i].1)
        },
        None => None,
    }
}

/// Whether the field under `key` holds `true`.
fn field_flag(fields: &Vec<(String, Json)>, key: &str) -> (r: bool)
    ensures
        r == flag(view_obj(fields@), key@),
{
    match field_ref(fields, key) {
        Some(Json::Bool(b)) => *b,
        _ => false,
    }
}

impl ColumnOptions {
    /// Builds column options from a list of `O_COLUMN_DEFINITION` nodes.
    pub fn from_array(defs: &Vec<Json>) -> (r: ColumnOptions)
        ensures
            r@ == spec_column_options(view_arr(defs@)),
    {
        let mut fields: Vec<(String, Json)> = Vec::new();
        let mut i: usize = 0;
        proof {
            lemma_view_arr(defs@);
        }
        while i < defs.len()
            invariant
                0 <= i <= defs.len(),
                view_arr(defs@).len() == defs@.len(),
                forall|k: int| 0 <= k < defs@.len() ==> #[trigger] view_arr(defs@)[k] == view_json(defs@[k]),
                view_obj(fields@) == merge_defs(view_arr(defs@).take(i as int)),
            decreases defs.len() - i,
        {
            let ghost pre = view_arr(defs@).take(i as int);
            assert(view_arr(defs@).take(i + 1).drop_last() =~= pre);
            match defs[i].get("def") {
                Some(Json::Obj(obj)) => {
                    let mut j: usize = 0;
                    proof {
                        lemma_view_obj(obj@);
                    }
                    while j < obj.len()
                        invariant
                            0 <= j <= obj.len(),
                            view_obj(obj@).len() == obj@.len(),
                            forall|k: int| 0 <= k < obj@.len() ==> #[trigger] view_obj(obj@)[k] == (obj@[k].0@, view_json(obj@[k].1)),
                            view_obj(fields@) == insert_all(merge_defs(pre), view_obj(obj@).take(j as int)),
                        decreases obj.len() - j,
                    {
                        assert(view_obj(obj@).take(j + 1).drop_last() =~= view_obj(obj@).take(j as int));
                        let v = obj[j].1.deep_clone();
                        obj_insert(&mut fields, obj[j].0.as_str(), v);
                        j += 1;
                    }
                    assert(view_obj(obj@).take(obj.len() as int) =~= view_obj(obj@));
                },
                _ => {},
            }
            i += 1;
        }
        assert(view_arr(defs@).take(defs.len() as int) =~= view_arr(defs@));
        lowercase_field(&mut fields, "collation");
        lowercase_field(&mut fields, "charset");
        lowercase_field(&mut fields, "storage");
        lowercase_field(&mut fields, "format");
        let defined = match field_ref(&fields, "nullable") {
            Some(v) => !v.is_null(),
            None => false,
        };
        if !defined {
            obj_insert(&mut fields, "nullable", Json::Bool(true));
        }
        if field_flag(&fields, "zerofill") {
            obj_insert(&mut fields, "unsigned", Json::Bool(true));
        }
        if field_flag(&fields, "primary") {
            obj_insert(&mut fields, "nullable", Json::Bool(false));
        }
        ColumnOptions { fields }
    }

    /// Sets a field.
    pub fn set(&mut self, key: &str, value: Json)
        ensures
            final(self)@ == fields_insert(old(self)@, key@, value@),
    {
        obj_insert(&mut self.fields, key, value);
    }

    /// Removes a field.
    pub fn remove(&mut self, key: &str)
        ensures
            final(self)@ == fields_remove(old(self)@, key@),
    {
        obj_remove(&mut self.fields, key);
    }

    /// Whether the column is autoincrement.
    pub fn is_autoincrement(&self) -> (r: bool)
        ensures
            r == flag(self@, "autoincrement"@),
    {
        field_flag(&self.fields, "autoincrement")
    }

    /// Whether the column is a primary key.
    pub fn is_primary(&self) -> (r: bool)
        ensures
            r == flag(self@, "primary"@),
    {
        field_flag(&self.fields, "primary")
    }

    /// Whether the column is unique.
    pub fn is_unique(&self) -> (r: bool)
        ensures
            r == flag(self@, "unique"@),
    {
        field_flag(&self.fields, "unique")
    }

    /// The compact JSON of these options, in their fixed key order.
    pub fn to_json(&self) -> (r: Json)
        ensures
            r@ == spec_options_json(self@),
    {
        let f = &self.fields;
        let mut m: Vec<(String, Json)> = Vec::new();
        copy_defined(&mut m, f, "unsigned");
        copy_defined(&mut m, f, "zerofill");
        copy_defined(&mut m, f, "charset");
        copy_defined(&mut m, f, "collation");
        copy_defined(&mut m, f, "nullable");
        copy_defined(&mut m, f, "default");
        copy_defined(&mut m, f, "autoincrement");
        copy_defined(&mut m, f, "unique");
        copy_defined(&mut m, f, "primary");
        copy_defined(&mut m, f, "invisible");
        copy_defined(&mut m, f, "format");
        copy_defined(&mut m, f, "storage");
        copy_defined(&mut m, f, "comment");
        copy_defined(&mut m, f, "onUpdate");
        let is_null_text = match field_ref(&m, "default") {
            Some(Json::Str(sd)) => {
                let l = to_lowercase(sd.as_str());
                str_eq(l.as_str(), "null")
            },
            _ => false,
        };
        if is_null_text {
            obj_insert(&mut m, "default", Json::Null);
        }
        copy_defined(&mut m, f, "invisibleWithSystemVersioning");
        copy_defined(&mut m, f, "invisibleWithoutSystemVersioning");
        Json::Obj(m)
    }

    /// A copy of these options.
    pub fn clone_model(&self) -> (r: ColumnOptions)
        ensures
            r@ == self@,
    {
        ColumnOptions { fields: clone_fields(&self.fields) }
    }
}

// ------------------------------------------------------------- IndexColumn
/// Appends `key` with the value when there is one, null or not.
pub open spec fn push_some(fs: Fields, key: Seq<char>, o: Option<JsonV>) -> Fields {
    match o {
        Some(v) => fs.push((key, v)),
        None => fs,
    }
}

/// The value under `key` when it is truthy.
pub open spec fn truthy_field(def: JsonV, key: Seq<char>) -> Option<JsonV> {
    match def.get(key) {
        Some(v) => if spec_truthy(v) {
            Some(v)
        } else {
            None
        },
        None => None,
    }
}

/// An index column entry.
pub struct IndexColumn {
    pub column: Option<String>,
    pub length: Option<Json>,
    pub sort: Option<String>,
}

/// The value of an [`IndexColumn`].
pub struct IndexColumnV {
    pub column: Option<Seq<char>>,
    pub length: Option<JsonV>,
    pub sort: Option<Seq<char>>,
}

impl View for IndexColumn {
    type V = IndexColumnV;

    open spec fn view(&self) -> IndexColumnV {
        IndexColumnV {
            column: opt_str(self.column),
            length: opt_json(self.length),
            sort: opt_str(self.sort),
        }
    }
}

/// The views of a list of index columns.
pub open spec fn icv(s: Seq<IndexColumn>) -> Seq<IndexColumnV> {
    s.map_values(|c: IndexColumn| c@)
}

/// The index column a plain object describes: its column name, and its
/// length and sort order where they are truthy.
pub open spec fn spec_index_column_from(def: JsonV) -> IndexColumnV {
    IndexColumnV {
        column: def.get_str("column"@),
        length: truthy_field(def, "length"@),
        sort: match truthy_field(def, "sort"@) {
            Some(v) => v.as_str(),
            None => None,
        },
    }
}

/// The index column a `P_INDEX_COLUMN` node describes.
pub open spec fn spec_index_column_node(j: JsonV) -> IndexColumnV {
    spec_index_column_from(j.at("def"@))
}

/// The compact JSON of an index column.
pub open spec fn spec_index_column_json(c: IndexColumnV) -> JsonV {
    let f0 = seq![
        ("column"@, match c.column {
            Some(s) => JsonV::Str(s),
            None => JsonV::Null,
        }),
    ];
    JsonV::Obj(push_str(push_some(f0, "length"@, c.length), "sort"@, c.sort))
}

impl IndexColumn {
    /// Builds an index column from a `P_INDEX_COLUMN` node.
    pub fn from_def(json: &Json) -> (r: IndexColumn)
        ensures
            r@ == spec_index_column_node(json@),
    {
        let null = Json::Null;
        IndexColumn::from_object(at(json, "def", &null))
    }

    /// Builds an index column from a plain object holding column, length and
    /// sort.
    pub fn from_object(def: &Json) -> (r: IndexColumn)
        ensures
            r@ == spec_index_column_from(def@),
    {
        let length = match def.get("length") {
            Some(v) => if truthy(v) {
                Some(v.deep_clone())
            } else {
                None
            },
            None => None,
        };
        let sort = match def.get("sort") {
            Some(v) => if truthy(v) {
                match v.as_str() {
                    Some(s) => Some(s.clone()),
                    None => None,
                }
            } else {
                None
            },
            None => None,
        };
        IndexColumn { column: get_string(def, "column"), length, sort }
    }

    /// The compact JSON of this index column.
    pub fn to_json(&self) -> (r: Json)
        ensures
            r@ == spec_index_column_json(self@),
    {
        let mut m: Vec<(String, Json)> = Vec::new();
        let c = match &self.column {
            Some(s) => Json::Str(s.clone()),
            None => Json::Null,
        };
        put(&mut m, "column", c);
        match &self.length {
            Some(l) => put(&mut m, "length", l.deep_clone()),
            None => {},
        }
        put_str(&mut m, "sort", &self.sort);
        proof {
            assert(view_obj(m@) =~= spec_index_column_json(self@)->Obj_0);
        }
        Json::Obj(m)
    }

    /// A copy of this index column.
    pub fn clone_model(&self) -> (r: IndexColumn)
        ensures
            r@ == self@,
    {
        IndexColumn {
            column: match &self.column {
                Some(s) => Some(s.clone()),
                None => None,
            },
            length: clone_opt(&self.length),
            sort: match &self.sort {
                Some(s) => Some(s.clone()),
                None => None,
            },
        }
    }
}

/// Builds index columns from a list of `P_INDEX_COLUMN` nodes.
pub fn index_columns_from(a: &Vec<Json>) -> (r: Vec<IndexColumn>)
    ensures
        icv(r@) == view_arr(a@).map_values(|j: JsonV| spec_index_column_node(j)),
{
    let mut out: Vec<IndexColumn> = Vec::new();
    let mut i: usize = 0;
    proof {
        lemma_view_arr(a@);
    }
    while i < a.len()
        invariant
            0 <= i <= a.len(),
            view_arr(a@).len() == a@.len(),
            forall|k: int| 0 <= k < a@.len() ==> #[trigger] view_arr(a@)[k] == view_json(a@[k]),
            icv(out@) == view_arr(a@).take(i as int).map_values(|j: JsonV| spec_index_column_node(j)),
        decreases a.len() - i,
    {
        let c = IndexColumn::from_def(&a[i]);
        let ghost old_out = out@;
        out.push(c);
        proof {
            assert(icv(out@) =~= icv(old_out).push(c@));
            assert(view_arr(a@).take(i + 1) =~= view_arr(a@).take(i as int).push(view_arr(a@)[i as int]));
            assert(view_arr(a@).take(i + 1).map_values(|j: JsonV| spec_index_column_node(j)) =~=
                view_arr(a@).take(i as int).map_values(|j: JsonV| spec_index_column_node(j)).push(spec_index_column_node(view_arr(a@)[i as int])));
        }
        i += 1;
    }
    assert(view_arr(a@).take(a.len() as int) =~= view_arr(a@));
    out
}

/// An array of the compact JSON of index columns.
pub fn index_columns_json(cols: &Vec<IndexColumn>) -> (r: Json)
    ensures
        r@ == JsonV::Arr(icv(cols@).map_values(|c: IndexColumnV| spec_index_column_json(c))),
{
    let mut out: Vec<Json> = Vec::new();
    let mut i: usize = 0;
    while i < cols.len()
        invariant
            0 <= i <= cols.len(),
            view_arr(out@) == icv(cols@.take(i as int)).map_values(|c: IndexColumnV| spec_index_column_json(c)),
        decreases cols.len() - i,
    {
        let j = cols[i].to_json();
        proof {
            crate::json::lemma_view_arr_push(out@, j);
            assert(cols@.take(i + 1) =~= cols@.take(i as int).push(cols@[i as int]));
            assert(icv(cols@.take(i + 1)).map_values(|c: IndexColumnV| spec_index_column_json(c)) =~=
                icv(cols@.take(i as int)).map_values(|c: IndexColumnV| spec_index_column_json(c)).push(j@));
        }
        out.push(j);
        i += 1;
    }
    assert(cols@.take(cols.len() as int) =~= cols@);
    Json::Arr(out)
}

/// Copies a list of index columns.
pub fn clone_index_columns(cols: &Vec<IndexColumn>) -> (r: Vec<IndexColumn>)
    ensures
        icv(r@) == icv(cols@),
{
    let mut out: Vec<IndexColumn> = Vec::new();
    let mut i: usize = 0;
    while i < cols.len()
        invariant
            0 <= i <= cols.len(),
            icv(out@) == icv(cols@.take(i as int)),
        decreases cols.len() - i,
    {
        let c = cols[i].clone_model();
        let ghost old_out = out@;
        out.push(c);
        proof {
            assert(cols@.take(i + 1) =~= cols@.take(i as int).push(cols@[i as int]));
            assert(icv(out@) =~= icv(old_out).push(c@));
            assert(icv(cols@.take(i + 1)) =~= icv(cols@.take(i as int)).push(cols@[i as int]@));
        }
        i += 1;
    }
    assert(cols@.take(cols.len() as int) =~= cols@);
    out
}


// ------------------------------------------------------------ IndexOptions
/// The lowercase text of an optional string.
pub open spec fn lower_opt(o: Option<Seq<char>>) -> Option<Seq<char>> {
    match o {
        Some(s) => Some(spec_to_lowercase(s)),
        None => None,
    }
}

/// Index options.
pub struct IndexOptions {
    pub key_block_size: Option<Json>,
    pub index_type: Option<String>,
    pub parser: Option<String>,
    pub comment: Option<String>,
    pub algorithm: Option<String>,
    pub lock: Option<String>,
}

/// The value of [`IndexOptions`].
pub struct IndexOptionsV {
    pub key_block_size: Option<JsonV>,
    pub index_type: Option<Seq<char>>,
    pub parser: Option<Seq<char>>,
    pub comment: Option<Seq<char>>,
    pub algorithm: Option<Seq<char>>,
    pub lock: Option<Seq<char>>,
}

impl View for IndexOptions {
    type V = IndexOptionsV;

    open spec fn view(&self) -> IndexOptionsV {
        IndexOptionsV {
            key_block_size: opt_json(self.key_block_size),
            index_type: opt_str(self.index_type),
            parser: opt_str(self.parser),
            comment: opt_str(self.comment),
            algorithm: opt_str(self.algorithm),
            lock: opt_str(self.lock),
        }
    }
}

/// Index options with nothing set.
pub open spec fn no_index_options() -> IndexOptionsV {
    IndexOptionsV {
        key_block_size: None,
        index_type: None,
        parser: None,
        comment: None,
        algorithm: None,
        lock: None,
    }
}

/// One `O_INDEX_OPTION` definition applied to the options read so far: each
/// field it defines replaces the one before (comment and index type
/// lowercased).
pub open spec fn index_option_step(o: IndexOptionsV, def: JsonV) -> IndexOptionsV {
    let o1 = if def.defines("comment"@) {
        IndexOptionsV { comment: lower_opt(def.get_str("comment"@)), ..o }
    } else {
        o
    };
    let o2 = if def.defines("indexType"@) {
        IndexOptionsV { index_type: lower_opt(def.at("indexType"@).get_str("def"@)), ..o1 }
    } else {
        o1
    };
    let o3 = if def.defines("keyBlockSize"@) {
        IndexOptionsV { key_block_size: def.get("keyBlockSize"@), ..o2 }
    } else {
        o2
    };
    let o4 = if def.defines("parser"@) {
        IndexOptionsV { parser: def.get_str("parser"@), ..o3 }
    } else {
        o3
    };
    let o5 = if def.defines("algorithm"@) {
        IndexOptionsV { algorithm: def.get_str("algorithm"@), ..o4 }
    } else {
        o4
    };
    if def.defines("lock"@) {
        IndexOptionsV { lock: def.get_str("lock"@), ..o5 }
    } else {
        o5
    }
}

/// The index options a list of `O_INDEX_OPTION` nodes gives.
pub open spec fn spec_index_options(opts: Seq<JsonV>) -> IndexOptionsV
    decreases opts.len(),
{
    if opts.len() == 0 {
        no_index_options()
    } else {
        index_option_step(spec_index_options(opts.drop_last()), opts.last().at("def"@))
    }
}

/// The compact JSON of index options.
pub open spec fn spec_index_options_json(o: IndexOptionsV) -> JsonV {
    let f1 = push_some(Seq::empty(), "keyBlockSize"@, o.key_block_size);
    let f2 = push_str(push_str(f1, "indexType"@, o.index_type), "algorithm"@, o.algorithm);
    let f3 = push_str(push_str(f2, "comment"@, o.comment), "parser"@, o.parser);
    JsonV::Obj(push_str(f3, "lock"@, o.lock))
}

/// A copy of an optional string.
pub fn clone_opt_str(o: &Option<String>) -> (r: Option<String>)
    ensures
        opt_str(r) == opt_str(*o),
{
    match o {
        Some(s) => Some(s.clone()),
        None => None,
    }
}

impl IndexOptions {
    /// Builds index options from a list of `O_INDEX_OPTION` nodes.
    pub fn from_array(opts: &Vec<Json>) -> (r: IndexOptions)
        ensures
            r@ == spec_index_options(view_arr(opts@)),
    {
        let mut o = IndexOptions {
            key_block_size: None,
            index_type: None,
            parser: None,
            comment: None,
            algorithm: None,
            lock: None,
        };
        let null = Json::Null;
        let mut i: usize = 0;
        proof {
            lemma_view_arr(opts@);
        }
        while i < opts.len()
            invariant
                0 <= i <= opts.len(),
                null@ is Null,
                view_arr(opts@).len() == opts@.len(),
                forall|k: int| 0 <= k < opts@.len() ==> #[trigger] view_arr(opts@)[k] == view_json(opts@[k]),
                o@ == spec_index_options(view_arr(opts@).take(i as int)),
            decreases opts.len() - i,
        {
            assert(view_arr(opts@).take(i + 1).drop_last() =~= view_arr(opts@).take(i as int));
            let def = at(&opts[i], "def", &null);
            if def.defines("comment") {
                o.comment = get_lower(def, "comment");
            }
            if def.defines("indexType") {
                o.index_type = get_lower(at(def, "indexType", &null), "def");
            }
            if def.defines("keyBlockSize") {
                o.key_block_size = match def.get("keyBlockSize") {
                    Some(v) => Some(v.deep_clone()),
                    None => None,
                };
            }
            if def.defines("parser") {
                o.parser = get_string(def, "parser");
            }
            if def.defines("algorithm") {
                o.algorithm = get_string(def, "algorithm");
            }
            if def.defines("lock") {
                o.lock = get_string(def, "lock");
            }
            i += 1;
        }
        assert(view_arr(opts@).take(opts.len() as int) =~= view_arr(opts@));
        o
    }

    /// The compact JSON of these options, in their fixed key order.
    pub fn to_json(&self) -> (r: Json)
        ensures
            r@ == spec_index_options_json(self@),
    {
        let mut m: Vec<(String, Json)> = Vec::new();
        match &self.key_block_size {
            Some(v) => put(&mut m, "keyBlockSize", v.deep_clone()),
            None => {},
        }
        put_str(&mut m, "indexType", &self.index_type);
        put_str(&mut m, "algorithm", &self.algorithm);
        put_str(&mut m, "comment", &self.comment);
        put_str(&mut m, "parser", &self.parser);
        put_str(&mut m, "lock", &self.lock);
        Json::Obj(m)
    }

    /// A copy of these options.
    pub fn clone_model(&self) -> (r: IndexOptions)
        ensures
            r@ == self@,
    {
        IndexOptions {
            key_block_size: clone_opt(&self.key_block_size),
            index_type: clone_opt_str(&self.index_type),
            parser: clone_opt_str(&self.parser),
            comment: clone_opt_str(&self.comment),
            algorithm: clone_opt_str(&self.algorithm),
            lock: clone_opt_str(&self.lock),
        }
    }
}

// -------------------------------------------------------- ColumnReferenceOn
/// A trigger of a reference (`delete` or `update`) and its action.
pub struct ColumnReferenceOn {
    pub trigger: String,
    pub action: String,
}

impl View for ColumnReferenceOn {
    type V = (Seq<char>, Seq<char>);

    open spec fn view(&self) -> (Seq<char>, Seq<char>) {
        (self.trigger@, self.action@)
    }
}

/// The trigger and action an object names, both lowercased.
pub open spec fn spec_reference_on(j: JsonV) -> (Seq<char>, Seq<char>) {
    (
        spec_to_lowercase(str_or_empty(j.get_str("trigger"@))),
        spec_to_lowercase(str_or_empty(j.get_str("action"@))),
    )
}

/// The compact JSON of a trigger and its action.
pub open spec fn spec_reference_on_json(o: (Seq<char>, Seq<char>)) -> JsonV {
    JsonV::Obj(seq![("trigger"@, JsonV::Str(o.0)), ("action"@, JsonV::Str(o.1))])
}

impl ColumnReferenceOn {
    /// Builds a trigger and action from an object, lowercasing both.
    pub fn from_object(json: &Json) -> (r: ColumnReferenceOn)
        ensures
            r@ == spec_reference_on(json@),
    {
        let action = get_str_or_empty(json, "action");
        let trigger = get_str_or_empty(json, "trigger");
        ColumnReferenceOn {
            action: to_lowercase(action.as_str()),
            trigger: to_lowercase(trigger.as_str()),
        }
    }

    /// The compact JSON of this trigger and action.
    pub fn to_json(&self) -> (r: Json)
        ensures
            r@ == spec_reference_on_json(self@),
    {
        let mut m: Vec<(String, Json)> = Vec::new();
        put(&mut m, "trigger", Json::Str(self.trigger.clone()));
        put(&mut m, "action", Json::Str(self.action.clone()));
        proof {
            assert(view_obj(m@) =~= spec_reference_on_json(self@)->Obj_0);
        }
        Json::Obj(m)
    }

    /// A copy.
    pub fn clone_model(&self) -> (r: ColumnReferenceOn)
        ensures
            r@ == self@,
    {
        ColumnReferenceOn { trigger: self.trigger.clone(), action: self.action.clone() }
    }
}

// --------------------------------------------------------- ColumnReference
/// A column reference of a foreign key.
pub struct ColumnReference {
    pub table: String,
    pub match_type: Option<String>,
    pub columns: Vec<IndexColumn>,
    pub on: Vec<ColumnReferenceOn>,
}

/// The value of a [`ColumnReference`].
pub struct ColumnReferenceV {
    pub table: Seq<char>,
    pub match_type: Option<Seq<char>>,
    pub columns: Seq<IndexColumnV>,
    pub on: Seq<(Seq<char>, Seq<char>)>,
}

impl View for ColumnReference {
    type V = ColumnReferenceV;

    open spec fn view(&self) -> ColumnReferenceV {
        ColumnReferenceV {
            table: self.table@,
            match_type: opt_str(self.match_type),
            columns: icv(self.columns@),
            on: self.on@.map_values(|o: ColumnReferenceOn| o@),
        }
    }
}

/// The reference a `P_COLUMN_REFERENCE` node describes.
pub open spec fn spec_column_reference(json: JsonV) -> ColumnReferenceV {
    let def = json.at("def"@);
    ColumnReferenceV {
        table: str_or_empty(def.get_str("table"@)),
        match_type: match truthy_field(def, "match"@) {
            Some(v) => lower_opt(v.as_str()),
            None => None,
        },
        columns: match def.get("columns"@) {
            Some(JsonV::Arr(a)) => a.map_values(|j: JsonV| spec_index_column_node(j)),
            _ => Seq::empty(),
        },
        on: match def.get("on"@) {
            Some(JsonV::Arr(a)) => a.map_values(|j: JsonV| spec_reference_on(j)),
            _ => Seq::empty(),
        },
    }
}

/// The compact JSON of a reference: table, match, triggers, columns.
pub open spec fn spec_column_reference_json(r: ColumnReferenceV) -> JsonV {
    let f1 = push_str(seq![("table"@, JsonV::Str(r.table))], "match"@, r.match_type);
    let f2 = if r.on.len() > 0 {
        f1.push(
            ("on"@, JsonV::Arr(r.on.map_values(|o: (Seq<char>, Seq<char>)| spec_reference_on_json(o)))),
        )
    } else {
        f1
    };
    let f3 = if r.columns.len() > 0 {
        f2.push(
            ("columns"@, JsonV::Arr(r.columns.map_values(|c: IndexColumnV| spec_index_column_json(c)))),
        )
    } else {
        f2
    };
    JsonV::Obj(f3)
}

impl ColumnReference {
    /// Builds a reference from a `P_COLUMN_REFERENCE` node.
    pub fn from_def(json: &Json) -> (r: ColumnReference)
        ensures
            r@ == spec_column_reference(json@),
    {
        let null = Json::Null;
        let def = at(json, "def", &null);
        let table = get_str_or_empty(def, "table");
        let match_type = match def.get("match") {
            Some(v) => if truthy(v) {
                match v.as_str() {
                    Some(m) => Some(to_lowercase(m.as_str())),
                    None => None,
                }
            } else {
                None
            },
            None => None,
        };
        let columns = match def.get("columns") {
            Some(Json::Arr(a)) => index_columns_from(a),
            _ => Vec::new(),
        };
        let mut on: Vec<ColumnReferenceOn> = Vec::new();
        match def.get("on") {
            Some(Json::Arr(a)) => {
                let mut i: usize = 0;
                proof {
                    lemma_view_arr(a@);
                }
                while i < a.len()
                    invariant
                        0 <= i <= a.len(),
                        view_arr(a@).len() == a@.len(),
                        forall|k: int| 0 <= k < a@.len() ==> #[trigger] view_arr(a@)[k] == view_json(a@[k]),
                        on@.map_values(|o: ColumnReferenceOn| o@) == view_arr(a@).take(i as int).map_values(|j: JsonV| spec_reference_on(j)),
                    decreases a.len() - i,
                {
                    let o = ColumnReferenceOn::from_object(&a[i]);
                    let ghost old_on = on@;
                    on.push(o);
                    proof {
                        assert(on@.map_values(|o: ColumnReferenceOn| o@) =~= old_on.map_values(|o: ColumnReferenceOn| o@).push(o@));
                        assert(view_arr(a@).take(i + 1) =~= view_arr(a@).take(i as int).push(view_arr(a@)[i as int]));
                        assert(view_arr(a@).take(i + 1).map_values(|j: JsonV| spec_reference_on(j)) =~=
                            view_arr(a@).take(i as int).map_values(|j: JsonV| spec_reference_on(j)).push(spec_reference_on(view_arr(a@)[i as int])));
                    }
                    i += 1;
                }
                assert(view_arr(a@).take(a.len() as int) =~= view_arr(a@));
            },
            _ => {},
        }
        let r = ColumnReference { table, match_type, columns, on };
        proof {
            let sv = spec_column_reference(json@);
            assert(r@.on =~= sv.on);
            assert(r@.columns =~= sv.columns);
        }
        r
    }

    /// The compact JSON of this reference.
    pub fn to_json(&self) -> (r: Json)
        ensures
            r@ == spec_column_reference_json(self@),
    {
        let mut m: Vec<(String, Json)> = Vec::new();
        put(&mut m, "table", Json::Str(self.table.clone()));
        put_str(&mut m, "match", &self.match_type);
        if self.on.len() > 0 {
            let mut out: Vec<Json> = Vec::new();
            let mut i: usize = 0;
            while i < self.on.len()
                invariant
                    0 <= i <= self.on.len(),
                    view_arr(out@) == self.on@.take(i as int).map_values(|o: ColumnReferenceOn| o@).map_values(
                        |o: (Seq<char>, Seq<char>)| spec_reference_on_json(o),
                    ),
                decreases self.on.len() - i,
            {
                let j = self.on[i].to_json();
                proof {
                    crate::json::lemma_view_arr_push(out@, j);
                    assert(self.on@.take(i + 1) =~= self.on@.take(i as int).push(self.on@[i as int]));
                    assert(self.on@.take(i + 1).map_values(|o: ColumnReferenceOn| o@).map_values(
                        |o: (Seq<char>, Seq<char>)| spec_reference_on_json(o)) =~=
                        self.on@.take(i as int).map_values(|o: ColumnReferenceOn| o@).map_values(
                        |o: (Seq<char>, Seq<char>)| spec_reference_on_json(o)).push(j@));
                }
                out.push(j);
                i += 1;
            }
            assert(self.on@.take(self.on.len() as int) =~= self.on@);
            put(&mut m, "on", Json::Arr(out));
        }
        if self.columns.len() > 0 {
            put(&mut m, "columns", index_columns_json(&self.columns));
        }
        proof {
            assert(view_obj(m@) =~= spec_column_reference_json(self@)->Obj_0);
        }
        Json::Obj(m)
    }

    /// A copy of this reference.
    pub fn clone_model(&self) -> (r: ColumnReference)
        ensures
            r@ == self@,
    {
        let mut on: Vec<ColumnReferenceOn> = Vec::new();
        let mut i: usize = 0;
        while i < self.on.len()
            invariant
                0 <= i <= self.on.len(),
                on@.map_values(|o: ColumnReferenceOn| o@) == self.on@.take(i as int).map_values(|o: ColumnReferenceOn| o@),
            decreases self.on.len() - i,
        {
            let o = self.on[i].clone_model();
            let ghost old_on = on@;
            on.push(o);
            proof {
                assert(self.on@.take(i + 1) =~= self.on@.take(i as int).push(self.on@[i as int]));
                assert(on@.map_values(|o: ColumnReferenceOn| o@) =~= old_on.map_values(|o: ColumnReferenceOn| o@).push(o@));
                assert(self.on@.take(i + 1).map_values(|o: ColumnReferenceOn| o@) =~=
                    self.on@.take(i as int).map_values(|o: ColumnReferenceOn| o@).push(self.on@[i as int]@));
            }
            i += 1;
        }
        assert(self.on@.take(self.on.len() as int) =~= self.on@);
        ColumnReference {
            table: self.table.clone(),
            match_type: clone_opt_str(&self.match_type),
            columns: clone_index_columns(&self.columns),
            on,
        }
    }
}


/// Each `ON DELETE` or `ON UPDATE` clause of a reference becomes a compact
/// entry whose trigger is the clause's trigger and whose action is its
/// action, both lowercased; the entry's JSON is the clause's node with its
/// two texts lowercased.
pub proof fn law_reference_on_keeps_trigger_and_action(trigger: Seq<char>, action: Seq<char>)
    ensures
        spec_reference_on(crate::grammar::common::on_action_v(trigger, action)) == (
            spec_to_lowercase(trigger),
            spec_to_lowercase(action),
        ),
        spec_reference_on_json(spec_reference_on(crate::grammar::common::on_action_v(trigger, action)))
            == crate::grammar::common::on_action_v(spec_to_lowercase(trigger), spec_to_lowercase(action)),
{
    reveal_strlit("trigger");
    reveal_strlit("action");
    assert("trigger"@.len() != "action"@.len());
    let fs = seq![("trigger"@, JsonV::Str(trigger)), ("action"@, JsonV::Str(action))];
    crate::json::lemma_key_index_first(fs, "trigger"@, 0);
    crate::json::lemma_key_index_first(fs, "action"@, 1);
}

} // verus!
