//! The table options model. Options keep a fixed order and some of them are
//! lowercased when they are read.

use vstd::prelude::*;

use crate::json::{fields_get, fields_insert, lemma_view_arr, to_lowercase, view_arr, view_json, view_obj, Json, JsonV, at};

use super::models::{clone_fields, copy_def, copy_defined, field_ref, Fields};

verus! {

/// How many table options there are.
pub const OPTION_COUNT: usize = 31;

/// The name of the table option at `i`, in output order.
pub open spec fn option_name(i: int) -> Seq<char> {
    if i == 0 {
        "autoincrement"@
    } else if i == 1 {
        "avgRowLength"@
    } else if i == 2 {
        "charset"@
    } else if i == 3 {
        "checksum"@
    } else if i == 4 {
        "collation"@
    } else if i == 5 {
        "comment"@
    } else if i == 6 {
        "compression"@
    } else if i == 7 {
        "connection"@
    } else if i == 8 {
        "dataDirectory"@
    } else if i == 9 {
        "indexDirectory"@
    } else if i == 10 {
        "delayKeyWrite"@
    } else if i == 11 {
        "encryption"@
    } else if i == 12 {
        "encryptionKeyId"@
    } else if i == 13 {
        "ietfQuotes"@
    } else if i == 14 {
        "engine"@
    } else if i == 15 {
        "insertMethod"@
    } else if i == 16 {
        "keyBlockSize"@
    } else if i == 17 {
        "maxRows"@
    } else if i == 18 {
        "minRows"@
    } else if i == 19 {
        "packKeys"@
    } else if i == 20 {
        "pageChecksum"@
    } else if i == 21 {
        "password"@
    } else if i == 22 {
        "rowFormat"@
    } else if i == 23 {
        "statsAutoRecalc"@
    } else if i == 24 {
        "statsPersistent"@
    } else if i == 25 {
        "statsSamplePages"@
    } else if i == 26 {
        "transactional"@
    } else if i == 27 {
        "withSystemVersioning"@
    } else if i == 28 {
        "tablespaceName"@
    } else if i == 29 {
        "tablespaceStorage"@
    } else if i == 30 {
        "union"@
    } else {
        Seq::empty()
    }
}

/// Whether the table option at `i` is lowercased when it is a string.
pub open spec fn option_lower(i: int) -> bool {
    i == 2 || i == 4 || i == 6 || i == 11 || i == 13 || i == 15 || i == 19 || i == 22 || i == 23 || i == 24 || i == 25 || i == 29
}

/// A value lowercased when asked and when it is a string.
pub open spec fn apply_lower(v: JsonV, lower: bool) -> JsonV {
    match v {
        JsonV::Str(s) => if lower {
            JsonV::Str(spec_to_lowercase_of(s))
        } else {
            v
        },
        _ => v,
    }
}

/// The lowercase mapping of a text.
pub open spec fn spec_to_lowercase_of(s: Seq<char>) -> Seq<char> {
    crate::json::spec_to_lowercase(s)
}

/// The first `n` table options of one `O_CREATE_TABLE_OPTION` definition,
/// read into `fs`.
pub open spec fn read_options_upto(fs: Fields, def: JsonV, n: int) -> Fields
    decreases n,
{
    if n <= 0 {
        fs
    } else {
        let p = read_options_upto(fs, def, n - 1);
        match def.get(option_name(n - 1)) {
            Some(v) => if v is Null {
                p
            } else {
                fields_insert(p, option_name(n - 1), apply_lower(v, option_lower(n - 1)))
            },
            None => p,
        }
    }
}

/// The table options a list of `O_CREATE_TABLE_OPTION` nodes gives.
pub open spec fn spec_table_options(opts: Seq<JsonV>) -> Fields
    decreases opts.len(),
{
    if opts.len() == 0 {
        Seq::empty()
    } else {
        read_options_upto(spec_table_options(opts.drop_last()), opts.last().at("def"@), 31)
    }
}

/// The first `n` options of `f`, in order, where they are defined.
pub open spec fn options_json_upto(f: Fields, n: int) -> Fields
    decreases n,
{
    if n <= 0 {
        Seq::empty()
    } else {
        copy_def(options_json_upto(f, n - 1), f, option_name(n - 1))
    }
}

/// The compact JSON of table options.
pub open spec fn spec_table_options_json(f: Fields) -> JsonV {
    JsonV::Obj(options_json_upto(f, 31))
}

/// The first `n` options of `b` that are defined, written over `a`.
pub open spec fn merge_upto(a: Fields, b: Fields, n: int) -> Fields
    decreases n,
{
    if n <= 0 {
        a
    } else {
        let p = merge_upto(a, b, n - 1);
        match fields_get(b, option_name(n - 1)) {
            Some(v) => if v is Null {
                p
            } else {
                fields_insert(p, option_name(n - 1), v)
            },
            None => p,
        }
    }
}

/// The name of the table option at `i`, and whether it is lowercased.
fn option_at(i: usize) -> (r: (&'static str, bool))
    requires
        i < 31,
    ensures
        r.0@ == option_name(i as int),
        r.1 == option_lower(i as int),
{
    match i {
        0 => ("autoincrement", false),
        1 => ("avgRowLength", false),
        2 => ("charset", true),
        3 => ("checksum", false),
        4 => ("collation", true),
        5 => ("comment", false),
        6 => ("compression", true),
        7 => ("connection", false),
        8 => ("dataDirectory", false),
        9 => ("indexDirectory", false),
        10 => ("delayKeyWrite", false),
        11 => ("encryption", true),
        12 => ("encryptionKeyId", false),
        13 => ("ietfQuotes", true),
        14 => ("engine", false),
        15 => ("insertMethod", true),
        16 => ("keyBlockSize", false),
        17 => ("maxRows", false),
        18 => ("minRows", false),
        19 => ("packKeys", true),
        20 => ("pageChecksum", false),
        21 => ("password", false),
        22 => ("rowFormat", true),
        23 => ("statsAutoRecalc", true),
        24 => ("statsPersistent", true),
        25 => ("statsSamplePages", true),
        26 => ("transactional", false),
        27 => ("withSystemVersioning", false),
        28 => ("tablespaceName", false),
        29 => ("tablespaceStorage", true),
        30 => ("union", false),
        _ => ("union", false),
    }
}

/// Table options.
pub struct TableOptions {
    fields: Vec<(String, Json)>,
}

impl View for TableOptions {
    type V = Fields;

    closed spec fn view(&self) -> Fields {
        view_obj(self.fields@)
    }
}

impl TableOptions {
    /// No options.
    pub fn new() -> (r: TableOptions)
        ensures
            r@ == Seq::<(Seq<char>, JsonV)>::empty(),
    {
        let r = TableOptions { fields: Vec::new() };
        assert(r@ =~= Seq::<(Seq<char>, JsonV)>::empty());
        r
    }

    /// Builds table options from a `P_CREATE_TABLE_OPTIONS` node.
    pub fn from_def(json: &Json) -> (r: TableOptions)
        ensures
            r@ == spec_table_options(match json@.get("def"@) {
                Some(JsonV::Arr(a)) => a,
                _ => Seq::empty(),
            }),
    {
        match json.get("def") {
            Some(Json::Arr(a)) => TableOptions::from_array(a),
            _ => {
                let e: Vec<Json> = Vec::new();
                let r = TableOptions::from_array(&e);
                assert(view_arr(e@) =~= Seq::<JsonV>::empty());
                r
            },
        }
    }

    /// Builds table options from a list of `O_CREATE_TABLE_OPTION` nodes.
    pub fn from_array(options: &Vec<Json>) -> (r: TableOptions)
        ensures
            r@ == spec_table_options(view_arr(options@)),
    {
        let null = Json::Null;
        let mut fields: Vec<(String, Json)> = Vec::new();
        let mut i: usize = 0;
        proof {
            lemma_view_arr(options@);
        }
        while i < options.len()
            invariant
                0 <= i <= options.len(),
                null@ is Null,
                view_arr(options@).len() == options@.len(),
                forall|k: int| 0 <= k < options@.len() ==> #[trigger] view_arr(options@)[k] == view_json(options@[k]),
                view_obj(fields@) == spec_table_options(view_arr(options@).take(i as int)),
            decreases options.len() - i,
        {
            assert(view_arr(options@).take(i + 1).drop_last() =~= view_arr(options@).take(i as int));
            let def = at(&options[i], "def", &null);
            let ghost base = view_obj(fields@);
            let mut k: usize = 0;
            while k < OPTION_COUNT
                invariant
                    0 <= k <= 31,
                    OPTION_COUNT == 31,
                    view_obj(fields@) == read_options_upto(base, def@, k as int),
                decreases 31 - k,
            {
                let (name, lower) = option_at(k);
                match def.get(name) {
                    Some(v) => if !v.is_null() {
                        let nv = match v {
                            Json::Str(s) => if lower {
                                Json::Str(to_lowercase(s.as_str()))
                            } else {
                                v.deep_clone()
                            },
                            _ => v.deep_clone(),
                        };
                        crate::json::obj_insert(&mut fields, name, nv);
                    },
                    None => {},
                }
                k += 1;
            }
            i += 1;
        }
        assert(view_arr(options@).take(options.len() as int) =~= view_arr(options@));
        TableOptions { fields }
    }

    /// The compact JSON of these options, in their fixed order.
    pub fn to_json(&self) -> (r: Json)
        ensures
            r@ == spec_table_options_json(self@),
    {
        let mut m: Vec<(String, Json)> = Vec::new();
        let mut k: usize = 0;
        while k < OPTION_COUNT
            invariant
                0 <= k <= 31,
                OPTION_COUNT == 31,
                view_obj(m@) == options_json_upto(view_obj(self.fields@), k as int),
            decreases 31 - k,
        {
            let (name, _) = option_at(k);
            copy_defined(&mut m, &self.fields, name);
            k += 1;
        }
        Json::Obj(m)
    }

    /// A copy of these options.
    pub fn clone_model(&self) -> (r: TableOptions)
        ensures
            r@ == self@,
    {
        TableOptions { fields: clone_fields(&self.fields) }
    }

    /// Writes the defined options of `other` over these.
    pub fn merge_with(&mut self, other: &TableOptions)
        ensures
            final(self)@ == merge_upto(old(self)@, other@, 31),
    {
        let mut k: usize = 0;
        while k < OPTION_COUNT
            invariant
                0 <= k <= 31,
                OPTION_COUNT == 31,
                view_obj(self.fields@) == merge_upto(view_obj(old(self).fields@), view_obj(other.fields@), k as int),
            decreases 31 - k,
        {
            let (name, _) = option_at(k);
            match field_ref(&other.fields, name) {
                Some(v) => if !v.is_null() {
                    crate::json::obj_insert(&mut self.fields, name, v.deep_clone());
                },
                None => {},
            }
            k += 1;
        }
    }
}

} // verus!
