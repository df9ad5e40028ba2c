//! The column model and the keys a column definition carries.

use vstd::prelude::*;

use crate::json::{at, fields_remove, opt_json, put, view_arr, view_obj, Json, JsonV};

use super::keys::{single_column, ForeignKey, ForeignKeyV, KeyIndex, KeyIndexV, PrimaryKey, PrimaryKeyV};
use super::models::{flag, spec_column_options, spec_column_reference, spec_column_reference_json, spec_datatype_from, spec_datatype_json, spec_options_json, str_or_empty, ColumnOptions, ColumnReference, ColumnReferenceV, Datatype, DatatypeV, Fields, IndexColumnV};

verus! {

/// A table column.
pub struct Column {
    pub name: String,
    pub datatype: Datatype,
    pub reference: Option<ColumnReference>,
    pub options: Option<ColumnOptions>,
}

/// The value of a [`Column`].
pub struct ColumnV {
    pub name: Seq<char>,
    pub datatype: DatatypeV,
    pub reference: Option<ColumnReferenceV>,
    pub options: Option<Fields>,
}

impl View for Column {
    type V = ColumnV;

    open spec fn view(&self) -> ColumnV {
        ColumnV {
            name: self.name@,
            datatype: self.datatype@,
            reference: match self.reference {
                Some(r) => Some(r@),
                None => None,
            },
            options: match self.options {
                Some(o) => Some(o@),
                None => None,
            },
        }
    }
}

/// The views of a list of columns.
pub open spec fn cv(s: Seq<Column>) -> Seq<ColumnV> {
    s.map_values(|c: Column| c@)
}

/// Whether a column's options hold `true` under `key`.
pub open spec fn col_flag(c: ColumnV, key: Seq<char>) -> bool {
    c.options matches Some(o) && flag(o, key)
}

/// A plain object that a column is built from.
pub struct ColumnObject {
    pub name: String,
    pub datatype: Json,
    pub reference: Option<Json>,
    pub column_definition: Option<Json>,
}

/// The column a name, an `O_DATATYPE` node, a reference and a list of
/// column definitions describe.
pub open spec fn spec_column_parts(
    name: Seq<char>,
    datatype: JsonV,
    reference: Option<JsonV>,
    column_definition: Option<JsonV>,
) -> ColumnV {
    ColumnV {
        name,
        datatype: spec_datatype_from(datatype.at("def"@).at("def"@)),
        reference: match reference {
            Some(v) => if v is Null {
                None
            } else {
                Some(spec_column_reference(v))
            },
            None => None,
        },
        options: match column_definition {
            Some(JsonV::Arr(a)) => Some(spec_column_options(a)),
            Some(_) => Some(spec_column_options(Seq::empty())),
            None => None,
        },
    }
}

/// The column a plain object describes.
pub open spec fn spec_column_from(o: ColumnObject) -> ColumnV {
    spec_column_parts(o.name@, o.datatype@, opt_json(o.reference), opt_json(o.column_definition))
}

/// The column an `O_CREATE_TABLE_CREATE_DEFINITION` node holds.
pub open spec fn spec_column_node(j: JsonV) -> ColumnV {
    let column = j.at("def"@).at("column"@);
    let def = column.at("def"@);
    spec_column_parts(
        str_or_empty(column.at("name"@).as_str()),
        def.at("datatype"@),
        def.get("reference"@),
        def.get("columnDefinition"@),
    )
}

/// The compact JSON of a column: name, type, options, reference.
pub open spec fn spec_column_json(c: ColumnV) -> JsonV {
    let f1 = seq![("name"@, JsonV::Str(c.name)), ("type"@, spec_datatype_json(c.datatype))];
    let f2 = match c.options {
        Some(o) => f1.push(("options"@, spec_options_json(o))),
        None => f1,
    };
    JsonV::Obj(
        match c.reference {
            Some(r) => f2.push(("reference"@, spec_column_reference_json(r))),
            None => f2,
        },
    )
}

impl Column {
    /// Builds a column from an `O_CREATE_TABLE_CREATE_DEFINITION` node.
    pub fn from_def(json: &Json) -> (r: Column)
        ensures
            r@ == spec_column_node(json@),
    {
        let null = Json::Null;
        let column = at(at(json, "def", &null), "column", &null);
        let def = at(column, "def", &null);
        let name = match at(column, "name", &null).as_str() {
            Some(s) => s.clone(),
            None => {
                let e = crate::json::string_of("");
                proof {
                    reveal_strlit("");
                }
                assert(e@ =~= Seq::<char>::empty());
                e
            },
        };
        let obj = ColumnObject {
            name,
            datatype: at(def, "datatype", &null).deep_clone(),
            reference: match def.get("reference") {
                Some(v) => Some(v.deep_clone()),
                None => None,
            },
            column_definition: match def.get("columnDefinition") {
                Some(v) => Some(v.deep_clone()),
                None => None,
            },
        };
        Column::from_object(&obj)
    }

    /// Builds a column from a plain object.
    pub fn from_object(json: &ColumnObject) -> (r: Column)
        ensures
            r@ == spec_column_from(*json),
    {
        let datatype = Datatype::from_def(&json.datatype);
        let reference = match &json.reference {
            Some(v) => if v.is_null() {
                None
            } else {
                Some(ColumnReference::from_def(v))
            },
            None => None,
        };
        let options = match &json.column_definition {
            Some(cd) => match cd.as_array() {
                Some(a) => Some(ColumnOptions::from_array(a)),
                None => {
                    let e: Vec<Json> = Vec::new();
                    let o = ColumnOptions::from_array(&e);
                    assert(view_arr(e@) =~= Seq::<JsonV>::empty());
                    Some(o)
                },
            },
            None => None,
        };
        Column { name: json.name.clone(), datatype, reference, options }
    }

    /// The compact JSON of this column.
    pub fn to_json(&self) -> (r: Json)
        ensures
            r@ == spec_column_json(self@),
    {
        let mut m: Vec<(String, Json)> = Vec::new();
        put(&mut m, "name", Json::Str(self.name.clone()));
        put(&mut m, "type", self.datatype.to_json());
        match &self.options {
            Some(o) => put(&mut m, "options", o.to_json()),
            None => {},
        }
        match &self.reference {
            Some(r) => put(&mut m, "reference", r.to_json()),
            None => {},
        }
        proof {
            assert(view_obj(m@) =~= spec_column_json(self@)->Obj_0);
        }
        Json::Obj(m)
    }

    /// A copy of this column without its reference, whose datatype loses its
    /// binary-collation flag.
    pub fn clone_model(&self) -> (r: Column)
        ensures
            r@ == (ColumnV {
                reference: None,
                datatype: DatatypeV { binary_collation: None, ..self@.datatype },
                ..self@
            }),
    {
        Column {
            name: self.name.clone(),
            datatype: self.datatype.clone_model(),
            reference: None,
            options: match &self.options {
                Some(o) => Some(o.clone_model()),
                None => None,
            },
        }
    }

    /// Whether this column is a primary key by its options.
    pub fn is_primary_key(&self) -> (r: bool)
        ensures
            r == col_flag(self@, "primary"@),
    {
        match &self.options {
            Some(o) => o.is_primary(),
            None => false,
        }
    }

    /// Whether this column is a unique key by its options.
    pub fn is_unique_key(&self) -> (r: bool)
        ensures
            r == col_flag(self@, "unique"@),
    {
        match &self.options {
            Some(o) => o.is_unique(),
            None => false,
        }
    }

    /// Whether this column has a reference.
    pub fn is_foreign_key(&self) -> (r: bool)
        ensures
            r == self@.reference is Some,
    {
        self.reference.is_some()
    }

    /// For a primary column: drops `primary` from its options and gives a
    /// primary key over this column.
    pub fn extract_primary_key(&mut self) -> (r: Option<PrimaryKey>)
        ensures
            col_flag(old(self)@, "primary"@) ==> {
                &&& r matches Some(pk) && pk@ == (PrimaryKeyV {
                    name: None,
                    index_type: None,
                    columns: Some(seq![IndexColumnV { column: Some(old(self)@.name), length: None, sort: None }]),
                    options: None,
                })
                &&& final(self)@ == (ColumnV {
                    options: Some(fields_remove(old(self)@.options->Some_0, "primary"@)),
                    ..old(self)@
                })
            },
            !col_flag(old(self)@, "primary"@) ==> r is None && final(self)@ == old(self)@,
    {
        if !self.is_primary_key() {
            return None;
        }
        match &mut self.options {
            Some(o) => o.remove("primary"),
            None => {},
        }
        let mut pk = PrimaryKey { name: None, index_type: None, columns: None, options: None };
        pk.push_column(single_column(&self.name));
        assert(pk@.columns->Some_0 =~= seq![IndexColumnV { column: Some(old(self)@.name), length: None, sort: None }]);
        Some(pk)
    }

    /// For a column with a reference: takes the reference out and gives a
    /// foreign key from this column to it.
    pub fn extract_foreign_key(&mut self) -> (r: Option<ForeignKey>)
        ensures
            old(self)@.reference matches Some(rf) ==> {
                &&& r matches Some(fk) && fk@ == (ForeignKeyV {
                    name: None,
                    columns: seq![IndexColumnV { column: Some(old(self)@.name), length: None, sort: None }],
                    reference: rf,
                })
                &&& final(self)@ == (ColumnV { reference: None, ..old(self)@ })
            },
            old(self)@.reference is None ==> r is None && final(self)@ == old(self)@,
    {
        if !self.is_foreign_key() {
            return None;
        }
        match self.reference.take() {
            Some(reference) => {
                let mut cols: Vec<super::models::IndexColumn> = Vec::new();
                cols.push(single_column(&self.name));
                let fk = ForeignKey { name: None, columns: cols, reference };
                assert(fk@.columns =~= seq![IndexColumnV { column: Some(old(self)@.name), length: None, sort: None }]);
                Some(fk)
            },
            None => None,
        }
    }

    /// For a unique column: drops `unique` from its options and gives a
    /// unique key over this column.
    pub fn extract_unique_key(&mut self) -> (r: Option<KeyIndex>)
        ensures
            col_flag(old(self)@, "unique"@) ==> {
                &&& r matches Some(k) && k@ == (KeyIndexV {
                    name: None,
                    index_type: None,
                    columns: seq![IndexColumnV { column: Some(old(self)@.name), length: None, sort: None }],
                    options: None,
                })
                &&& final(self)@ == (ColumnV {
                    options: Some(fields_remove(old(self)@.options->Some_0, "unique"@)),
                    ..old(self)@
                })
            },
            !col_flag(old(self)@, "unique"@) ==> r is None && final(self)@ == old(self)@,
    {
        if !self.is_unique_key() {
            return None;
        }
        match &mut self.options {
            Some(o) => o.remove("unique"),
            None => {},
        }
        let mut cols: Vec<super::models::IndexColumn> = Vec::new();
        cols.push(single_column(&self.name));
        let k = KeyIndex { name: None, index_type: None, columns: cols, options: None };
        assert(k@.columns =~= seq![IndexColumnV { column: Some(old(self)@.name), length: None, sort: None }]);
        Some(k)
    }
}

} // verus!
