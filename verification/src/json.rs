//! A small JSON value type used for every tree this library builds: the parse
//! tree, the compact table model and the JSON Schema documents.
//!
//! Objects keep their keys in insertion order. Numbers keep the decimal text
//! they were written with; turning that text into a binary floating-point
//! number is left to the caller.

use vstd::prelude::*;

verus! {

/// A JSON value.
#[derive(Debug, PartialEq, Eq)]
pub enum Json {
    /// `null`.
    Null,
    /// `true` or `false`.
    Bool(bool),
    /// A number, kept as its decimal text (for example `10`, `-99.99`, `1e3`).
    Num(String),
    /// A string.
    Str(String),
    /// An array.
    Arr(Vec<Json>),
    /// An object with its keys in insertion order.
    Obj(Vec<(String, Json)>),
}

/// The mathematical value of a [`Json`].
pub enum JsonV {
    Null,
    Bool(bool),
    Num(Seq<char>),
    Str(Seq<char>),
    Arr(Seq<JsonV>),
    Obj(Seq<(Seq<char>, JsonV)>),
}

pub open spec fn view_json(j: Json) -> JsonV
    decreases j,
{
    match j {
        Json::Null => JsonV::Null,
        Json::Bool(b) => JsonV::Bool(b),
        Json::Num(s) => JsonV::Num(s@),
        Json::Str(s) => JsonV::Str(s@),
        Json::Arr(v) => JsonV::Arr(view_arr(v@)),
        Json::Obj(v) => JsonV::Obj(view_obj(v@)),
    }
}

pub open spec fn view_arr(s: Seq<Json>) -> Seq<JsonV>
    decreases s,
{
    if s.len() == 0 {
        Seq::empty()
    } else {
        view_arr(s.drop_last()).push(view_json(s.last()))
    }
}

pub open spec fn view_obj(s: Seq<(String, Json)>) -> Seq<(Seq<char>, JsonV)>
    decreases s,
{
    if s.len() == 0 {
        Seq::empty()
    } else {
        view_obj(s.drop_last()).push((s.last().0@, view_json(s.last().1)))
    }
}

impl View for Json {
    type V = JsonV;

    open spec fn view(&self) -> JsonV {
        view_json(*self)
    }
}

/// The first index of `key` among the keys of an object.
pub open spec fn key_index(fields: Seq<(Seq<char>, JsonV)>, key: Seq<char>) -> Option<int>
    decreases fields.len(),
{
    if fields.len() == 0 {
        None
    } else {
        match key_index(fields.drop_last(), key) {
            Some(i) => Some(i),
            None => if fields.last().0 == key {
                Some(fields.len() - 1)
            } else {
                None
            },
        }
    }
}

/// The value stored under `key` in an object field list.
pub open spec fn fields_get(fields: Seq<(Seq<char>, JsonV)>, key: Seq<char>) -> Option<JsonV> {
    match key_index(fields, key) {
        Some(i) => Some(fields[i].1),
        None => None,
    }
}

/// The field list after inserting `key`: a present key keeps its place and
/// takes the new value, a new key goes last.
pub open spec fn fields_insert(fields: Seq<(Seq<char>, JsonV)>, key: Seq<char>, v: JsonV) -> Seq<
    (Seq<char>, JsonV),
> {
    match key_index(fields, key) {
        Some(i) => fields.update(i, (key, v)),
        None => fields.push((key, v)),
    }
}

/// The field list after removing `key`; the other keys keep their order, so
/// that an object reads its keys in the order the model built them.
pub open spec fn fields_remove(fields: Seq<(Seq<char>, JsonV)>, key: Seq<char>) -> Seq<
    (Seq<char>, JsonV),
> {
    match key_index(fields, key) {
        Some(i) => fields.remove(i),
        None => fields,
    }
}

impl JsonV {
    /// The value of a field of an object; `None` for a missing key or a value
    /// that is not an object.
    pub open spec fn get(self, key: Seq<char>) -> Option<JsonV> {
        match self {
            JsonV::Obj(fields) => fields_get(fields, key),
            _ => None,
        }
    }

    /// The text of a string value.
    pub open spec fn as_str(self) -> Option<Seq<char>> {
        match self {
            JsonV::Str(s) => Some(s),
            _ => None,
        }
    }

    /// A value is defined when it is present and not null.
    pub open spec fn is_null(self) -> bool {
        self is Null
    }

    /// The string stored under `key`, if any.
    pub open spec fn get_str(self, key: Seq<char>) -> Option<Seq<char>> {
        match self.get(key) {
            Some(v) => v.as_str(),
            None => None,
        }
    }

    /// Whether `key` holds a present, non-null value.
    pub open spec fn defines(self, key: Seq<char>) -> bool {
        match self.get(key) {
            Some(v) => !v.is_null(),
            None => false,
        }
    }

    /// The value of a field, with null standing for a missing one.
    pub open spec fn at(self, key: Seq<char>) -> JsonV {
        match self.get(key) {
            Some(v) => v,
            None => JsonV::Null,
        }
    }

    /// The field under `key` when it is present and not null.
    pub open spec fn opt_field(self, key: Seq<char>) -> Option<JsonV> {
        match self.get(key) {
            Some(v) => if v is Null {
                None
            } else {
                Some(v)
            },
            None => None,
        }
    }

    /// The boolean under `key`, if any.
    pub open spec fn get_bool(self, key: Seq<char>) -> Option<bool> {
        match self.get(key) {
            Some(JsonV::Bool(b)) => Some(b),
            _ => None,
        }
    }
}

/// The view of an optional value.
pub open spec fn opt_json(o: Option<Json>) -> Option<JsonV> {
    match o {
        Some(j) => Some(j@),
        None => None,
    }
}

/// The view of an optional string.
pub open spec fn opt_str(o: Option<String>) -> Option<Seq<char>> {
    match o {
        Some(s) => Some(s@),
        None => None,
    }
}

/// The texts of the string items of an array, in order; other items are
/// skipped.
pub open spec fn str_items(a: Seq<JsonV>) -> Seq<Seq<char>>
    decreases a.len(),
{
    if a.len() == 0 {
        Seq::empty()
    } else {
        match a.last() {
            JsonV::Str(s) => str_items(a.drop_last()).push(s),
            _ => str_items(a.drop_last()),
        }
    }
}

pub proof fn lemma_key_index_bounds(fields: Seq<(Seq<char>, JsonV)>, key: Seq<char>)
    ensures
        key_index(fields, key) matches Some(i) ==> {
            &&& 0 <= i < fields.len()
            &&& fields[i].0 == key
            &&& forall|j: int| 0 <= j < i ==> fields[j].0 != key
        },
        key_index(fields, key) is None ==> forall|j: int|
            0 <= j < fields.len() ==> fields[j].0 != key,
    decreases fields.len(),
{
    if fields.len() > 0 {
        let d = fields.drop_last();
        lemma_key_index_bounds(d, key);
        assert(forall|j: int| 0 <= j < d.len() ==> d[j] == fields[j]);
        if key_index(d, key) is None {
            assert forall|j: int| 0 <= j < fields.len() - 1 implies fields[j].0 != key by {
                assert(d[j] == fields[j]);
            }
        }
    }
}

/// Characterises `key_index` by the first occurrence of the key.
pub proof fn lemma_key_index_first(fields: Seq<(Seq<char>, JsonV)>, key: Seq<char>, i: int)
    requires
        0 <= i < fields.len(),
        fields[i].0 == key,
        forall|j: int| 0 <= j < i ==> fields[j].0 != key,
    ensures
        key_index(fields, key) == Some(i),
{
    lemma_key_index_bounds(fields, key);
}

pub proof fn lemma_key_index_none(fields: Seq<(Seq<char>, JsonV)>, key: Seq<char>)
    requires
        forall|j: int| 0 <= j < fields.len() ==> fields[j].0 != key,
    ensures
        key_index(fields, key) is None,
{
    lemma_key_index_bounds(fields, key);
}

/// What an insertion into a field list leaves under each key.
pub proof fn lemma_fields_insert_get(fs: Seq<(Seq<char>, JsonV)>, k: Seq<char>, v: JsonV, k2: Seq<char>)
    ensures
        fields_get(fields_insert(fs, k, v), k2) == if k2 == k {
            Some(v)
        } else {
            fields_get(fs, k2)
        },
{
    let r = fields_insert(fs, k, v);
    lemma_key_index_bounds(fs, k);
    lemma_key_index_bounds(fs, k2);
    match key_index(fs, k) {
        Some(i) => {
            assert(r == fs.update(i, (k, v)));
            if k2 == k {
                lemma_key_index_first(r, k, i);
            } else {
                match key_index(fs, k2) {
                    Some(m) => {
                        assert(m != i);
                        assert forall|j: int| 0 <= j < m implies r[j].0 != k2 by {
                            if j != i {
                                assert(r[j] == fs[j]);
                            }
                        }
                        lemma_key_index_first(r, k2, m);
                    },
                    None => {
                        assert forall|j: int| 0 <= j < r.len() implies r[j].0 != k2 by {
                            if j != i {
                                assert(r[j] == fs[j]);
                            }
                        }
                        lemma_key_index_none(r, k2);
                    },
                }
            }
        },
        None => {
            assert(r == fs.push((k, v)));
            if k2 == k {
                lemma_key_index_first(r, k, fs.len() as int);
            } else {
                match key_index(fs, k2) {
                    Some(m) => {
                        lemma_key_index_first(r, k2, m);
                    },
                    None => {
                        lemma_key_index_none(r, k2);
                    },
                }
            }
        },
    }
}

/// A removal from a field list leaves the other keys as they were.
pub proof fn lemma_fields_remove_get(fs: Seq<(Seq<char>, JsonV)>, k: Seq<char>, k2: Seq<char>)
    requires
        k2 != k,
    ensures
        fields_get(fields_remove(fs, k), k2) == fields_get(fs, k2),
{
    let r = fields_remove(fs, k);
    lemma_key_index_bounds(fs, k);
    lemma_key_index_bounds(fs, k2);
    match key_index(fs, k) {
        Some(i) => {
            assert(r == fs.remove(i));
            match key_index(fs, k2) {
                Some(m) => {
                    assert(m != i);
                    if m < i {
                        lemma_key_index_first(r, k2, m);
                    } else {
                        assert forall|j: int| 0 <= j < m - 1 implies r[j].0 != k2 by {
                            if j < i {
                                assert(r[j] == fs[j]);
                            } else {
                                assert(r[j] == fs[j + 1]);
                            }
                        }
                        assert(r[m - 1] == fs[m]);
                        lemma_key_index_first(r, k2, m - 1);
                    }
                },
                None => {
                    assert forall|j: int| 0 <= j < r.len() implies r[j].0 != k2 by {
                        if j < i {
                            assert(r[j] == fs[j]);
                        } else {
                            assert(r[j] == fs[j + 1]);
                        }
                    }
                    lemma_key_index_none(r, k2);
                },
            }
        },
        None => {},
    }
}

pub proof fn lemma_view_arr(s: Seq<Json>)
    ensures
        view_arr(s).len() == s.len(),
        forall|i: int| 0 <= i < s.len() ==> #[trigger] view_arr(s)[i] == view_json(s[i]),
    decreases s.len(),
{
    if s.len() > 0 {
        lemma_view_arr(s.drop_last());
    }
}

pub proof fn lemma_view_obj(s: Seq<(String, Json)>)
    ensures
        view_obj(s).len() == s.len(),
        forall|i: int|
            0 <= i < s.len() ==> #[trigger] view_obj(s)[i] == (s[i].0@, view_json(s[i].1)),
    decreases s.len(),
{
    if s.len() > 0 {
        lemma_view_obj(s.drop_last());
    }
}

pub proof fn lemma_view_arr_push(s: Seq<Json>, x: Json)
    ensures
        view_arr(s.push(x)) == view_arr(s).push(view_json(x)),
{
    assert(s.push(x).drop_last() =~= s);
}

pub proof fn lemma_view_obj_push(s: Seq<(String, Json)>, x: (String, Json))
    ensures
        view_obj(s.push(x)) == view_obj(s).push((x.0@, view_json(x.1))),
{
    assert(s.push(x).drop_last() =~= s);
}

pub proof fn lemma_view_obj_update(s: Seq<(String, Json)>, i: int, x: (String, Json))
    requires
        0 <= i < s.len(),
    ensures
        view_obj(s.update(i, x)) == view_obj(s).update(i, (x.0@, view_json(x.1))),
{
    lemma_view_obj(s);
    lemma_view_obj(s.update(i, x));
    assert(view_obj(s.update(i, x)) =~= view_obj(s).update(i, (x.0@, view_json(x.1))));
}

pub proof fn lemma_view_obj_remove(s: Seq<(String, Json)>, i: int)
    requires
        0 <= i < s.len(),
    ensures
        view_obj(s.remove(i)) == view_obj(s).remove(i),
{
    lemma_view_obj(s);
    lemma_view_obj(s.remove(i));
    assert(view_obj(s.remove(i)) =~= view_obj(s).remove(i));
}

/// Whether two string slices hold the same characters.
pub(crate) fn str_eq(a: &str, b: &str) -> (r: bool)
    ensures
        r == (a@ == b@),
{
    let x = chars_of(a);
    let y = chars_of(b);
    if x.len() != y.len() {
        return false;
    }
    let mut i: usize = 0;
    while i < x.len()
        invariant
            0 <= i <= x@.len(),
            x@.len() == y@.len(),
            x@ == a@,
            y@ == b@,
            forall|j: int| 0 <= j < i ==> x@[j] == y@[j],
        decreases x@.len() - i,
    {
        if x[i] != y[i] {
            return false;
        }
        i += 1;
    }
    assert(x@ =~= y@);
    true
}

/// Calls `String::from_iter` on a slice of characters. The contract claims
/// the string holds exactly those characters, in order.
#[verifier::external_body]
pub(crate) fn chars_to_string(v: &[char]) -> (r: String)
    ensures
        r@ == v@,
{
    String::from_iter(v)
}

/// Names what `str::to_lowercase` returns: the Unicode lowercase mapping of
/// the text (the mapping for a character may hold more than one character).
pub uninterp spec fn spec_to_lowercase(s: Seq<char>) -> Seq<char>;

/// Calls `str::to_lowercase`. The contract claims only that the result is
/// `spec_to_lowercase` of the text; nothing is stated of the Unicode mapping
/// itself.
#[verifier::external_body]
pub(crate) fn to_lowercase(s: &str) -> (r: String)
    ensures
        r@ == spec_to_lowercase(s@),
{
    s.to_lowercase()
}

/// Concatenates two strings.
pub fn concat3(a: &str, sep: &str, b: &str) -> (r: String)
    ensures
        r@ == a@ + sep@ + b@,
{
    let mut r = String::from_str(a);
    r.append(sep);
    r.append(b);
    r
}

/// Concatenates two strings.
pub fn concat2(a: &str, b: &str) -> (r: String)
    ensures
        r@ == a@ + b@,
{
    let mut r = String::from_str(a);
    r.append(b);
    r
}

/// Whether `sub` occurs in `s`.
pub open spec fn contains_text(s: Seq<char>, sub: Seq<char>) -> bool {
    exists|i: int| 0 <= i && i + sub.len() <= s.len() && #[trigger] s.subrange(i, i + sub.len()) == sub
}

/// Whether `sub` occurs in `s`.
pub fn str_contains(s: &str, sub: &str) -> (r: bool)
    ensures
        r == contains_text(s@, sub@),
{
    let a = chars_of(s);
    let b = chars_of(sub);
    if b.len() > a.len() {
        return false;
    }
    let mut i: usize = 0;
    while i <= a.len() - b.len()
        invariant
            a@ == s@,
            b@ == sub@,
            b.len() <= a.len(),
            0 <= i <= a.len() - b.len() + 1,
            forall|k: int| 0 <= k < i ==> #[trigger] a@.subrange(k, k + b@.len()) != b@,
        decreases a.len() - i,
    {
        let mut j: usize = 0;
        let mut same = true;
        while j < b.len()
            invariant
                0 <= j <= b.len(),
                i + b.len() <= a.len(),
                same == (forall|m: int| 0 <= m < j ==> a@[i + m] == b@[m]),
            decreases b.len() - j,
        {
            if a[i + j] != b[j] {
                same = false;
            }
            j += 1;
        }
        if same {
            assert(a@.subrange(i as int, i + b@.len()) =~= b@);
            return true;
        }
        assert(a@.subrange(i as int, i + b@.len()) != b@) by {
            let m = choose|m: int| 0 <= m < b.len() && a@[i + m] != b@[m];
            assert(a@.subrange(i as int, i + b@.len())[m] == a@[i + m]);
        }
        i += 1;
    }
    assert forall|k: int| 0 <= k && k + sub@.len() <= s@.len() implies #[trigger] s@.subrange(k, k + sub@.len()) != sub@ by {
        assert(k < i);
    }
    false
}

/// A `String` holding the text of a literal.
pub fn string_of(s: &str) -> (r: String)
    ensures
        r@ == s@,
{
    String::from_str(s)
}

/// The characters of a string slice.
pub fn chars_of(s: &str) -> (v: Vec<char>)
    ensures
        v@ == s@,
{
    let mut v: Vec<char> = Vec::new();
    for c in it: s.chars()
        invariant
            v@ == it.seq().take(it.index() as int),
    {
        v.push(c);
    }
    v
}

/// Index of the first field with the given key.
pub fn find_key(fields: &Vec<(String, Json)>, key: &str) -> (r: Option<usize>)
    ensures
        r matches Some(i) ==> key_index(view_obj(fields@), key@) == Some(i as int) && i < fields@.len(),
        r is None ==> key_index(view_obj(fields@), key@) is None,
{
    proof {
        lemma_view_obj(fields@);
    }
    let mut i: usize = 0;
    while i < fields.len()
        invariant
            0 <= i <= fields.len(),
            view_obj(fields@).len() == fields@.len(),
            forall|k: int|
                0 <= k < fields@.len() ==> #[trigger] view_obj(fields@)[k] == (
                    fields@[k].0@,
                    view_json(fields@[k].1),
                ),
            forall|j: int| 0 <= j < i ==> view_obj(fields@)[j].0 != key@,
        decreases fields.len() - i,
    {
        if str_eq(fields[i].0.as_str(), key) {
            proof {
                lemma_key_index_first(view_obj(fields@), key@, i as int);
            }
            return Some(i);
        }
        i += 1;
    }
    proof {
        lemma_key_index_none(view_obj(fields@), key@);
    }
    None
}

impl Json {
    /// A string value holding the text of a literal.
    pub fn str_lit(s: &str) -> (r: Json)
        ensures
            r@ == JsonV::Str(s@),
    {
        Json::Str(string_of(s))
    }

    /// A number value holding the text of a literal.
    pub fn num_lit(s: &str) -> (r: Json)
        ensures
            r@ == JsonV::Num(s@),
    {
        Json::Num(string_of(s))
    }

    /// A deep copy.
    pub fn deep_clone(&self) -> (r: Json)
        ensures
            r@ == self@,
        decreases self,
    {
        match self {
            Json::Null => Json::Null,
            Json::Bool(b) => Json::Bool(*b),
            Json::Num(s) => Json::Num(s.clone()),
            Json::Str(s) => Json::Str(s.clone()),
            Json::Arr(v) => {
                let r = clone_arr(v);
                Json::Arr(r)
            },
            Json::Obj(v) => {
                let mut out: Vec<(String, Json)> = Vec::new();
                let mut i: usize = 0;
                while i < v.len()
                    invariant
                        0 <= i <= v.len(),
                        view_obj(out@) == view_obj(v@.take(i as int)),
                        *self == Json::Obj(*v),
                    decreases v.len() - i,
                {
                    assert(decreases_to!(*self => (*self)->Obj_0));
                    assert(decreases_to!((*self)->Obj_0 => (*self)->Obj_0@));
                    assert(decreases_to!((*self)->Obj_0@ => v@[i as int]));
                    assert(decreases_to!(v@[i as int] => v@[i as int].1));
                    let c = v[i].1.deep_clone();
                    let k = v[i].0.clone();
                    proof {
                        lemma_view_obj_push(out@, (k, c));
                        lemma_view_obj_push(v@.take(i as int), v@[i as int]);
                        assert(v@.take(i + 1) =~= v@.take(i as int).push(v@[i as int]));
                    }
                    out.push((k, c));
                    i += 1;
                }
                assert(v@.take(v.len() as int) =~= v@);
                Json::Obj(out)
            },
        }
    }

    /// The value of a field of an object.
    pub fn get(&self, key: &str) -> (r: Option<&Json>)
        ensures
            match r {
                Some(v) => self@.get(key@) == Some(v@),
                None => self@.get(key@) is None,
            },
    {
        match self {
            Json::Obj(fields) => {
                let idx = find_key(fields, key);
                match idx {
                    Some(i) => {
                        proof {
                            lemma_view_obj(fields@);
                        }
                        Some(&fields[i].1)
                    },
                    None => None,
                }
            },
            _ => None,
        }
    }

    /// The text of a string value.
    pub fn as_str(&self) -> (r: Option<&String>)
        ensures
            match r {
                Some(s) => self@.as_str() == Some(s@),
                None => self@.as_str() is None,
            },
    {
        match self {
            Json::Str(s) => Some(s),
            _ => None,
        }
    }

    /// The items of an array.
    pub fn as_array(&self) -> (r: Option<&Vec<Json>>)
        ensures
            match r {
                Some(v) => self@ == JsonV::Arr(view_arr(v@)),
                None => !(self@ is Arr),
            },
    {
        match self {
            Json::Arr(v) => Some(v),
            _ => None,
        }
    }

    /// The value of a boolean.
    pub fn as_bool(&self) -> (r: Option<bool>)
        ensures
            match r {
                Some(b) => self@ == JsonV::Bool(b),
                None => !(self@ is Bool),
            },
    {
        match self {
            Json::Bool(b) => Some(*b),
            _ => None,
        }
    }

    /// Whether the value is null.
    pub fn is_null(&self) -> (r: bool)
        ensures
            r == (self@ is Null),
    {
        match self {
            Json::Null => true,
            _ => false,
        }
    }

    /// The string stored under `key`, if any.
    pub fn get_str(&self, key: &str) -> (r: Option<&String>)
        ensures
            match r {
                Some(s) => self@.get_str(key@) == Some(s@),
                None => self@.get_str(key@) is None,
            },
    {
        match self.get(key) {
            Some(v) => v.as_str(),
            None => None,
        }
    }

    /// Whether `key` holds a present, non-null value.
    pub fn defines(&self, key: &str) -> (r: bool)
        ensures
            r == self@.defines(key@),
    {
        match self.get(key) {
            Some(v) => !v.is_null(),
            None => false,
        }
    }

    /// Inserts a field into an object: a present key keeps its place and takes
    /// the new value, a new key goes last. A non-object is left unchanged.
    pub fn insert(&mut self, key: &str, v: Json)
        ensures
            match old(self)@ {
                JsonV::Obj(fields) => final(self)@ == JsonV::Obj(fields_insert(fields, key@, v@)),
                _ => final(self)@ == old(self)@,
            },
    {
        match self {
            Json::Obj(fields) => {
                obj_insert(fields, key, v);
            },
            _ => {},
        }
    }

    /// Appends an item to an array. A non-array is left unchanged.
    pub fn push(&mut self, v: Json)
        ensures
            match old(self)@ {
                JsonV::Arr(items) => final(self)@ == JsonV::Arr(items.push(v@)),
                _ => final(self)@ == old(self)@,
            },
    {
        match self {
            Json::Arr(items) => {
                proof {
                    lemma_view_arr_push(items@, v);
                }
                items.push(v);
            },
            _ => {},
        }
    }
}

/// The value of a field, or `null` (the third argument) when it is missing.
pub fn at<'a>(v: &'a Json, key: &str, null: &'a Json) -> (r: &'a Json)
    requires
        null@ is Null,
    ensures
        r@ == v@.at(key@),
{
    match v.get(key) {
        Some(x) => x,
        None => null,
    }
}

/// A copy of the field under `key` when it is present and not null.
pub fn opt_field(v: &Json, key: &str) -> (r: Option<Json>)
    ensures
        opt_json(r) == v@.opt_field(key@),
{
    match v.get(key) {
        Some(x) => if x.is_null() {
            None
        } else {
            Some(x.deep_clone())
        },
        None => None,
    }
}

/// A copy of an optional value.
pub fn clone_opt(o: &Option<Json>) -> (r: Option<Json>)
    ensures
        opt_json(r) == opt_json(*o),
{
    match o {
        Some(j) => Some(j.deep_clone()),
        None => None,
    }
}

/// The texts of the string items of an array.
pub fn strings_of(a: &Vec<Json>) -> (r: Vec<String>)
    ensures
        r@.map_values(|s: String| s@) == str_items(view_arr(a@)),
{
    let mut out: Vec<String> = Vec::new();
    let mut i: usize = 0;
    proof {
        lemma_view_arr(a@);
    }
    while i < a.len()
        invariant
            0 <= i <= a.len(),
            view_arr(a@).len() == a@.len(),
            forall|k: int| 0 <= k < a@.len() ==> #[trigger] view_arr(a@)[k] == view_json(a@[k]),
            out@.map_values(|s: String| s@) == str_items(view_arr(a@).take(i as int)),
        decreases a.len() - i,
    {
        let ghost pre = view_arr(a@).take(i as int);
        assert(view_arr(a@).take(i + 1).drop_last() =~= pre);
        match &a[i] {
            Json::Str(s) => {
                out.push(s.clone());
                assert(out@.map_values(|s: String| s@) =~= str_items(pre).push(s@));
            },
            _ => {},
        }
        i += 1;
    }
    assert(view_arr(a@).take(a.len() as int) =~= view_arr(a@));
    out
}

/// Copies every item of an array.
pub fn clone_arr(v: &Vec<Json>) -> (r: Vec<Json>)
    ensures
        view_arr(r@) == view_arr(v@),
    decreases v,
{
    let mut out: Vec<Json> = Vec::new();
    let mut i: usize = 0;
    while i < v.len()
        invariant
            0 <= i <= v.len(),
            view_arr(out@) == view_arr(v@.take(i as int)),
        decreases v.len() - i,
    {
        assert(decreases_to!(*v => v@));
        assert(decreases_to!(v@ => v@[i as int]));
        let c = v[i].deep_clone();
        proof {
            lemma_view_arr_push(out@, c);
            lemma_view_arr_push(v@.take(i as int), v@[i as int]);
            assert(v@.take(i + 1) =~= v@.take(i as int).push(v@[i as int]));
        }
        out.push(c);
        i += 1;
    }
    assert(v@.take(v.len() as int) =~= v@);
    out
}

/// Inserts a field into an object's field list.
pub fn obj_insert(fields: &mut Vec<(String, Json)>, key: &str, v: Json)
    ensures
        view_obj(final(fields)@) == fields_insert(view_obj(old(fields)@), key@, v@),
{
    let k = string_of(key);
    match find_key(fields, key) {
        Some(i) => {
            proof {
                lemma_view_obj_update(fields@, i as int, (k, v));
            }
            fields.set(i, (k, v));
        },
        None => {
            proof {
                lemma_view_obj_push(fields@, (k, v));
            }
            fields.push((k, v));
        },
    }
}

/// Removes a field from an object's field list.
pub fn obj_remove(fields: &mut Vec<(String, Json)>, key: &str)
    ensures
        view_obj(final(fields)@) == fields_remove(view_obj(old(fields)@), key@),
{
    match find_key(fields, key) {
        Some(i) => {
            proof {
                lemma_view_obj_remove(fields@, i as int);
            }
            fields.remove(i);
        },
        None => {},
    }
}

/// Whether a value is a node `{ id, ... }` with the given id.
pub open spec fn is_node(v: JsonV, id: Seq<char>) -> bool {
    v.get_str("id"@) == Some(id)
}

/// Appends a field to an object's field list.
pub fn put(fields: &mut Vec<(String, Json)>, key: &str, v: Json)
    ensures
        view_obj(final(fields)@) == view_obj(old(fields)@).push((key@, v@)),
{
    let k = string_of(key);
    proof {
        lemma_view_obj_push(fields@, (k, v));
    }
    fields.push((k, v));
}

/// Builds an object node `{ id, def }`.
pub fn node(id: &str, def: Json) -> (r: Json)
    ensures
        r@ == JsonV::Obj(seq![("id"@, JsonV::Str(id@)), ("def"@, def@)]),
        is_node(r@, id@),
        r@.get("def"@) == Some(def@),
{
    let mut fields: Vec<(String, Json)> = Vec::new();
    let i = string_of("id");
    let d = string_of("def");
    let idv = Json::str_lit(id);
    proof {
        lemma_view_obj_push(fields@, (i, idv));
    }
    fields.push((i, idv));
    proof {
        lemma_view_obj_push(fields@, (d, def));
    }
    fields.push((d, def));
    let ghost fs = seq![("id"@, JsonV::Str(id@)), ("def"@, def@)];
    assert(view_obj(fields@) =~= fs);
    proof {
        lemma_key_index_first(fs, "id"@, 0);
        reveal_strlit("id");
        reveal_strlit("def");
        assert("id"@ != "def"@) by {
            assert("id"@[0] != "def"@[0]);
        }
        lemma_key_index_first(fs, "def"@, 1);
    }
    Json::Obj(fields)
}

/// Builds an object with one field.
pub fn obj1(k: &str, v: Json) -> (r: Json)
    ensures
        r@ == JsonV::Obj(seq![(k@, v@)]),
{
    let mut fields: Vec<(String, Json)> = Vec::new();
    let ks = string_of(k);
    proof {
        lemma_view_obj_push(fields@, (ks, v));
    }
    fields.push((ks, v));
    assert(view_obj(fields@) =~= seq![(k@, v@)]);
    Json::Obj(fields)
}

/// An array of strings.
pub fn str_array(items: &Vec<String>) -> (r: Json)
    ensures
        r@ is Arr,
        r@->Arr_0.len() == items@.len(),
        forall|i: int| 0 <= i < items@.len() ==> #[trigger] r@->Arr_0[i] == JsonV::Str(items@[i]@),
{
    let mut out: Vec<Json> = Vec::new();
    let mut i: usize = 0;
    while i < items.len()
        invariant
            0 <= i <= items.len(),
            out@.len() == i,
            view_arr(out@).len() == i,
            forall|j: int| 0 <= j < i ==> #[trigger] view_arr(out@)[j] == JsonV::Str(items@[j]@),
        decreases items.len() - i,
    {
        let s = Json::Str(items[i].clone());
        proof {
            lemma_view_arr_push(out@, s);
        }
        out.push(s);
        i += 1;
    }
    Json::Arr(out)
}

} // verus!
