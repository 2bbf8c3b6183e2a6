//! JSON values as the reducer reads them.
//!
//! [`Json`] is the library's own value: what an event payload or a tool call holds, taken apart into
//! plain strings and lists. Reading JSON text and writing it back is `serde_json`'s work, reached
//! through the wrappers at the top of this file.

use vstd::prelude::*;

verus! {

// ── The outside value ──────────────────────────────────────────

/// `serde_json`'s value, carried from one of its functions to another.
#[verifier::external_type_specification]
#[verifier::external_body]
pub struct ExValue(serde_json::Value);

/// `serde_json`'s number. Nothing here computes with one.
#[verifier::external_type_specification]
#[verifier::external_body]
pub struct ExNumber(serde_json::Number);

/// What a [`serde_json::Value`] holds.
pub uninterp spec fn value_tree(v: serde_json::Value) -> Tree;

/// How deep a [`serde_json::Value`] nests.
pub uninterp spec fn value_height(v: serde_json::Value) -> nat;

/// What `serde_json::from_str::<serde_json::Value>` reads from a text: the value it denotes, or
/// nothing where the text is not JSON.
pub uninterp spec fn read_json(text: Seq<char>) -> Option<Tree>;

/// The compact text that `serde_json::Value`'s `Display` writes for a value.
pub uninterp spec fn written(t: Tree) -> Seq<char>;

/// A [`serde_json::Value`] taken apart by one level.
pub enum Opened {
    Null,
    Bool(bool),
    Number(serde_json::Number),
    Text(String),
    Array(Vec<serde_json::Value>),
    Object(Vec<(String, serde_json::Value)>),
}

/// What an opened value holds.
pub open spec fn opened_tree(o: Opened) -> Tree {
    match o {
        Opened::Null => Tree::Null,
        Opened::Bool(b) => Tree::Bool(b),
        Opened::Number(n) => Tree::Number(n),
        Opened::Text(s) => Tree::Text(s@),
        Opened::Array(v) => Tree::Array(Seq::new(v@.len(), |i: int| value_tree(v@[i]))),
        Opened::Object(v) => Tree::Object(
            Seq::new(v@.len(), |i: int| (v@[i].0@, value_tree(v@[i].1))),
        ),
    }
}

/// Every part of an opened value nests less than `h` deep.
pub open spec fn parts_below(o: Opened, h: nat) -> bool {
    match o {
        Opened::Array(v) => forall|i: int|
            0 <= i < v@.len() ==> value_height(#[trigger] v@[i]) < h,
        Opened::Object(v) => forall|i: int|
            0 <= i < v@.len() ==> value_height((#[trigger] v@[i]).1) < h,
        _ => true,
    }
}

/// Takes a `serde_json::Value` apart by matching on its variants. What it held is what the parts
/// hold, in the order in which `serde_json::Map` hands its entries out, and every part nests less
/// deep than the whole.
#[verifier::external_body]
fn open_value(v: serde_json::Value) -> (o: Opened)
    ensures
        opened_tree(o) == value_tree(v),
        parts_below(o, value_height(v)),
{
    match v {
        serde_json::Value::Null => Opened::Null,
        serde_json::Value::Bool(b) => Opened::Bool(b),
        serde_json::Value::Number(n) => Opened::Number(n),
        serde_json::Value::String(s) => Opened::Text(s),
        serde_json::Value::Array(a) => Opened::Array(a),
        serde_json::Value::Object(m) => Opened::Object(m.into_iter().collect()),
    }
}

/// Builds a `serde_json::Value` from its parts. `serde_json::Map` keeps its entries in the order of
/// their keys, one for each key: of two entries with one key the later one stays.
#[verifier::external_body]
fn close_value(o: Opened) -> (v: serde_json::Value)
    ensures
        value_tree(v) == (match opened_tree(o) {
            Tree::Object(fields) => Tree::Object(ordered(fields)),
            t => t,
        }),
{
    match o {
        Opened::Null => serde_json::Value::Null,
        Opened::Bool(b) => serde_json::Value::Bool(b),
        Opened::Number(n) => serde_json::Value::Number(n),
        Opened::Text(s) => serde_json::Value::String(s),
        Opened::Array(a) => serde_json::Value::Array(a),
        Opened::Object(m) => serde_json::Value::Object(m.into_iter().collect()),
    }
}

/// `serde_json::from_str::<serde_json::Value>`, its error dropped.
#[verifier::external_body]
fn read_value(text: &str) -> (r: Option<serde_json::Value>)
    ensures
        match r {
            Some(v) => read_json(text@) == Some(value_tree(v)),
            None => read_json(text@) is None,
        },
{
    serde_json::from_str::<serde_json::Value>(text).ok()
}

/// `serde_json::Value::to_string`.
#[verifier::external_body]
fn write_value(v: &serde_json::Value) -> (s: String)
    ensures
        s@ == written(value_tree(*v)),
{
    v.to_string()
}

/// `serde_json::Number::clone`.
#[verifier::external_body]
fn dup_number(n: &serde_json::Number) -> (r: serde_json::Number)
    ensures
        r == *n,
{
    n.clone()
}

// ── The model ──────────────────────────────────────────────────

/// A JSON value in the abstract.
#[verifier::ext_equal]
pub enum Tree {
    Null,
    Bool(bool),
    Number(serde_json::Number),
    Text(Seq<char>),
    Array(Seq<Tree>),
    Object(Seq<(Seq<char>, Tree)>),
}

/// The order of keys: by the first code point that differs.
pub open spec fn key_before(a: Seq<char>, b: Seq<char>) -> bool
    decreases a.len(),
{
    b.len() > 0 && (a.len() == 0 || (a[0] as u32) < (b[0] as u32) || (a[0] == b[0] && key_before(
        a.drop_first(),
        b.drop_first(),
    )))
}

/// Fields in key order with `k` set to `v`.
pub open spec fn put(fields: Seq<(Seq<char>, Tree)>, k: Seq<char>, v: Tree) -> Seq<
    (Seq<char>, Tree),
>
    decreases fields.len(),
{
    if fields.len() == 0 {
        seq![(k, v)]
    } else if fields[0].0 == k {
        fields.update(0, (k, v))
    } else if key_before(k, fields[0].0) {
        seq![(k, v)] + fields
    } else {
        seq![fields[0]] + put(fields.drop_first(), k, v)
    }
}

/// Fields brought into key order, the later of two with one key kept.
pub open spec fn ordered(fields: Seq<(Seq<char>, Tree)>) -> Seq<(Seq<char>, Tree)>
    decreases fields.len(),
{
    if fields.len() == 0 {
        Seq::empty()
    } else {
        put(ordered(fields.drop_last()), fields.last().0, fields.last().1)
    }
}

/// Fields with every value in them brought into order.
pub open spec fn fields_in_order(v: Seq<(Seq<char>, Tree)>) -> Seq<(Seq<char>, Tree)>
    decreases v,
{
    Seq::new(
        v.len(),
        |i: int|
            if 0 <= i < v.len() {
                (v[i].0, v[i].1.in_order())
            } else {
                (Seq::empty(), Tree::Null)
            },
    )
}

impl Tree {
    /// The value with every object in it brought into key order.
    pub open spec fn in_order(self) -> Tree
        decreases self,
    {
        match self {
            Tree::Array(v) => Tree::Array(
                Seq::new(
                    v.len(),
                    |i: int|
                        if 0 <= i < v.len() {
                            v[i].in_order()
                        } else {
                            Tree::Null
                        },
                ),
            ),
            Tree::Object(v) => Tree::Object(ordered(fields_in_order(v))),
            t => t,
        }
    }

    /// The string that it is, if it is one.
    pub open spec fn text(self) -> Option<Seq<char>> {
        match self {
            Tree::Text(s) => Some(s),
            _ => None,
        }
    }

    /// The value under a key, if it is an object that has it.
    pub open spec fn at(self, key: Seq<char>) -> Option<Tree> {
        match self {
            Tree::Object(fields) => field_from(fields, key, 0),
            _ => None,
        }
    }

    /// The string under a key, if there is one.
    pub open spec fn text_at(self, key: Seq<char>) -> Option<Seq<char>> {
        match self.at(key) {
            Some(t) => t.text(),
            None => None,
        }
    }
}

/// The value of the first field at or after `i` with that key.
pub open spec fn field_from(fields: Seq<(Seq<char>, Tree)>, key: Seq<char>, i: int) -> Option<Tree>
    decreases fields.len() - i,
{
    if i < 0 || i >= fields.len() {
        None
    } else if fields[i].0 == key {
        Some(fields[i].1)
    } else {
        field_from(fields, key, i + 1)
    }
}

// ── The value ──────────────────────────────────────────────────

/// A JSON value. An object's fields stand in the order in which they are listed.
pub enum Json {
    Null,
    Bool(bool),
    Number(serde_json::Number),
    Text(String),
    Array(Vec<Json>),
    Object(Vec<(String, Json)>),
}

impl View for Json {
    type V = Tree;

    open spec fn view(&self) -> Tree {
        self.tree()
    }
}

impl Json {
    /// What the value holds.
    pub open spec fn tree(self) -> Tree
        decreases self,
    {
        match self {
            Json::Null => Tree::Null,
            Json::Bool(b) => Tree::Bool(b),
            Json::Number(n) => Tree::Number(n),
            Json::Text(s) => Tree::Text(s@),
            Json::Array(v) => Tree::Array(
                Seq::new(
                    v@.len(),
                    |i: int|
                        if 0 <= i < v@.len() {
                            v@[i].tree()
                        } else {
                            Tree::Null
                        },
                ),
            ),
            Json::Object(v) => Tree::Object(
                Seq::new(
                    v@.len(),
                    |i: int|
                        if 0 <= i < v@.len() {
                            (v@[i].0@, v@[i].1.tree())
                        } else {
                            (Seq::empty(), Tree::Null)
                        },
                ),
            ),
        }
    }

    /// The library's form of a `serde_json` value.
    pub fn from_value(v: serde_json::Value) -> (j: Json)
        ensures
            j@ == value_tree(v),
        decreases value_height(v),
    {
        let o = open_value(v);
        let ghost whole = opened_tree(o);
        match o {
            Opened::Null => Json::Null,
            Opened::Bool(b) => Json::Bool(b),
            Opened::Number(n) => Json::Number(n),
            Opened::Text(s) => Json::Text(s),
            Opened::Array(rest) => {
                let ghost all = rest@;
                let mut rest = rest;
                let mut out: Vec<Json> = Vec::new();
                while rest.len() > 0
                    invariant
                        rest@ == all.skip(out@.len() as int),
                        out@.len() <= all.len(),
                        forall|i: int|
                            0 <= i < all.len() ==> value_height(#[trigger] all[i]) < value_height(v),
                        forall|i: int|
                            0 <= i < out@.len() ==> (#[trigger] out@[i])@ == value_tree(all[i]),
                    decreases rest@.len(),
                {
                    assert(rest@[0] == all[out@.len() as int]);
                    let x = rest.remove(0);
                    out.push(Json::from_value(x));
                    assert(rest@ =~= all.skip(out@.len() as int));
                }
                let j = Json::Array(out);
                assert(j.tree()->Array_0 =~= whole->Array_0);
                j
            },
            Opened::Object(rest) => {
                let ghost all = rest@;
                let mut rest = rest;
                let mut out: Vec<(String, Json)> = Vec::new();
                while rest.len() > 0
                    invariant
                        rest@ == all.skip(out@.len() as int),
                        out@.len() <= all.len(),
                        forall|i: int|
                            0 <= i < all.len() ==> value_height((#[trigger] all[i]).1)
                                < value_height(v),
                        forall|i: int|
                            0 <= i < out@.len() ==> (#[trigger] out@[i]).0 == all[i].0
                                && out@[i].1@ == value_tree(all[i].1),
                    decreases rest@.len(),
                {
                    assert(rest@[0] == all[out@.len() as int]);
                    let (k, x) = rest.remove(0);
                    out.push((k, Json::from_value(x)));
                    assert(rest@ =~= all.skip(out@.len() as int));
                }
                let j = Json::Object(out);
                assert(j.tree()->Object_0 =~= whole->Object_0);
                j
            },
        }
    }

    /// The `serde_json` form of the value.
    pub fn to_value(&self) -> (v: serde_json::Value)
        ensures
            value_tree(v) == self@.in_order(),
        decreases self,
    {
        match self {
            Json::Null => close_value(Opened::Null),
            Json::Bool(b) => close_value(Opened::Bool(*b)),
            Json::Number(n) => close_value(Opened::Number(dup_number(n))),
            Json::Text(s) => close_value(Opened::Text(s.clone())),
            Json::Array(items) => {
                let mut out: Vec<serde_json::Value> = Vec::new();
                let mut i: usize = 0;
                while i < items.len()
                    invariant
                        i == out@.len(),
                        i <= items@.len(),
                        *self == Json::Array(*items),
                        forall|j: int|
                            0 <= j < i ==> value_tree(#[trigger] out@[j]) == items@[j]@.in_order(),
                    decreases items@.len() - i,
                {
                    assert(decreases_to!(*self => self->Array_0@[i as int]));
                    let x = items[i].to_value();
                    out.push(x);
                    i += 1;
                }
                let o = Opened::Array(out);
                assert(opened_tree(o)->Array_0 =~= self@.in_order()->Array_0);
                close_value(o)
            },
            Json::Object(fields) => {
                let mut out: Vec<(String, serde_json::Value)> = Vec::new();
                let mut i: usize = 0;
                while i < fields.len()
                    invariant
                        i == out@.len(),
                        i <= fields@.len(),
                        *self == Json::Object(*fields),
                        forall|j: int|
                            0 <= j < i ==> (#[trigger] out@[j]).0 == fields@[j].0 && value_tree(
                                out@[j].1,
                            ) == fields@[j].1@.in_order(),
                    decreases fields@.len() - i,
                {
                    assert(decreases_to!(*self => self->Object_0@[i as int].1));
                    let x = fields[i].1.to_value();
                    out.push((fields[i].0.clone(), x));
                    i += 1;
                }
                let o = Opened::Object(out);
                assert(opened_tree(o)->Object_0 =~= fields_in_order(self@->Object_0));
                close_value(o)
            },
        }
    }

    /// The value that a JSON text denotes, or `None` where the text is not JSON.
    pub fn parse(text: &str) -> (r: Option<Json>)
        ensures
            match r {
                Some(j) => read_json(text@) == Some(j@),
                None => read_json(text@) is None,
            },
    {
        match read_value(text) {
            Some(v) => Some(Json::from_value(v)),
            None => None,
        }
    }

    /// The value as compact JSON text.
    pub fn to_text(&self) -> (s: String)
        ensures
            s@ == written(self@.in_order()),
    {
        let v = self.to_value();
        write_value(&v)
    }

    /// The string that the value is, if it is one.
    pub fn as_text(&self) -> (r: Option<&String>)
        ensures
            match r {
                Some(s) => self@.text() == Some(s@),
                None => self@.text() is None,
            },
    {
        match self {
            Json::Text(s) => Some(s),
            _ => None,
        }
    }

    /// The value under `key`, if this is an object that has one.
    pub fn get(&self, key: &str) -> (r: Option<&Json>)
        ensures
            match r {
                Some(j) => self@.at(key@) == Some(j@),
                None => self@.at(key@) is None,
            },
    {
        match self {
            Json::Object(fields) => {
                let wanted: String = key.to_owned();
                let mut i: usize = 0;
                while i < fields.len()
                    invariant
                        i <= fields@.len(),
                        wanted@ == key@,
                        *self == Json::Object(*fields),
                        self@->Object_0.len() == fields@.len(),
                        self@.at(key@) == field_from(self@->Object_0, key@, i as int),
                    decreases fields@.len() - i,
                {
                    assert(self@->Object_0[i as int] == (
                        fields@[i as int].0@,
                        fields@[i as int].1.tree(),
                    ));
                    if fields[i].0 == wanted {
                        return Some(&fields[i].1);
                    }
                    i += 1;
                }
                None
            },
            _ => None,
        }
    }

    /// The string under `key`, if there is one.
    pub fn get_text(&self, key: &str) -> (r: Option<&String>)
        ensures
            match r {
                Some(s) => self@.text_at(key@) == Some(s@),
                None => self@.text_at(key@) is None,
            },
    {
        match self.get(key) {
            Some(j) => j.as_text(),
            None => None,
        }
    }
}

} // verus!
