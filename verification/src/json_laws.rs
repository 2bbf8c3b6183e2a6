//! Laws of JSON values: what a key gives, and what bringing a value into order keeps.

use crate::json;
use crate::json::Tree;
use vstd::prelude::*;

verus! {

proof fn lemma_first(fields: Seq<(Seq<char>, Tree)>, key: Seq<char>, i: int, k: int)
    requires
        0 <= i <= k < fields.len(),
        fields[k].0 == key,
        forall|j: int| i <= j < k ==> (#[trigger] fields[j]).0 != key,
    ensures
        json::field_from(fields, key, i) == Some(fields[k].1),
    decreases k - i,
{
    if i < k {
        lemma_first(fields, key, i + 1, k);
    }
}

proof fn lemma_none(fields: Seq<(Seq<char>, Tree)>, key: Seq<char>, i: int)
    requires
        0 <= i <= fields.len(),
        forall|j: int| i <= j < fields.len() ==> (#[trigger] fields[j]).0 != key,
    ensures
        json::field_from(fields, key, i) is None,
    decreases fields.len() - i,
{
    if i < fields.len() {
        lemma_none(fields, key, i + 1);
    }
}

/// A key gives the value of the first field under it; an object that lacks the key gives nothing, and
/// so does whatever is no object.
pub proof fn law_a_key_gives_its_field(t: Tree, fields: Seq<(Seq<char>, Tree)>, key: Seq<char>, k: int)
    ensures
        0 <= k < fields.len() && fields[k].0 == key && (forall|j: int|
            0 <= j < k ==> (#[trigger] fields[j]).0 != key) ==> Tree::Object(fields).at(key)
            == Some(fields[k].1),
        (forall|j: int| 0 <= j < fields.len() ==> (#[trigger] fields[j]).0 != key) ==> Tree::Object(
            fields,
        ).at(key) is None,
        !(t is Object) ==> t.at(key) is None,
{
    if 0 <= k < fields.len() && fields[k].0 == key && (forall|j: int|
        0 <= j < k ==> (#[trigger] fields[j]).0 != key) {
        lemma_first(fields, key, 0, k);
    }
    if forall|j: int| 0 <= j < fields.len() ==> (#[trigger] fields[j]).0 != key {
        lemma_none(fields, key, 0);
    }
}

/// A key gives a string exactly where its value is one, and then that string.
pub proof fn law_a_key_gives_a_string(t: Tree, key: Seq<char>)
    ensures
        t.text_at(key) == (match t.at(key) {
            Some(Tree::Text(s)) => Some(s),
            _ => None,
        }),
{
}

proof fn lemma_code_points(c: char, d: char)
    ensures
        c != d ==> c as u32 != d as u32,
{
}

/// Keys stand in the order of their code points: of two keys that differ exactly one comes first, and
/// no key before itself.
pub proof fn law_keys_have_an_order(a: Seq<char>, b: Seq<char>)
    ensures
        a != b ==> (json::key_before(a, b) <==> !json::key_before(b, a)),
        !json::key_before(a, a),
    decreases a.len(),
{
    if a.len() > 0 {
        law_keys_have_an_order(a.drop_first(), a.drop_first());
        if b.len() > 0 {
            law_keys_have_an_order(a.drop_first(), b.drop_first());
            let x = a.drop_first();
            let y = b.drop_first();
            if a[0] == b[0] {
                assert(json::key_before(a, b) == json::key_before(x, y));
                assert(json::key_before(b, a) == json::key_before(y, x));
                if x == y {
                    assert(a =~= seq![a[0]] + x);
                    assert(b =~= seq![b[0]] + y);
                }
            } else {
                lemma_code_points(a[0], b[0]);
                assert(json::key_before(a, b) == ((a[0] as u32) < (b[0] as u32)));
                assert(json::key_before(b, a) == ((b[0] as u32) < (a[0] as u32)));
            }
        }
    }
    if a.len() == 0 && b.len() == 0 {
        assert(a =~= b);
    }
}

proof fn lemma_before_before(a: Seq<char>, b: Seq<char>, c: Seq<char>)
    requires
        json::key_before(a, b),
        json::key_before(b, c),
    ensures
        json::key_before(a, c),
    decreases a.len(),
{
    if a.len() > 0 && b.len() > 0 && a[0] == b[0] && b[0] == c[0] {
        lemma_before_before(a.drop_first(), b.drop_first(), c.drop_first());
    }
}

/// The keys of fields stand in order, none twice.
pub open spec fn sorted(fields: Seq<(Seq<char>, Tree)>) -> bool {
    forall|i: int, j: int|
        0 <= i < j < fields.len() ==> json::key_before(
            (#[trigger] fields[i]).0,
            (#[trigger] fields[j]).0,
        )
}

proof fn lemma_put(fields: Seq<(Seq<char>, Tree)>, k: Seq<char>, v: Tree, other: Seq<char>)
    requires
        sorted(fields),
    ensures
        sorted(json::put(fields, k, v)),
        json::field_from(json::put(fields, k, v), k, 0) == Some(v),
        other != k ==> json::field_from(json::put(fields, k, v), other, 0) == json::field_from(
            fields,
            other,
            0,
        ),
        forall|i: int|
            0 <= i < json::put(fields, k, v).len() ==> (#[trigger] json::put(fields, k, v)[i]).0
                == k || exists|j: int|
                0 <= j < fields.len() && (#[trigger] fields[j]).0 == json::put(fields, k, v)[i].0,
    decreases fields.len(),
{
    let all = json::put(fields, k, v);
    if fields.len() == 0 {
        assert(all[0].0 == k);
        lemma_first(all, k, 0, 0);
        if other != k {
            lemma_none(all, other, 0);
        }
    } else if fields[0].0 == k {
        assert forall|i: int, j: int| 0 <= i < j < all.len() implies json::key_before(
            (#[trigger] all[i]).0,
            (#[trigger] all[j]).0,
        ) by {
            assert(fields[i].0 == all[i].0);
            assert(fields[j].0 == all[j].0);
        }
        lemma_first(all, k, 0, 0);
        if other != k {
            lemma_same_from(fields, all, other, 1, 1);
        }
        assert forall|i: int| 0 <= i < all.len() implies (#[trigger] all[i]).0 == k || exists|j: int|
            0 <= j < fields.len() && (#[trigger] fields[j]).0 == all[i].0 by {
            assert(fields[i].0 == all[i].0);
        }
    } else if json::key_before(k, fields[0].0) {
        assert forall|i: int, j: int| 0 <= i < j < all.len() implies json::key_before(
            (#[trigger] all[i]).0,
            (#[trigger] all[j]).0,
        ) by {
            assert(all[j] == fields[j - 1]);
            if i > 0 {
                assert(all[i] == fields[i - 1]);
            } else if j > 1 {
                lemma_before_before(k, fields[0].0, fields[j - 1].0);
            }
        }
        lemma_first(all, k, 0, 0);
        if other != k {
            lemma_same_from(fields, all, other, 0, 1);
        }
        assert forall|i: int| 0 <= i < all.len() implies (#[trigger] all[i]).0 == k || exists|j: int|
            0 <= j < fields.len() && (#[trigger] fields[j]).0 == all[i].0 by {
            if i > 0 {
                assert(fields[i - 1].0 == all[i].0);
            }
        }
    } else {
        let tail = fields.drop_first();
        let rest = json::put(tail, k, v);
        assert forall|i: int, j: int| 0 <= i < j < tail.len() implies json::key_before(
            (#[trigger] tail[i]).0,
            (#[trigger] tail[j]).0,
        ) by {
            assert(tail[i] == fields[i + 1] && tail[j] == fields[j + 1]);
        }
        lemma_put(tail, k, v, other);
        law_keys_have_an_order(k, fields[0].0);
        assert(json::key_before(fields[0].0, k));
        assert forall|i: int, j: int| 0 <= i < j < all.len() implies json::key_before(
            (#[trigger] all[i]).0,
            (#[trigger] all[j]).0,
        ) by {
            assert(all[j] == rest[j - 1]);
            if i > 0 {
                assert(all[i] == rest[i - 1]);
            } else if rest[j - 1].0 != k {
                let q = choose|q: int|
                    0 <= q < tail.len() && (#[trigger] tail[q]).0 == rest[j - 1].0;
                assert(fields[q + 1] == tail[q]);
            }
        }
        lemma_same_from(rest, all, k, 0, 1);
        if other != k {
            lemma_same_from(rest, all, other, 0, 1);
            lemma_same_from(tail, fields, other, 0, 1);
        }
        assert forall|i: int| 0 <= i < all.len() implies (#[trigger] all[i]).0 == k || exists|j: int|
            0 <= j < fields.len() && (#[trigger] fields[j]).0 == all[i].0 by {
            if i > 0 {
                assert(all[i] == rest[i - 1]);
                if rest[i - 1].0 != k {
                    let q = choose|q: int|
                        0 <= q < tail.len() && (#[trigger] tail[q]).0 == rest[i - 1].0;
                    assert(fields[q + 1] == tail[q]);
                }
            } else {
                assert(fields[0].0 == all[0].0);
            }
        }
    }
}

proof fn lemma_same_from(
    a: Seq<(Seq<char>, Tree)>,
    b: Seq<(Seq<char>, Tree)>,
    key: Seq<char>,
    i: int,
    j: int,
)
    requires
        0 <= i <= a.len(),
        0 <= j <= b.len(),
        a.len() - i == b.len() - j,
        forall|x: int| i <= x < a.len() ==> #[trigger] a[x] == b[x + (j - i)],
    ensures
        json::field_from(a, key, i) == json::field_from(b, key, j),
    decreases a.len() - i,
{
    if i < a.len() {
        assert(a[i] == b[i + (j - i)]);
        lemma_same_from(a, b, key, i + 1, j + 1);
    }
}

/// Fields that are brought into order stand in the order of their keys, none twice; and each key
/// keeps the value that was set last.
pub proof fn law_order_keeps_the_last_value(
    fields: Seq<(Seq<char>, Tree)>,
    k: Seq<char>,
    v: Tree,
    other: Seq<char>,
)
    ensures
        sorted(json::ordered(fields)),
        json::field_from(json::ordered(fields.push((k, v))), k, 0) == Some(v),
        other != k ==> json::field_from(json::ordered(fields.push((k, v))), other, 0)
            == json::field_from(json::ordered(fields), other, 0),
        json::ordered(Seq::empty()) == Seq::<(Seq<char>, Tree)>::empty(),
    decreases fields.len(),
{
    let pushed = fields.push((k, v));
    assert(pushed.drop_last() =~= fields);
    if fields.len() > 0 {
        let last = fields.last();
        law_order_keeps_the_last_value(fields.drop_last(), last.0, last.1, other);
        lemma_put(json::ordered(fields.drop_last()), last.0, last.1, other);
    }
    lemma_put(json::ordered(fields), k, v, other);
}

/// Bringing a value into order changes nothing but the order of its fields: a list keeps its items
/// in their places, and what is neither a list nor an object stays as it is.
pub proof fn law_only_fields_are_reordered(t: Tree, items: Seq<Tree>, i: int)
    ensures
        !(t is Array) && !(t is Object) ==> t.in_order() == t,
        Tree::Array(items).in_order() is Array,
        Tree::Array(items).in_order()->Array_0.len() == items.len(),
        0 <= i < items.len() ==> Tree::Array(items).in_order()->Array_0[i] == items[i].in_order(),
{
}

/// An object that is brought into order has its fields in the order of their keys, each value in
/// order in turn.
pub proof fn law_an_object_is_brought_into_order(fields: Seq<(Seq<char>, Tree)>)
    ensures
        Tree::Object(fields).in_order() is Object,
        sorted(Tree::Object(fields).in_order()->Object_0),
        Tree::Object(fields).in_order() == Tree::Object(
            json::ordered(
                Seq::new(fields.len(), |i: int| (fields[i].0, fields[i].1.in_order())),
            ),
        ),
{
    let each = Seq::new(fields.len(), |i: int| (fields[i].0, fields[i].1.in_order()));
    assert(json::fields_in_order(fields) =~= each);
    law_order_keeps_the_last_value(each, Seq::empty(), Tree::Null, Seq::empty());
}

} // verus!
