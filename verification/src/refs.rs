//! References by id or name, and the small tables they are looked up in.

use crate::text;
use vstd::prelude::*;

verus! {

broadcast use text::lemma_views_push;

// ── Resolving a reference ──────────────────────────────────────

/// What a reference to a project or an agent came to.
#[derive(Debug, PartialEq, Eq)]
pub enum RefChoice {
    /// Unset: the caller falls back to its own default.
    Unset,
    Resolved(String),
    /// Asked for, but matching no id or name.
    Unresolved(String),
}

/// A [`RefChoice`] in the abstract.
#[verifier::ext_equal]
pub enum ChoiceView {
    Unset,
    Resolved(Seq<char>),
    Unresolved(Seq<char>),
}

impl View for RefChoice {
    type V = ChoiceView;

    open spec fn view(&self) -> ChoiceView {
        match self {
            RefChoice::Unset => ChoiceView::Unset,
            RefChoice::Resolved(s) => ChoiceView::Resolved(s@),
            RefChoice::Unresolved(s) => ChoiceView::Unresolved(s@),
        }
    }
}

/// A canonical dashed UUID: groups of 8, 4, 4, 4 and 12 hexadecimal digits.
pub open spec fn is_uuid(s: Seq<char>) -> bool {
    &&& s.len() == 36
    &&& forall|i: int|
        0 <= i < 36 ==> if i == 8 || i == 13 || i == 18 || i == 23 {
            #[trigger] s[i] == '-'
        } else {
            text::is_hex(s[i])
        }
}

/// Some entry has that id.
pub open spec fn knows_id(known: Seq<(Seq<char>, Seq<char>)>, id: Seq<char>) -> bool {
    exists|i: int| 0 <= i < known.len() && (#[trigger] known[i]).0 == id
}

/// The id of the first entry at or after `i` with that name, up to ASCII case.
pub open spec fn named_from(
    known: Seq<(Seq<char>, Seq<char>)>,
    name: Seq<char>,
    i: int,
) -> Option<Seq<char>>
    decreases known.len() - i,
{
    if i < 0 || i >= known.len() {
        None
    } else if text::lowered(known[i].1) == text::lowered(name) {
        Some(known[i].0)
    } else {
        named_from(known, name, i + 1)
    }
}

/// What a reference comes to against a list of ids and names.
pub open spec fn choice(wanted: Seq<char>, known: Seq<(Seq<char>, Seq<char>)>) -> ChoiceView {
    let w = text::trimmed(wanted);
    if w.len() == 0 {
        ChoiceView::Unset
    } else if is_uuid(w) || knows_id(known, w) {
        ChoiceView::Resolved(w)
    } else {
        match named_from(known, w, 0) {
            Some(id) => ChoiceView::Resolved(id),
            None => ChoiceView::Unresolved(w),
        }
    }
}

/// A canonical dashed UUID, which is what Attacca ids are. Anything else still resolves through the
/// name list, so this only decides whether that list can be skipped.
pub fn looks_like_uuid(s: &str) -> (r: bool)
    ensures
        r == is_uuid(s@),
{
    let v = text::chars_of(s);
    if v.len() != 36 {
        return false;
    }
    let mut i: usize = 0;
    while i < 36
        invariant
            i <= 36,
            v@ == s@,
            v@.len() == 36,
            forall|j: int|
                0 <= j < i ==> if j == 8 || j == 13 || j == 18 || j == 23 {
                    #[trigger] s@[j] == '-'
                } else {
                    text::is_hex(s@[j])
                },
        decreases 36 - i,
    {
        if i == 8 || i == 13 || i == 18 || i == 23 {
            if v[i] != '-' {
                return false;
            }
        } else if !text::hex(v[i]) {
            assert(!text::is_hex(s@[i as int]));
            return false;
        }
        i += 1;
    }
    true
}

/// Resolve an id-or-name reference against a `(id, name)` list.
///
/// A UUID resolves on its own without consulting `known`. That matters because `known` is filled in
/// asynchronously on connect: checking the list first would make a perfectly good id fail to resolve
/// during the round trip after launch. A name has no choice but to wait for the list.
pub fn resolve_ref(wanted: &str, known: &[(String, String)]) -> (r: RefChoice)
    ensures
        r@ == choice(wanted@, text::views(known@)),
{
    let w = text::trim(wanted);
    if w.unicode_len() == 0 {
        return RefChoice::Unset;
    }
    if looks_like_uuid(w) {
        return RefChoice::Resolved(w.to_owned());
    }
    let ghost all = text::views(known@);
    let mut i: usize = 0;
    while i < known.len()
        invariant
            i <= known@.len(),
            all == text::views(known@),
            w@ == text::trimmed(wanted@),
            w@.len() > 0,
            forall|j: int| 0 <= j < i ==> (#[trigger] all[j]).0 != w@,
        decreases known@.len() - i,
    {
        assert(all[i as int].0 == known@[i as int].0@);
        if text::same(known[i].0.as_str(), w) {
            return RefChoice::Resolved(w.to_owned());
        }
        i += 1;
    }
    let mut k: usize = 0;
    while k < known.len()
        invariant
            k <= known@.len(),
            all == text::views(known@),
            w@ == text::trimmed(wanted@),
            w@.len() > 0,
            !is_uuid(w@),
            !knows_id(all, w@),
            named_from(all, w@, 0) == named_from(all, w@, k as int),
        decreases known@.len() - k,
    {
        assert(all[k as int] == (known@[k as int].0@, known@[k as int].1@));
        if text::same_ignoring_case(known[k].1.as_str(), w) {
            return RefChoice::Resolved(known[k].0.clone());
        }
        k += 1;
    }
    RefChoice::Unresolved(w.to_owned())
}

/// A UUID resolves to itself whatever the list holds.
pub proof fn law_a_uuid_resolves_without_the_list(
    wanted: Seq<char>,
    known: Seq<(Seq<char>, Seq<char>)>,
)
    requires
        is_uuid(text::trimmed(wanted)),
    ensures
        choice(wanted, known) == ChoiceView::Resolved(text::trimmed(wanted)),
{
}

/// A reference that was asked for is never silently replaced: it resolves to itself, or to an id
/// listed under that name, or is reported as it was given.
pub proof fn law_a_reference_is_never_substituted(
    wanted: Seq<char>,
    known: Seq<(Seq<char>, Seq<char>)>,
)
    ensures
        choice(wanted, known) is Unset <==> text::is_blank(wanted),
        choice(wanted, known) matches ChoiceView::Resolved(id) ==> id == text::trimmed(wanted) || (
        exists|i: int|
            0 <= i < known.len() && (#[trigger] known[i]).0 == id && text::lowered(known[i].1)
                == text::lowered(text::trimmed(wanted))),
        choice(wanted, known) matches ChoiceView::Unresolved(w) ==> w == text::trimmed(wanted)
            && forall|i: int|
            0 <= i < known.len() ==> (#[trigger] known[i]).0 != w && text::lowered(known[i].1)
                != text::lowered(w),
{
    text::lemma_blank(wanted);
    lemma_named_from(known, text::trimmed(wanted), 0);
}

proof fn lemma_named_from(known: Seq<(Seq<char>, Seq<char>)>, name: Seq<char>, i: int)
    requires
        0 <= i,
    ensures
        match named_from(known, name, i) {
            Some(id) => exists|j: int|
                i <= j < known.len() && (#[trigger] known[j]).0 == id && text::lowered(known[j].1)
                    == text::lowered(name),
            None => forall|j: int|
                i <= j < known.len() ==> text::lowered((#[trigger] known[j]).1) != text::lowered(
                    name,
                ),
        },
    decreases known.len() - i,
{
    if i < known.len() {
        if text::lowered(known[i].1) == text::lowered(name) {
            assert(known[i].0 == known[i].0);
        } else {
            lemma_named_from(known, name, i + 1);
        }
    }
}

// ── Tables ─────────────────────────────────────────────────────

/// The value of the first entry at or after `i` with that key.
pub open spec fn lookup_from(
    entries: Seq<(Seq<char>, Seq<char>)>,
    key: Seq<char>,
    i: int,
) -> Option<Seq<char>>
    decreases entries.len() - i,
{
    if i < 0 || i >= entries.len() {
        None
    } else if entries[i].0 == key {
        Some(entries[i].1)
    } else {
        lookup_from(entries, key, i + 1)
    }
}

/// The value under a key.
pub open spec fn lookup(entries: Seq<(Seq<char>, Seq<char>)>, key: Seq<char>) -> Option<Seq<char>> {
    lookup_from(entries, key, 0)
}

/// The place of the first entry at or after `i` with that key, or the end.
pub open spec fn place_from(entries: Seq<(Seq<char>, Seq<char>)>, key: Seq<char>, i: int) -> int
    decreases entries.len() - i,
{
    if i < 0 || i >= entries.len() || entries[i].0 == key {
        i
    } else {
        place_from(entries, key, i + 1)
    }
}

/// The entries with `key` set to `value`: in place where the key is known, at the end otherwise.
pub open spec fn entered(
    entries: Seq<(Seq<char>, Seq<char>)>,
    key: Seq<char>,
    value: Seq<char>,
) -> Seq<(Seq<char>, Seq<char>)> {
    let i = place_from(entries, key, 0);
    if 0 <= i < entries.len() {
        entries.update(i, (key, value))
    } else {
        entries.push((key, value))
    }
}

/// No key occurs twice.
pub open spec fn keys_distinct(entries: Seq<(Seq<char>, Seq<char>)>) -> bool {
    forall|i: int, j: int|
        0 <= i < j < entries.len() ==> (#[trigger] entries[i]).0 != (#[trigger] entries[j]).0
}

pub proof fn lemma_place_from(entries: Seq<(Seq<char>, Seq<char>)>, key: Seq<char>, i: int)
    requires
        0 <= i <= entries.len(),
    ensures
        i <= place_from(entries, key, i) <= entries.len(),
        forall|j: int|
            i <= j < place_from(entries, key, i) ==> (#[trigger] entries[j]).0 != key,
        place_from(entries, key, i) < entries.len() ==> entries[place_from(entries, key, i)].0
            == key,
    decreases entries.len() - i,
{
    if i < entries.len() && entries[i].0 != key {
        lemma_place_from(entries, key, i + 1);
    }
}

/// Entering a key keeps the keys distinct, makes the key's value the one entered, and leaves every
/// other key's value as it was.
pub proof fn law_entering_a_key(
    entries: Seq<(Seq<char>, Seq<char>)>,
    key: Seq<char>,
    value: Seq<char>,
    other: Seq<char>,
)
    ensures
        keys_distinct(entries) ==> keys_distinct(entered(entries, key, value)),
        lookup(entered(entries, key, value), key) == Some(value),
        other != key ==> lookup(entered(entries, key, value), other) == lookup(entries, other),
{
    lemma_place_from(entries, key, 0);
    let e = entered(entries, key, value);
    let p = place_from(entries, key, 0);
    lemma_lookup_at(e, key, 0, p);
    if other != key {
        lemma_lookup_same(entries, e, other, 0);
    }
}

proof fn lemma_lookup_at(entries: Seq<(Seq<char>, Seq<char>)>, key: Seq<char>, i: int, p: int)
    requires
        0 <= i <= p < entries.len(),
        entries[p].0 == key,
        forall|j: int| i <= j < p ==> (#[trigger] entries[j]).0 != key,
    ensures
        lookup_from(entries, key, i) == Some(entries[p].1),
    decreases p - i,
{
    if i < p {
        lemma_lookup_at(entries, key, i + 1, p);
    }
}

proof fn lemma_lookup_same(
    a: Seq<(Seq<char>, Seq<char>)>,
    b: Seq<(Seq<char>, Seq<char>)>,
    key: Seq<char>,
    i: int,
)
    requires
        0 <= i <= a.len(),
        a.len() <= b.len() <= a.len() + 1,
        b.len() > a.len() ==> b[a.len() as int].0 != key,
        forall|j: int|
            0 <= j < a.len() ==> (#[trigger] a[j]).0 == b[j].0 && (a[j].0 == key ==> a[j] == b[j]),
    ensures
        lookup_from(a, key, i) == lookup_from(b, key, i),
    decreases a.len() - i,
{
    if i < a.len() {
        assert(a[i].0 == b[i].0);
        lemma_lookup_same(a, b, key, i + 1);
    } else {
        assert(lookup_from(b, key, b.len() as int) is None);
        if b.len() > a.len() {
            assert(lookup_from(b, key, i + 1) is None);
        }
    }
}

/// Names by id, in the order in which the ids were first entered. No id occurs twice.
pub struct IdMap {
    entries: Vec<(String, String)>,
}

impl View for IdMap {
    type V = Seq<(Seq<char>, Seq<char>)>;

    closed spec fn view(&self) -> Seq<(Seq<char>, Seq<char>)> {
        text::views(self.entries@)
    }
}

impl IdMap {
    pub fn new() -> (m: IdMap)
        ensures
            m@ == Seq::<(Seq<char>, Seq<char>)>::empty(),
    {
        let m = IdMap { entries: Vec::new() };
        assert(m@ =~= Seq::empty());
        m
    }

    pub fn clear(&mut self)
        ensures
            final(self)@ == Seq::<(Seq<char>, Seq<char>)>::empty(),
    {
        self.entries.clear();
        assert(self@ =~= Seq::empty());
    }

    /// The name of an id.
    pub fn get(&self, id: &str) -> (r: Option<&String>)
        ensures
            match r {
                Some(name) => lookup(self@, id@) == Some(name@),
                None => lookup(self@, id@) is None,
            },
    {
        let mut i: usize = 0;
        while i < self.entries.len()
            invariant
                i <= self.entries@.len(),
                self@.len() == self.entries@.len(),
                lookup(self@, id@) == lookup_from(self@, id@, i as int),
            decreases self.entries@.len() - i,
        {
            assert(self@[i as int] == (self.entries@[i as int].0@, self.entries@[i as int].1@));
            if text::same(self.entries[i].0.as_str(), id) {
                return Some(&self.entries[i].1);
            }
            i += 1;
        }
        None
    }

    /// Give an id a name.
    pub fn insert(&mut self, id: String, name: String)
        ensures
            final(self)@ == entered(old(self)@, id@, name@),
    {
        let mut i: usize = 0;
        while i < self.entries.len()
            invariant
                i <= self.entries@.len(),
                *self == *old(self),
                self@.len() == self.entries@.len(),
                place_from(self@, id@, 0) == place_from(self@, id@, i as int),
            decreases self.entries@.len() - i,
        {
            assert(self@[i as int] == (self.entries@[i as int].0@, self.entries@[i as int].1@));
            if text::same(self.entries[i].0.as_str(), id.as_str()) {
                let ghost before = self@;
                self.entries.set(i, (id, name));
                assert(self@ =~= before.update(i as int, (id@, name@)));
                return ;
            }
            i += 1;
        }
        self.entries.push((id, name));
    }

    /// Every id with its name.
    pub fn pairs(&self) -> (r: Vec<(String, String)>)
        ensures
            text::views(r@) == self@,
    {
        let mut r: Vec<(String, String)> = Vec::new();
        let mut i: usize = 0;
        assert(text::views(r@) =~= self@.take(0));
        while i < self.entries.len()
            invariant
                i <= self.entries@.len(),
                self@ == text::views(self.entries@),
                text::views(r@) == self@.take(i as int),
            decreases self.entries@.len() - i,
        {
            r.push((self.entries[i].0.clone(), self.entries[i].1.clone()));
            assert(self@.take(i + 1) =~= self@.take(i as int).push(self@[i as int]));
            i += 1;
        }
        assert(self@.take(self@.len() as int) =~= self@);
        r
    }
}

/// A set of ids.
pub struct IdSet {
    ids: Vec<String>,
}

impl View for IdSet {
    type V = Set<Seq<char>>;

    closed spec fn view(&self) -> Set<Seq<char>> {
        Set::new(|x: Seq<char>| text::views(self.ids@).contains(x))
    }
}

impl IdSet {
    pub fn new() -> (s: IdSet)
        ensures
            s@ == Set::<Seq<char>>::empty(),
    {
        let s = IdSet { ids: Vec::new() };
        assert(s@ =~= Set::empty());
        s
    }

    pub fn contains(&self, id: &str) -> (r: bool)
        ensures
            r == self@.contains(id@),
    {
        let mut i: usize = 0;
        while i < self.ids.len()
            invariant
                i <= self.ids@.len(),
                forall|j: int| 0 <= j < i ==> (#[trigger] text::views(self.ids@)[j]) != id@,
            decreases self.ids@.len() - i,
        {
            if text::same(self.ids[i].as_str(), id) {
                assert(text::views(self.ids@)[i as int] == id@);
                return true;
            }
            i += 1;
        }
        false
    }

    pub fn insert(&mut self, id: String)
        ensures
            final(self)@ == old(self)@.insert(id@),
    {
        if self.contains(id.as_str()) {
            assert(self@ =~= self@.insert(id@));
            return ;
        }
        let ghost before = text::views(self.ids@);
        self.ids.push(id);
        proof {
            let after = text::views(self.ids@);
            assert(after == before.push(id@));
            assert forall|x: Seq<char>| #[trigger] after.contains(x) <==> (before.contains(x) || x
                == id@) by {
                if before.contains(x) {
                    let i = choose|i: int| 0 <= i < before.len() && before[i] == x;
                    assert(after[i] == x);
                }
                assert(after[before.len() as int] == id@);
            }
            assert(self@ =~= old(self)@.insert(id@));
        }
    }

    pub fn remove(&mut self, id: &str)
        ensures
            final(self)@ == old(self)@.remove(id@),
    {
        let mut kept: Vec<String> = Vec::new();
        let mut i: usize = 0;
        let ghost all = text::views(self.ids@);
        while i < self.ids.len()
            invariant
                i <= self.ids@.len(),
                *self == *old(self),
                all == text::views(self.ids@),
                forall|x: Seq<char>|
                    text::views(kept@).contains(x) <==> (all.take(i as int).contains(x) && x
                        != id@),
            decreases self.ids@.len() - i,
        {
            let ghost before = text::views(kept@);
            let ghost head = all.take(i as int);
            let ghost x0 = all[i as int];
            if !text::same(self.ids[i].as_str(), id) {
                kept.push(self.ids[i].clone());
            }
            proof {
                assert(all.take(i + 1) =~= head.push(x0));
                assert forall|x: Seq<char>|
                    text::views(kept@).contains(x) <==> (all.take(i + 1).contains(x) && x
                        != id@) by {
                    text::lemma_push_contains(head, x0, x);
                    text::lemma_push_contains(before, x0, x);
                }
            }
            i += 1;
        }
        self.ids = kept;
        assert(all.take(all.len() as int) =~= all);
        assert(self@ =~= old(self)@.remove(id@));
    }
}

} // verus!
