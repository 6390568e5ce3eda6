//! Maps from texts to values that keep their keys in order.
use vstd::prelude::*;

use crate::text::{str_eq, to_chars};

verus! {

/// The order of texts: by their first different character, and a prefix comes first.
pub open spec fn text_lt(a: Seq<char>, b: Seq<char>) -> bool
    decreases a.len(),
{
    if b.len() == 0 {
        false
    } else if a.len() == 0 {
        true
    } else if a[0] != b[0] {
        a[0] < b[0]
    } else {
        text_lt(a.drop_first(), b.drop_first())
    }
}

/// The order is total: two texts are equal or exactly one comes first.
pub proof fn lemma_text_order_is_total(a: Seq<char>, b: Seq<char>)
    ensures
        a == b ==> !text_lt(a, b),
        a != b ==> (text_lt(a, b) <==> !text_lt(b, a)),
    decreases a.len(),
{
    if a.len() == 0 || b.len() == 0 {
        if a.len() == 0 && b.len() == 0 {
            assert(a =~= b);
        }
    } else if a[0] == b[0] {
        lemma_text_order_is_total(a.drop_first(), b.drop_first());
        if a.drop_first() == b.drop_first() {
            assert(a =~= seq![a[0]] + a.drop_first());
            assert(b =~= seq![b[0]] + b.drop_first());
        }
    }
}

/// The order is transitive.
pub proof fn lemma_text_order_is_transitive(a: Seq<char>, b: Seq<char>, c: Seq<char>)
    requires
        text_lt(a, b),
        text_lt(b, c),
    ensures
        text_lt(a, c),
    decreases a.len(),
{
    if a.len() > 0 && a[0] == b[0] && b[0] == c[0] {
        lemma_text_order_is_transitive(a.drop_first(), b.drop_first(), c.drop_first());
    }
}

pub fn text_less(a: &str, b: &str) -> (r: bool)
    ensures
        r == text_lt(a@, b@),
{
    let x = to_chars(a);
    let y = to_chars(b);
    let mut i: usize = 0;
    assert(x@.skip(0) =~= x@);
    assert(y@.skip(0) =~= y@);
    while i < x.len() && i < y.len()
        invariant
            x@ == a@,
            y@ == b@,
            i <= x@.len(),
            i <= y@.len(),
            text_lt(a@, b@) == text_lt(x@.skip(i as int), y@.skip(i as int)),
        decreases x@.len() - i,
    {
        if x[i] != y[i] {
            return x[i] < y[i];
        }
        assert(x@.skip(i as int).drop_first() =~= x@.skip(i + 1));
        assert(y@.skip(i as int).drop_first() =~= y@.skip(i + 1));
        i += 1;
    }
    i < y.len()
}

/// A map from texts to values; its entries stand in the order of their keys.
#[derive(Debug)]
pub struct TextMap<V> {
    entries: Vec<(String, V)>,
}

impl<V> TextMap<V> {
    /// The entries in the order of their keys.
    pub closed spec fn entries(self) -> Seq<(Seq<char>, V)> {
        pairs(self.entries@)
    }

    /// Every key comes strictly before the next one.
    #[verifier::type_invariant]
    pub closed spec fn wf(self) -> bool {
        sorted(self.entries())
    }

    /// The entries hold each key once.
    pub proof fn lemma_entries(self)
        requires
            self.wf(),
        ensures
            self@.dom().finite(),
            self@.dom().len() == self.entries().len(),
            forall|k: int|
                0 <= k < self.entries().len() ==> self@.dom().contains(
                    (#[trigger] self.entries()[k]).0,
                ),
    {
        lemma_entry_count(self.entries());
        assert forall|k: int| 0 <= k < self.entries().len() implies self@.dom().contains(
            (#[trigger] self.entries()[k]).0,
        ) by {
            lemma_entry(self.entries(), k);
        }
    }

    pub fn new() -> (r: Self)
        ensures
            r@ == Map::<Seq<char>, V>::empty(),
            r.entries().len() == 0,
    {
        let r = TextMap { entries: Vec::new() };
        assert(r@ =~= Map::<Seq<char>, V>::empty());
        r
    }

    /// The number of entries, which are those of the map in the order of their keys.
    pub fn len(&self) -> (r: usize)
        ensures
            r == self.entries().len(),
            r == self@.dom().len(),
            self@.dom().finite(),
            sorted(self.entries()),
            self@ == entry_map(self.entries()),
    {
        proof {
            use_type_invariant(self);
            lemma_entry_count(self.entries());
        }
        self.entries.len()
    }

    /// The key of an entry, counted in the order of the keys.
    pub fn key_at(&self, index: usize) -> (r: &str)
        requires
            index < self.entries().len(),
        ensures
            r@ == self.entries()[index as int].0,
            self@.dom().contains(r@),
    {
        proof {
            use_type_invariant(self);
            lemma_entry(self.entries(), index as int);
        }
        self.entries[index].0.as_str()
    }

    /// The value of an entry, counted in the order of the keys.
    pub fn value_at(&self, index: usize) -> (r: &V)
        requires
            index < self.entries().len(),
        ensures
            *r == self.entries()[index as int].1,
            self@[self.entries()[index as int].0] == *r,
    {
        proof {
            use_type_invariant(self);
            lemma_entry(self.entries(), index as int);
        }
        &self.entries[index].1
    }

    /// How many keys come before this one, and whether the key itself is there.
    fn position(&self, key: &str) -> (r: (usize, bool))
        requires
            self.wf(),
        ensures
            r.0 <= self.entries@.len(),
            forall|k: int| 0 <= k < r.0 ==> text_lt(#[trigger] self.entries()[k].0, key@),
            forall|k: int|
                r.0 <= k < self.entries().len() ==> !text_lt(#[trigger] self.entries()[k].0, key@),
            r.1 ==> r.0 < self.entries@.len() && self.entries()[r.0 as int].0 == key@,
            !r.1 ==> forall|k: int|
                0 <= k < self.entries().len() ==> #[trigger] self.entries()[k].0 != key@,
    {
        let mut i: usize = 0;
        while i < self.entries.len() && text_less(self.entries[i].0.as_str(), key)
            invariant
                i <= self.entries@.len(),
                forall|k: int| 0 <= k < i ==> text_lt(#[trigger] self.entries()[k].0, key@),
            decreases self.entries@.len() - i,
        {
            assert(self.entries()[i as int].0 == self.entries@[i as int].0@);
            i += 1;
        }
        let found = i < self.entries.len() && str_eq(self.entries[i].0.as_str(), key);
        proof {
            assert forall|k: int| i <= k < self.entries().len() implies !text_lt(
                #[trigger] self.entries()[k].0,
                key@,
            ) by {
                let first = self.entries()[i as int].0;
                assert(first == self.entries@[i as int].0@);
                if k > i && text_lt(self.entries()[k].0, key@) {
                    assert(text_lt(first, self.entries()[k].0));
                    lemma_text_order_is_transitive(first, self.entries()[k].0, key@);
                }
            }
            if !found {
                assert forall|k: int| 0 <= k < self.entries().len() implies #[trigger] self.entries()[k].0
                    != key@ by {
                    lemma_text_order_is_total(self.entries()[k].0, key@);
                    if k == i {
                        assert(self.entries()[i as int].0 == self.entries@[i as int].0@);
                    } else if k > i {
                        let first = self.entries()[i as int].0;
                        assert(first == self.entries@[i as int].0@);
                        assert(text_lt(first, self.entries()[k].0));
                    }
                }
            }
        }
        (i, found)
    }

    pub fn contains_key(&self, key: &str) -> (r: bool)
        ensures
            r == self@.dom().contains(key@),
    {
        proof {
            use_type_invariant(self);
        }
        let (at, found) = self.position(key);
        proof {
            if found {
                assert(self.entries()[at as int].0 == key@);
            }
        }
        found
    }

    pub fn get(&self, key: &str) -> (r: Option<&V>)
        ensures
            r is Some == self@.dom().contains(key@),
            r is Some ==> *r->0 == self@[key@],
    {
        proof {
            use_type_invariant(self);
        }
        let (at, found) = self.position(key);
        if found {
            proof {
                lemma_entry(self.entries(), at as int);
            }
            Some(&self.entries[at].1)
        } else {
            None
        }
    }

    /// Adds an entry, or replaces the value of its key; the replaced value is handed back.
    pub fn insert(&mut self, key: String, value: V) -> (r: Option<V>)
        ensures
            final(self)@ == old(self)@.insert(key@, value),
            final(self).entries() == with_entry(old(self).entries(), key@, value),
            r is Some == old(self)@.dom().contains(key@),
            r is Some ==> r->0 == old(self)@[key@],
    {
        proof {
            use_type_invariant(&*self);
        }
        let mut all: Vec<(String, V)> = Vec::new();
        std::mem::swap(&mut self.entries, &mut all);
        let current = TextMap { entries: all };
        let ghost before = current.entries();
        let (at, found) = current.position(key.as_str());
        let mut entries = current.entries;
        let mut previous: Option<V> = None;
        if found {
            proof {
                lemma_entry(before, at as int);
            }
            let (_, old_value) = entries.remove(at);
            previous = Some(old_value);
        }
        entries.insert(at, (key, value));
        proof {
            let after = pairs(entries@);
            if found {
                assert(after =~= before.update(at as int, (key@, value)));
            } else {
                assert(after =~= before.insert(at as int, (key@, value)));
                assert forall|k: int| at <= k < before.len() implies text_lt(
                    key@,
                    #[trigger] before[k].0,
                ) by {
                    lemma_text_order_is_total(before[k].0, key@);
                }
            }
            assert(sorted(after)) by {
                assert forall|i: int, j: int| 0 <= i < j < after.len() implies text_lt(
                    #[trigger] after[i].0,
                    #[trigger] after[j].0,
                ) by {
                    lemma_inserted_order(before, after, at as int, key@, value, found, i, j);
                }
            }
            lemma_inserted_map(before, after, at as int, key@, value, found);
            lemma_with_entry(before, after, at as int, key@, value, found);
        }
        self.entries = entries;
        previous
    }

    /// Takes an entry out; its value is handed back.
    pub fn remove(&mut self, key: &str) -> (r: Option<V>)
        ensures
            final(self)@ == old(self)@.remove(key@),
            r is Some == old(self)@.dom().contains(key@),
            r is Some ==> r->0 == old(self)@[key@],
    {
        proof {
            use_type_invariant(&*self);
        }
        let mut all: Vec<(String, V)> = Vec::new();
        std::mem::swap(&mut self.entries, &mut all);
        let current = TextMap { entries: all };
        let ghost before = current.entries();
        let (at, found) = current.position(key);
        let mut entries = current.entries;
        let mut previous: Option<V> = None;
        if found {
            proof {
                lemma_entry(before, at as int);
            }
            let (_, old_value) = entries.remove(at);
            previous = Some(old_value);
        }
        proof {
            let after = pairs(entries@);
            if found {
                assert(after =~= before.remove(at as int));
                lemma_removed_map(before, at as int);
            } else {
                assert(after =~= before);
                assert(entry_map(before).remove(key@) =~= entry_map(before));
            }
        }
        self.entries = entries;
        previous
    }
}

impl<V: Copy> TextMap<V> {
    /// The same map once more.
    pub fn duplicate(&self) -> (r: Self)
        ensures
            r@ == self@,
            r.entries() == self.entries(),
    {
        proof {
            use_type_invariant(self);
        }
        let mut entries: Vec<(String, V)> = Vec::new();
        let mut i: usize = 0;
        assert(pairs(entries@) =~= self.entries().take(0));
        while i < self.entries.len()
            invariant
                i <= self.entries@.len(),
                pairs(entries@) == self.entries().take(i as int),
            decreases self.entries@.len() - i,
        {
            let ghost before = entries@;
            entries.push((self.entries[i].0.clone(), self.entries[i].1));
            proof {
                let entry = self.entries@[i as int];
                assert(pairs(entries@) =~= pairs(before).push((entry.0@, entry.1)));
                assert(self.entries().take(i + 1) =~= self.entries().take(i as int).push(
                    (entry.0@, entry.1),
                ));
            }
            i += 1;
        }
        assert(self.entries().take(i as int) =~= self.entries());
        TextMap { entries }
    }
}

impl TextMap<bool> {
    /// Both maps have the same entries.
    pub fn same(&self, other: &Self) -> (r: bool)
        ensures
            r == (self@ == other@),
    {
        proof {
            use_type_invariant(self);
            use_type_invariant(other);
            lemma_entry_count(self.entries());
            lemma_entry_count(other.entries());
        }
        if self.entries.len() != other.entries.len() {
            return false;
        }
        let mut i: usize = 0;
        while i < self.entries.len()
            invariant
                sorted(self.entries()),
                i <= self.entries@.len(),
                forall|k: int|
                    0 <= k < i ==> other@.dom().contains((#[trigger] self.entries()[k]).0)
                        && other@[self.entries()[k].0] == self.entries()[k].1,
            decreases self.entries@.len() - i,
        {
            proof {
                lemma_entry(self.entries(), i as int);
                assert(self.entries()[i as int].0 == self.entries@[i as int].0@);
            }
            match other.get(self.entries[i].0.as_str()) {
                Some(value) => {
                    if *value != self.entries[i].1 {
                        return false;
                    }
                },
                None => {
                    return false;
                },
            }
            i += 1;
        }
        proof {
            assert(self@.dom().subset_of(other@.dom())) by {
                assert forall|key: Seq<char>| self@.dom().contains(key) implies other@.dom().contains(
                    key,
                ) by {
                    let k = key_index(self.entries(), key);
                    assert(self.entries()[k].0 == key);
                }
            }
            vstd::set_lib::lemma_subset_equality(self@.dom(), other@.dom());
            assert forall|key: Seq<char>| self@.dom().contains(key) implies self@[key]
                == other@[key] by {
                let k = key_index(self.entries(), key);
                lemma_entry(self.entries(), k);
                assert(self.entries()[k].0 == key);
            }
            assert(self@ =~= other@);
        }
        true
    }
}

impl<V> View for TextMap<V> {
    type V = Map<Seq<char>, V>;

    closed spec fn view(&self) -> Map<Seq<char>, V> {
        entry_map(self.entries())
    }
}

spec fn pairs<V>(entries: Seq<(String, V)>) -> Seq<(Seq<char>, V)> {
    entries.map_values(|entry: (String, V)| (entry.0@, entry.1))
}

pub open spec fn sorted<V>(entries: Seq<(Seq<char>, V)>) -> bool {
    forall|i: int, j: int|
        0 <= i < j < entries.len() ==> text_lt(#[trigger] entries[i].0, #[trigger] entries[j].0)
}

pub open spec fn has_key<V>(entries: Seq<(Seq<char>, V)>, key: Seq<char>) -> bool {
    exists|i: int| 0 <= i < entries.len() && (#[trigger] entries[i]).0 == key
}

pub open spec fn key_index<V>(entries: Seq<(Seq<char>, V)>, key: Seq<char>) -> int {
    choose|i: int| 0 <= i < entries.len() && (#[trigger] entries[i]).0 == key
}

/// Sorted entries with one more, or with another value for its key.
pub open spec fn with_entry<V>(entries: Seq<(Seq<char>, V)>, key: Seq<char>, value: V) -> Seq<
    (Seq<char>, V),
>
    decreases entries.len(),
{
    if entries.len() == 0 {
        seq![(key, value)]
    } else if text_lt(entries[0].0, key) {
        seq![entries[0]] + with_entry(entries.skip(1), key, value)
    } else if entries[0].0 == key {
        seq![(key, value)] + entries.skip(1)
    } else {
        seq![(key, value)] + entries
    }
}

proof fn lemma_with_entry<V>(
    before: Seq<(Seq<char>, V)>,
    after: Seq<(Seq<char>, V)>,
    at: int,
    key: Seq<char>,
    value: V,
    found: bool,
)
    requires
        0 <= at <= before.len(),
        found ==> at < before.len() && before[at].0 == key,
        !found ==> at < before.len() ==> text_lt(key, before[at].0),
        forall|k: int| 0 <= k < at ==> text_lt(#[trigger] before[k].0, key),
        after == if found {
            before.update(at, (key, value))
        } else {
            before.insert(at, (key, value))
        },
    ensures
        after == with_entry(before, key, value),
    decreases before.len(),
{
    lemma_text_order_is_total(key, key);
    if before.len() == 0 {
        assert(after =~= seq![(key, value)]);
    } else if at == 0 {
        lemma_text_order_is_total(before[0].0, key);
        if found {
            assert(after =~= seq![(key, value)] + before.skip(1));
        } else {
            assert(after =~= seq![(key, value)] + before);
        }
    } else {
        assert(text_lt(before[0].0, key));
        let rest = before.skip(1);
        let rest_after = if found {
            rest.update(at - 1, (key, value))
        } else {
            rest.insert(at - 1, (key, value))
        };
        lemma_with_entry(rest, rest_after, at - 1, key, value, found);
        assert(after =~= seq![before[0]] + rest_after);
    }
}

/// The entries of a map from texts to texts.
pub open spec fn text_entries(map: TextMap<String>) -> Seq<(Seq<char>, Seq<char>)> {
    map.entries().map_values(|entry: (Seq<char>, String)| (entry.0, entry.1@))
}

/// Adding an entry is the same on texts as on strings.
pub proof fn lemma_text_entries(
    entries: Seq<(Seq<char>, String)>,
    key: Seq<char>,
    value: String,
)
    ensures
        with_entry(entries, key, value).map_values(
            |entry: (Seq<char>, String)| (entry.0, entry.1@),
        ) == with_entry(
            entries.map_values(|entry: (Seq<char>, String)| (entry.0, entry.1@)),
            key,
            value@,
        ),
    decreases entries.len(),
{
    let as_text = |entry: (Seq<char>, String)| (entry.0, entry.1@);
    let shown = entries.map_values(as_text);
    if entries.len() > 0 {
        assert(shown[0] == (entries[0].0, entries[0].1@));
        assert(entries.skip(1).map_values(as_text) =~= shown.skip(1));
        if text_lt(entries[0].0, key) {
            lemma_text_entries(entries.skip(1), key, value);
        }
    }
    assert(with_entry(entries, key, value).map_values(as_text) =~= with_entry(
        shown,
        key,
        value@,
    ));
}

/// A key that comes after all others is added at the end.
proof fn lemma_added_at_the_end<V>(entries: Seq<(Seq<char>, V)>, key: Seq<char>, value: V)
    requires
        forall|k: int| 0 <= k < entries.len() ==> text_lt(#[trigger] entries[k].0, key),
    ensures
        with_entry(entries, key, value) == entries.push((key, value)),
    decreases entries.len(),
{
    if entries.len() > 0 {
        assert(text_lt(entries[0].0, key));
        let rest = entries.skip(1);
        assert forall|k: int| 0 <= k < rest.len() implies text_lt(#[trigger] rest[k].0, key) by {
            assert(rest[k] == entries[k + 1]);
        }
        lemma_added_at_the_end(rest, key, value);
    }
    assert(with_entry(entries, key, value) =~= entries.push((key, value)));
}

/// A map with the same texts.
pub fn copy_texts(map: &TextMap<String>) -> (r: TextMap<String>)
    ensures
        text_entries(r) == text_entries(*map),
{
    let n: usize = map.len();
    let ghost all = text_entries(*map);
    let mut out: TextMap<String> = TextMap::new();
    let mut i: usize = 0;
    assert(text_entries(out) =~= all.take(0));
    while i < n
        invariant
            n == map.entries().len(),
            sorted(map.entries()),
            i <= n,
            all == text_entries(*map),
            text_entries(out) == all.take(i as int),
        decreases n - i,
    {
        let ghost before = out.entries();
        let key = map.key_at(i).to_owned();
        let value = map.value_at(i).clone();
        proof {
            lemma_text_entries(before, key@, value);
            let so_far = all.take(i as int);
            assert forall|k: int| 0 <= k < so_far.len() implies text_lt(
                #[trigger] so_far[k].0,
                key@,
            ) by {
                assert(text_lt(map.entries()[k].0, map.entries()[i as int].0));
            }
            lemma_added_at_the_end(so_far, key@, value@);
            assert(all.take(i + 1) =~= so_far.push((key@, value@)));
        }
        out.insert(key, value);
        i += 1;
    }
    assert(all.take(n as int) =~= all);
    out
}

/// The map that has exactly these entries.
pub open spec fn entry_map<V>(entries: Seq<(Seq<char>, V)>) -> Map<Seq<char>, V> {
    Map::new(|key: Seq<char>| has_key(entries, key), |key: Seq<char>| entries[key_index(entries, key)].1)
}

/// An entry in sorted entries is what the map has under its key.
pub proof fn lemma_entry<V>(entries: Seq<(Seq<char>, V)>, i: int)
    requires
        sorted(entries),
        0 <= i < entries.len(),
    ensures
        entry_map(entries).dom().contains(entries[i].0),
        entry_map(entries)[entries[i].0] == entries[i].1,
        key_index(entries, entries[i].0) == i,
{
    let key = entries[i].0;
    assert(has_key(entries, key));
    let j = key_index(entries, key);
    lemma_text_order_is_total(key, key);
    if j < i {
        assert(text_lt(entries[j].0, entries[i].0));
    } else if i < j {
        assert(text_lt(entries[i].0, entries[j].0));
    }
}

proof fn lemma_entry_count<V>(entries: Seq<(Seq<char>, V)>)
    requires
        sorted(entries),
    ensures
        entry_map(entries).dom().finite(),
        entry_map(entries).dom().len() == entries.len(),
{
    let keys = entries.map_values(|entry: (Seq<char>, V)| entry.0);
    assert forall|i: int, j: int| 0 <= i < keys.len() && 0 <= j < keys.len() && i != j implies keys[i]
        != keys[j] by {
        lemma_text_order_is_total(keys[i], keys[i]);
        if i < j {
            assert(text_lt(entries[i].0, entries[j].0));
        } else {
            assert(text_lt(entries[j].0, entries[i].0));
        }
    }
    keys.unique_seq_to_set();
    assert(entry_map(entries).dom() =~= keys.to_set()) by {
        assert forall|key: Seq<char>| has_key(entries, key) implies keys.to_set().contains(key) by {
            let i = key_index(entries, key);
            assert(keys[i] == key);
        }
        assert forall|key: Seq<char>| keys.to_set().contains(key) implies has_key(entries, key) by {
            let i = choose|i: int| 0 <= i < keys.len() && keys[i] == key;
            assert(entries[i].0 == key);
        }
    }
}

proof fn lemma_inserted_order<V>(
    before: Seq<(Seq<char>, V)>,
    after: Seq<(Seq<char>, V)>,
    at: int,
    key: Seq<char>,
    value: V,
    found: bool,
    i: int,
    j: int,
)
    requires
        sorted(before),
        0 <= at <= before.len(),
        found ==> at < before.len() && before[at].0 == key && after == before.update(
            at,
            (key, value),
        ),
        !found ==> after == before.insert(at, (key, value)),
        forall|k: int| 0 <= k < at ==> text_lt(#[trigger] before[k].0, key),
        !found ==> forall|k: int| at <= k < before.len() ==> text_lt(key, #[trigger] before[k].0),
        0 <= i < j < after.len(),
    ensures
        text_lt(after[i].0, after[j].0),
{
    if found {
        assert(text_lt(before[i].0, before[j].0));
    } else {
        if j < at {
            assert(text_lt(before[i].0, before[j].0));
        } else if j == at {
            assert(after[j].0 == key);
            assert(text_lt(before[i].0, key));
        } else if i < at {
            assert(text_lt(before[i].0, before[j - 1].0));
        } else if i == at {
            assert(text_lt(key, before[j - 1].0));
        } else {
            assert(text_lt(before[i - 1].0, before[j - 1].0));
        }
    }
}

proof fn lemma_inserted_map<V>(
    before: Seq<(Seq<char>, V)>,
    after: Seq<(Seq<char>, V)>,
    at: int,
    key: Seq<char>,
    value: V,
    found: bool,
)
    requires
        sorted(before),
        sorted(after),
        0 <= at <= before.len(),
        found ==> at < before.len() && before[at].0 == key && after == before.update(
            at,
            (key, value),
        ),
        !found ==> after == before.insert(at, (key, value)),
    ensures
        entry_map(after) == entry_map(before).insert(key, value),
{
    let expected = entry_map(before).insert(key, value);
    assert(after[at] == (key, value));
    lemma_entry(after, at);
    assert forall|other: Seq<char>| has_key(after, other) == expected.dom().contains(other) by {
        if has_key(after, other) {
            let i = key_index(after, other);
            if i != at {
                let k = if found || i < at {
                    i
                } else {
                    i - 1
                };
                assert(before[k] == after[i]);
                assert(has_key(before, other));
            }
        }
        if has_key(before, other) {
            let k = key_index(before, other);
            let i = if found || k < at {
                k
            } else {
                k + 1
            };
            if found && k == at {
                assert(after[at].0 == other);
            } else {
                assert(after[i] == before[k]);
            }
        }
    }
    assert forall|other: Seq<char>| has_key(after, other) implies entry_map(after)[other]
        == expected[other] by {
        let i = key_index(after, other);
        lemma_entry(after, i);
        if i != at {
            let k = if found || i < at {
                i
            } else {
                i - 1
            };
            assert(before[k] == after[i]);
            lemma_entry(before, k);
            lemma_text_order_is_total(other, key);
            if i < at {
                assert(text_lt(after[i].0, after[at].0));
            } else {
                assert(text_lt(after[at].0, after[i].0));
            }
            assert(other != key);
        }
    }
    assert(entry_map(after) =~= expected);
}

/// Taking an entry out takes its key out of the map.
pub proof fn lemma_removed_map<V>(before: Seq<(Seq<char>, V)>, at: int)
    requires
        sorted(before),
        0 <= at < before.len(),
    ensures
        sorted(before.remove(at)),
        entry_map(before.remove(at)) == entry_map(before).remove(before[at].0),
{
    let after = before.remove(at);
    let key = before[at].0;
    let expected = entry_map(before).remove(key);
    assert forall|i: int, j: int| 0 <= i < j < after.len() implies text_lt(
        #[trigger] after[i].0,
        #[trigger] after[j].0,
    ) by {
        let x = if i < at {
            i
        } else {
            i + 1
        };
        let y = if j < at {
            j
        } else {
            j + 1
        };
        assert(text_lt(before[x].0, before[y].0));
    }
    assert forall|other: Seq<char>| has_key(after, other) == expected.dom().contains(other) by {
        lemma_text_order_is_total(key, key);
        if has_key(after, other) {
            let i = key_index(after, other);
            let k = if i < at {
                i
            } else {
                i + 1
            };
            assert(before[k] == after[i]);
            assert(has_key(before, other));
            if k < at {
                assert(text_lt(before[k].0, before[at].0));
            } else {
                assert(text_lt(before[at].0, before[k].0));
            }
        }
        if has_key(before, other) && other != key {
            let k = key_index(before, other);
            let i = if k < at {
                k
            } else {
                k - 1
            };
            assert(after[i] == before[k]);
        }
    }
    assert forall|other: Seq<char>| has_key(after, other) implies entry_map(after)[other]
        == expected[other] by {
        let i = key_index(after, other);
        lemma_entry(after, i);
        let k = if i < at {
            i
        } else {
            i + 1
        };
        assert(before[k] == after[i]);
        lemma_entry(before, k);
    }
    assert(entry_map(after) =~= expected);
}

/// Sorted entries with one more stay sorted: they hold the new one and no other of its key, and
/// of every other key what they held before.
pub proof fn lemma_one_more_entry<V>(
    entries: Seq<(Seq<char>, V)>,
    key: Seq<char>,
    value: V,
    other: (Seq<char>, V),
)
    requires
        sorted(entries),
    ensures
        sorted(with_entry(entries, key, value)),
        with_entry(entries, key, value).contains((key, value)),
        other.0 == key && with_entry(entries, key, value).contains(other) ==> other.1 == value,
        other.0 != key ==> (with_entry(entries, key, value).contains(other) <==> entries.contains(
            other,
        )),
        forall|i: int|
            0 <= i < with_entry(entries, key, value).len() ==> (#[trigger] with_entry(
                entries,
                key,
                value,
            )[i]).0 == key || has_key(entries, with_entry(entries, key, value)[i].0),
    decreases entries.len(),
{
    let after = with_entry(entries, key, value);
    lemma_text_order_is_total(key, key);
    if entries.len() == 0 {
        assert(after =~= seq![(key, value)]);
        assert(after[0] == (key, value));
    } else {
        let first = entries[0];
        let rest = entries.skip(1);
        assert forall|i: int, j: int| 0 <= i < j < rest.len() implies text_lt(
            #[trigger] rest[i].0,
            #[trigger] rest[j].0,
        ) by {
            assert(rest[i] == entries[i + 1]);
            assert(rest[j] == entries[j + 1]);
        }
        lemma_text_order_is_total(first.0, key);
        if text_lt(first.0, key) {
            let grown = with_entry(rest, key, value);
            lemma_one_more_entry(rest, key, value, other);
            assert(after =~= seq![first] + grown);
            let at = choose|at: int| 0 <= at < grown.len() && grown[at] == (key, value);
            assert(after[at + 1] == (key, value));
            assert forall|i: int| 0 <= i < grown.len() implies text_lt(
                first.0,
                (#[trigger] grown[i]).0,
            ) by {
                if grown[i].0 != key {
                    assert(has_key(rest, grown[i].0));
                    let k = key_index(rest, grown[i].0);
                    assert(rest[k] == entries[k + 1]);
                }
            }
            assert forall|i: int, j: int| 0 <= i < j < after.len() implies text_lt(
                #[trigger] after[i].0,
                #[trigger] after[j].0,
            ) by {
                assert(after[j] == grown[j - 1]);
                if i > 0 {
                    assert(after[i] == grown[i - 1]);
                }
            }
            assert forall|i: int| 0 <= i < after.len() implies (#[trigger] after[i]).0 == key
                || has_key(entries, after[i].0) by {
                if i > 0 && after[i].0 != key {
                    assert(after[i] == grown[i - 1]);
                    let k = key_index(rest, grown[i - 1].0);
                    assert(entries[k + 1] == rest[k]);
                }
            }
            if after.contains(other) {
                let i = choose|i: int| 0 <= i < after.len() && after[i] == other;
                if i > 0 {
                    assert(grown[i - 1] == other);
                    if other.0 != key {
                        let k = choose|k: int| 0 <= k < rest.len() && rest[k] == other;
                        assert(entries[k + 1] == other);
                    }
                }
            }
            if other.0 != key && entries.contains(other) {
                let k = choose|k: int| 0 <= k < entries.len() && entries[k] == other;
                if k > 0 {
                    assert(rest[k - 1] == other);
                    let i = choose|i: int| 0 <= i < grown.len() && grown[i] == other;
                    assert(after[i + 1] == other);
                } else {
                    assert(after[0] == other);
                }
            }
        } else if first.0 == key {
            assert(after =~= seq![(key, value)] + rest);
            assert(after[0] == (key, value));
            assert forall|i: int, j: int| 0 <= i < j < after.len() implies text_lt(
                #[trigger] after[i].0,
                #[trigger] after[j].0,
            ) by {
                assert(after[i].0 == entries[i].0);
                assert(after[j].0 == entries[j].0);
            }
            assert forall|i: int| 0 <= i < after.len() implies (#[trigger] after[i]).0 == key
                || has_key(entries, after[i].0) by {
                assert(after[i].0 == entries[i].0);
            }
            if after.contains(other) {
                let i = choose|i: int| 0 <= i < after.len() && after[i] == other;
                if i > 0 {
                    assert(entries[i] == other);
                    assert(text_lt(entries[0].0, entries[i].0));
                }
            }
            if other.0 != key && entries.contains(other) {
                let k = choose|k: int| 0 <= k < entries.len() && entries[k] == other;
                assert(after[k] == other);
            }
        } else {
            assert(after =~= seq![(key, value)] + entries);
            assert(after[0] == (key, value));
            assert forall|i: int| 0 <= i < entries.len() implies text_lt(
                key,
                (#[trigger] entries[i]).0,
            ) by {
                if i > 0 {
                    assert(text_lt(entries[0].0, entries[i].0));
                    lemma_text_order_is_transitive(key, entries[0].0, entries[i].0);
                }
            }
            assert forall|i: int, j: int| 0 <= i < j < after.len() implies text_lt(
                #[trigger] after[i].0,
                #[trigger] after[j].0,
            ) by {
                assert(after[j] == entries[j - 1]);
                if i > 0 {
                    assert(after[i] == entries[i - 1]);
                }
            }
            assert forall|i: int| 0 <= i < after.len() implies (#[trigger] after[i]).0 == key
                || has_key(entries, after[i].0) by {
                if i > 0 {
                    assert(after[i] == entries[i - 1]);
                }
            }
            if after.contains(other) {
                let i = choose|i: int| 0 <= i < after.len() && after[i] == other;
                if i > 0 {
                    assert(entries[i - 1] == other);
                    assert(text_lt(key, entries[i - 1].0));
                }
            }
            if other.0 != key && entries.contains(other) {
                let k = choose|k: int| 0 <= k < entries.len() && entries[k] == other;
                assert(after[k + 1] == other);
            }
        }
    }
}

/// What is put under a key is found under it, what is removed is not, and every other key keeps
/// what it has.
pub proof fn lemma_maps_hold_what_is_put_into_them<V>(
    map: &mut TextMap<V>,
    key: String,
    value: V,
    replaced: Option<V>,
    other: &mut TextMap<V>,
    name: &str,
    removed: Option<V>,
    k: Seq<char>,
)
    requires
        call_ensures(TextMap::<V>::insert, (map, key, value), replaced),
        call_ensures(TextMap::<V>::remove, (other, name), removed),
    ensures
        final(map)@.dom().contains(key@) && final(map)@[key@] == value,
        replaced is Some <==> old(map)@.dom().contains(key@),
        replaced is Some ==> replaced->0 == old(map)@[key@],
        k != key@ ==> (final(map)@.dom().contains(k) <==> old(map)@.dom().contains(k)),
        k != key@ && old(map)@.dom().contains(k) ==> final(map)@[k] == old(map)@[k],
        !final(other)@.dom().contains(name@),
        removed is Some <==> old(other)@.dom().contains(name@),
        removed is Some ==> removed->0 == old(other)@[name@],
        k != name@ ==> (final(other)@.dom().contains(k) <==> old(other)@.dom().contains(k)),
        k != name@ && old(other)@.dom().contains(k) ==> final(other)@[k] == old(other)@[k],
{
}

} // verus!
