//! Texts in order.
use vstd::prelude::*;

use crate::text::texts;
use crate::text_map::{
    lemma_text_order_is_total, lemma_text_order_is_transitive, text_less, text_lt,
};

verus! {

/// How many texts in front stay in front of `text`.
pub open spec fn text_place(sorted: Seq<Seq<char>>, text: Seq<char>) -> int
    decreases sorted.len(),
{
    if sorted.len() == 0 || text_lt(text, sorted[0]) {
        0
    } else {
        1 + text_place(sorted.drop_first(), text)
    }
}

/// The texts in ascending order, each as often as it was there.
pub open spec fn sorted_texts(all: Seq<Seq<char>>) -> Seq<Seq<char>>
    decreases all.len(),
{
    if all.len() == 0 {
        seq![]
    } else {
        let before = sorted_texts(all.drop_last());
        before.insert(text_place(before, all.last()), all.last())
    }
}

proof fn lemma_text_place(sorted: Seq<Seq<char>>, text: Seq<char>)
    ensures
        0 <= text_place(sorted, text) <= sorted.len(),
        forall|k: int|
            0 <= k < text_place(sorted, text) ==> !text_lt(text, #[trigger] sorted[k]),
        text_place(sorted, text) < sorted.len() ==> text_lt(
            text,
            sorted[text_place(sorted, text)],
        ),
    decreases sorted.len(),
{
    if sorted.len() == 0 || text_lt(text, sorted[0]) {
    } else {
        let rest = sorted.drop_first();
        lemma_text_place(rest, text);
        assert forall|k: int| 0 <= k < text_place(sorted, text) implies !text_lt(
            text,
            #[trigger] sorted[k],
        ) by {
            if k > 0 {
                assert(sorted[k] == rest[k - 1]);
            }
        }
    }
}

/// Sorting loses and invents nothing, and the result is in ascending order.
pub proof fn lemma_sorted_texts(all: Seq<Seq<char>>)
    ensures
        sorted_texts(all).to_multiset() == all.to_multiset(),
        forall|i: int, j: int|
            0 <= i < j < sorted_texts(all).len() ==> !text_lt(
                #[trigger] sorted_texts(all)[j],
                #[trigger] sorted_texts(all)[i],
            ),
    decreases all.len(),
{
    if all.len() > 0 {
        let shorter = all.drop_last();
        let new = all.last();
        lemma_sorted_texts(shorter);
        let before = sorted_texts(shorter);
        let at = text_place(before, new);
        lemma_text_place(before, new);
        let after = before.insert(at, new);
        vstd::seq_lib::to_multiset_insert(before, at, new);
        vstd::seq_lib::to_multiset_insert(shorter, shorter.len() as int, new);
        assert(shorter.insert(shorter.len() as int, new) =~= all);
        assert forall|i: int, j: int| 0 <= i < j < after.len() implies !text_lt(
            #[trigger] after[j],
            #[trigger] after[i],
        ) by {
            if j < at {
                assert(!text_lt(before[j], before[i]));
            } else if j == at {
                assert(!text_lt(new, before[i]));
            } else if i < at {
                assert(!text_lt(before[j - 1], before[i]));
            } else if i == at {
                let first = before[at];
                assert(text_lt(new, first));
                if text_lt(before[j - 1], new) {
                    lemma_text_order_is_transitive(before[j - 1], new, first);
                    lemma_text_order_is_total(first, first);
                    if j - 1 > at {
                        assert(!text_lt(before[j - 1], before[at]));
                    }
                }
            } else {
                assert(!text_lt(before[j - 1], before[i - 1]));
            }
        }
    } else {
        assert(sorted_texts(all) =~= all);
    }
}

/// The texts in ascending order.
pub fn sort_texts(all: Vec<String>) -> (r: Vec<String>)
    ensures
        texts(r@) == sorted_texts(texts(all@)),
{
    let mut out: Vec<String> = Vec::new();
    let mut i: usize = 0;
    assert(texts(out@) =~= seq![]);
    assert(texts(all@).take(0) =~= seq![]);
    while i < all.len()
        invariant
            i <= all@.len(),
            texts(out@) == sorted_texts(texts(all@).take(i as int)),
        decreases all@.len() - i,
    {
        let text = all[i].as_str();
        let ghost before = out@;
        let ghost sorted = texts(before);
        let mut at: usize = 0;
        assert(sorted.skip(0) =~= sorted);
        while at < out.len() && !text_less(text, out[at].as_str())
            invariant
                out@ == before,
                sorted == texts(before),
                at <= out@.len(),
                text_place(sorted, text@) == at + text_place(sorted.skip(at as int), text@),
            decreases out@.len() - at,
        {
            proof {
                assert(sorted.skip(at as int)[0] == before[at as int]@);
                assert(sorted.skip(at as int).drop_first() =~= sorted.skip(at + 1));
            }
            at += 1;
        }
        proof {
            if at < out@.len() {
                assert(sorted.skip(at as int)[0] == before[at as int]@);
            }
        }
        out.insert(at, text.to_owned());
        proof {
            assert(texts(out@) =~= sorted.insert(at as int, text@));
            let grown = texts(all@).take(i + 1);
            assert(grown.drop_last() =~= texts(all@).take(i as int));
            assert(grown.last() == text@);
        }
        i += 1;
    }
    assert(texts(all@).take(i as int) =~= texts(all@));
    out
}

// ---------------------------------------------------------------------------
// Named entries
// ---------------------------------------------------------------------------
/// How many entries in front stay in front of an entry of this name.
pub open spec fn entry_place<T>(entries: Seq<(String, T)>, name: Seq<char>) -> int
    decreases entries.len(),
{
    if entries.len() == 0 || text_lt(name, entries[0].0@) {
        0
    } else {
        1 + entry_place(entries.skip(1), name)
    }
}

/// The entries in the order of their names.
pub open spec fn by_name<T>(entries: Seq<(String, T)>) -> Seq<(String, T)>
    decreases entries.len(),
{
    if entries.len() == 0 {
        entries
    } else {
        let before = by_name(entries.drop_last());
        before.insert(entry_place(before, entries.last().0@), entries.last())
    }
}

fn find_entry_place<T>(entries: &Vec<(String, T)>, name: &str) -> (r: usize)
    ensures
        r == entry_place(entries@, name@),
        r <= entries@.len(),
{
    let n: usize = entries.len();
    let mut i: usize = 0;
    assert(entries@.skip(0) =~= entries@);
    while i < n && !text_less(name, entries[i].0.as_str())
        invariant
            n == entries@.len(),
            i <= n,
            entry_place(entries@, name@) == i + entry_place(entries@.skip(i as int), name@),
        decreases n - i,
    {
        assert(entries@.skip(i as int)[0] == entries@[i as int]);
        assert(entries@.skip(i as int).skip(1) =~= entries@.skip(i + 1));
        i += 1;
    }
    assert(i < n ==> entries@.skip(i as int)[0] == entries@[i as int]);
    i
}

/// Puts entries in the order of their names; entries of the same name keep their order.
pub fn sort_by_name<T>(entries: Vec<(String, T)>) -> (r: Vec<(String, T)>)
    ensures
        r@ == by_name(entries@),
{
    let ghost all = entries@;
    let mut rest = entries;
    let mut waiting: Vec<(String, T)> = Vec::new();
    let n: usize = rest.len();
    while rest.len() > 0
        invariant
            rest@.len() + waiting@.len() == all.len(),
            all == rest@ + waiting@.reverse(),
        decreases rest@.len(),
    {
        let ghost before = rest@;
        let ghost moved = waiting@;
        let last = rest.pop();
        if let Some(entry) = last {
            waiting.push(entry);
            assert(waiting@.reverse() =~= seq![entry] + moved.reverse());
            assert(before =~= rest@.push(entry));
            assert(all =~= rest@ + waiting@.reverse());
        }
    }
    let mut out: Vec<(String, T)> = Vec::new();
    assert(all.take(0) =~= Seq::<(String, T)>::empty());
    assert(out@ =~= Seq::<(String, T)>::empty());
    assert(all =~= all.take(0) + waiting@.reverse());
    let mut i: usize = 0;
    while waiting.len() > 0
        invariant
            n == all.len(),
            i <= n,
            waiting@.len() == n - i,
            all.skip(i as int) == waiting@.reverse(),
            out@ == by_name(all.take(i as int)),
        decreases waiting@.len(),
    {
        let ghost before = waiting@;
        let next = waiting.pop();
        if let Some(entry) = next {
            proof {
                assert(before.reverse()[0] == entry);
                assert(all.skip(i as int)[0] == all[i as int]);
                assert(all.take(i + 1).drop_last() =~= all.take(i as int));
                assert(all.take(i + 1).last() == entry);
                assert(all.skip(i + 1) =~= all.skip(i as int).skip(1));
                assert(before.reverse().skip(1) =~= waiting@.reverse());
            }
            let at = find_entry_place(&out, entry.0.as_str());
            out.insert(at, entry);
        }
        i += 1;
    }
    assert(all.take(n as int) =~= all);
    out
}

proof fn lemma_entry_place<T>(entries: Seq<(String, T)>, name: Seq<char>)
    ensures
        0 <= entry_place(entries, name) <= entries.len(),
        forall|k: int|
            0 <= k < entry_place(entries, name) ==> !text_lt(name, (#[trigger] entries[k]).0@),
        entry_place(entries, name) < entries.len() ==> text_lt(
            name,
            entries[entry_place(entries, name)].0@,
        ),
    decreases entries.len(),
{
    if entries.len() == 0 || text_lt(name, entries[0].0@) {
    } else {
        let rest = entries.skip(1);
        lemma_entry_place(rest, name);
        assert forall|k: int| 0 <= k < entry_place(entries, name) implies !text_lt(
            name,
            (#[trigger] entries[k]).0@,
        ) by {
            if k > 0 {
                assert(entries[k] == rest[k - 1]);
            }
        }
    }
}

/// Entries put in order are the same entries, each as often as it was there, and their names
/// ascend.
pub proof fn lemma_by_name_is_in_order<T>(entries: Seq<(String, T)>)
    ensures
        by_name(entries).to_multiset() == entries.to_multiset(),
        forall|i: int, j: int|
            0 <= i < j < by_name(entries).len() ==> !text_lt(
                (#[trigger] by_name(entries)[j]).0@,
                (#[trigger] by_name(entries)[i]).0@,
            ),
    decreases entries.len(),
{
    if entries.len() > 0 {
        let shorter = entries.drop_last();
        let new = entries.last();
        lemma_by_name_is_in_order(shorter);
        let before = by_name(shorter);
        let at = entry_place(before, new.0@);
        lemma_entry_place(before, new.0@);
        let after = before.insert(at, new);
        vstd::seq_lib::to_multiset_insert(before, at, new);
        vstd::seq_lib::to_multiset_insert(shorter, shorter.len() as int, new);
        assert(shorter.insert(shorter.len() as int, new) =~= entries);
        assert forall|i: int, j: int| 0 <= i < j < after.len() implies !text_lt(
            (#[trigger] after[j]).0@,
            (#[trigger] after[i]).0@,
        ) by {
            if j < at {
                assert(!text_lt(before[j].0@, before[i].0@));
            } else if j == at {
                assert(!text_lt(new.0@, before[i].0@));
            } else if i < at {
                assert(!text_lt(before[j - 1].0@, before[i].0@));
            } else if i == at {
                let first = before[at];
                assert(text_lt(new.0@, first.0@));
                if text_lt(before[j - 1].0@, new.0@) {
                    lemma_text_order_is_transitive(before[j - 1].0@, new.0@, first.0@);
                    lemma_text_order_is_total(first.0@, first.0@);
                    if j - 1 > at {
                        assert(!text_lt(before[j - 1].0@, before[at].0@));
                    }
                }
            } else {
                assert(!text_lt(before[j - 1].0@, before[i - 1].0@));
            }
        }
    }
}

/// Putting entries in order neither loses nor invents one.
pub proof fn lemma_by_name_keeps<T>(entries: Seq<(String, T)>, entry: (String, T))
    ensures
        by_name(entries).contains(entry) <==> entries.contains(entry),
        by_name(entries).len() == entries.len(),
{
    lemma_by_name_is_in_order(entries);
    entries.to_multiset_ensures();
    by_name(entries).to_multiset_ensures();
    assert(entries.contains(entry) <==> entries.to_multiset().count(entry) > 0);
    assert(by_name(entries).contains(entry) <==> by_name(entries).to_multiset().count(entry) > 0);
}

} // verus!
