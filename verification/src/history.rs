//! The list of all tasks as a reader sees it: what was persisted, overlaid
//! with what is held in memory, newest first.

use crate::keyed::{first_index, lemma_first_index, lemma_first_index_absent, lemma_first_index_is};
use crate::model::{TaskStatus, TaskStatusView};
use crate::text::{same_text, to_chars};
use vstd::prelude::*;

verus! {

/// The views of the snapshots, in order.
pub open spec fn views(tasks: Seq<TaskStatus>) -> Seq<TaskStatusView> {
    Seq::new(tasks.len(), |i: int| tasks[i]@)
}

/// The ids of the snapshots, in order.
pub open spec fn ids(tasks: Seq<TaskStatusView>) -> Seq<Seq<char>> {
    Seq::new(tasks.len(), |i: int| tasks[i].id)
}

/// Whether `a` comes before `b`, or is `b`, in the order of texts:
/// character by character, a proper prefix first.
pub open spec fn text_le(a: Seq<char>, b: Seq<char>) -> bool
    decreases a.len(),
{
    if a.len() == 0 {
        true
    } else if b.len() == 0 {
        false
    } else if (a[0] as u32) < (b[0] as u32) {
        true
    } else if (a[0] as u32) > (b[0] as u32) {
        false
    } else {
        text_le(a.drop_first(), b.drop_first())
    }
}

/// The text by which tasks are ordered: the start time, or the empty text
/// for a task that has none.
pub open spec fn start_key(t: TaskStatusView) -> Seq<char> {
    match t.start_time {
        Some(s) => s,
        None => Seq::empty(),
    }
}

/// The list with the snapshot laid over it: in the place of the first entry
/// with its id, or at the end if there is none.
pub open spec fn overlaid(base: Seq<TaskStatusView>, t: TaskStatusView) -> Seq<TaskStatusView> {
    let at = first_index(ids(base), t.id);
    if 0 <= at < base.len() {
        base.update(at, t)
    } else {
        base.push(t)
    }
}

/// The list with each held snapshot laid over it, in order.
pub open spec fn merged(base: Seq<TaskStatusView>, held: Seq<TaskStatusView>) -> Seq<
    TaskStatusView,
>
    decreases held.len(),
{
    if held.len() == 0 {
        base
    } else {
        overlaid(merged(base, held.drop_last()), held.last())
    }
}

/// The place of a task with the given key in a list that is ordered newest
/// first: behind every entry that started at the same time or later.
pub open spec fn slot(sorted: Seq<TaskStatusView>, key: Seq<char>) -> int
    decreases sorted.len(),
{
    if sorted.len() == 0 {
        0
    } else if !text_le(key, start_key(sorted[0])) {
        0
    } else {
        1 + slot(sorted.drop_first(), key)
    }
}

/// The tasks ordered newest first; tasks of the same start time keep their
/// order.
pub open spec fn newest_first(tasks: Seq<TaskStatusView>) -> Seq<TaskStatusView>
    decreases tasks.len(),
{
    if tasks.len() == 0 {
        Seq::empty()
    } else {
        let before = newest_first(tasks.drop_last());
        before.insert(slot(before, start_key(tasks.last())), tasks.last())
    }
}

/// Whether no entry started later than an entry before it.
pub open spec fn is_newest_first(tasks: Seq<TaskStatusView>) -> bool {
    forall|i: int, j: int|
        0 <= i < j < tasks.len() ==> text_le(
            start_key(#[trigger] tasks[j]),
            start_key(#[trigger] tasks[i]),
        )
}

/// Of two texts one comes before the other or is the other.
pub proof fn lemma_text_le_total(a: Seq<char>, b: Seq<char>)
    ensures
        text_le(a, b) || text_le(b, a),
    decreases a.len(),
{
    if a.len() > 0 && b.len() > 0 && (a[0] as u32) == (b[0] as u32) {
        lemma_text_le_total(a.drop_first(), b.drop_first());
    }
}

/// The order of texts is transitive.
pub proof fn lemma_text_le_transitive(a: Seq<char>, b: Seq<char>, c: Seq<char>)
    requires
        text_le(a, b),
        text_le(b, c),
    ensures
        text_le(a, c),
    decreases a.len(),
{
    if a.len() > 0 && b.len() > 0 && c.len() > 0 {
        if (a[0] as u32) == (b[0] as u32) && (b[0] as u32) == (c[0] as u32) {
            lemma_text_le_transitive(a.drop_first(), b.drop_first(), c.drop_first());
        }
    }
}

/// The slot lies within the list; every entry before it started at the key
/// or later, and the entry at it, if there is one, started earlier.
pub proof fn lemma_slot(sorted: Seq<TaskStatusView>, key: Seq<char>)
    ensures
        0 <= slot(sorted, key) <= sorted.len(),
        forall|i: int| 0 <= i < slot(sorted, key) ==> text_le(key, start_key(#[trigger] sorted[i])),
        slot(sorted, key) < sorted.len() ==> !text_le(key, start_key(sorted[slot(sorted, key)])),
    decreases sorted.len(),
{
    if sorted.len() > 0 && text_le(key, start_key(sorted[0])) {
        let rest = sorted.drop_first();
        lemma_slot(rest, key);
        assert forall|i: int| 0 <= i < slot(sorted, key) implies text_le(
            key,
            start_key(#[trigger] sorted[i]),
        ) by {
            if i > 0 {
                assert(sorted[i] == rest[i - 1]);
            }
        }
        if slot(sorted, key) < sorted.len() {
            assert(sorted[slot(sorted, key)] == rest[slot(rest, key)]);
        }
    }
}

/// Placing a task at its slot keeps a list newest first.
pub proof fn lemma_place_keeps_order(sorted: Seq<TaskStatusView>, t: TaskStatusView)
    requires
        is_newest_first(sorted),
    ensures
        is_newest_first(sorted.insert(slot(sorted, start_key(t)), t)),
{
    let key = start_key(t);
    let at = slot(sorted, key);
    let out = sorted.insert(at, t);
    lemma_slot(sorted, key);
    assert forall|i: int, j: int| 0 <= i < j < out.len() implies text_le(
        start_key(#[trigger] out[j]),
        start_key(#[trigger] out[i]),
    ) by {
        if j == at {
            assert(out[i] == sorted[i]);
        } else if i == at {
            assert(out[j] == sorted[j - 1]);
            lemma_text_le_total(key, start_key(sorted[at]));
            if j - 1 > at {
                assert(text_le(start_key(sorted[j - 1]), start_key(sorted[at])));
                lemma_text_le_transitive(start_key(sorted[j - 1]), start_key(sorted[at]), key);
            }
        } else {
            let a = if i < at {
                i
            } else {
                i - 1
            };
            let b = if j < at {
                j
            } else {
                j - 1
            };
            assert(out[i] == sorted[a]);
            assert(out[j] == sorted[b]);
        }
    }
}

/// The ordered list is newest first, and it holds the same tasks, each as
/// often as the list it was made from.
pub proof fn lemma_newest_first(tasks: Seq<TaskStatusView>)
    ensures
        is_newest_first(newest_first(tasks)),
        newest_first(tasks).len() == tasks.len(),
        newest_first(tasks).to_multiset() == tasks.to_multiset(),
    decreases tasks.len(),
{
    broadcast use vstd::seq_lib::group_to_multiset_ensures;

    if tasks.len() > 0 {
        let before = newest_first(tasks.drop_last());
        let t = tasks.last();
        let at = slot(before, start_key(t));
        lemma_newest_first(tasks.drop_last());
        lemma_slot(before, start_key(t));
        lemma_place_keeps_order(before, t);
        let out = before.insert(at, t);
        assert(out.remove(at) =~= before);
        assert(out[at] == t);
        assert(out.remove(at).to_multiset() == out.to_multiset().remove(t));
        assert(out.to_multiset().count(t) > 0) by {
            assert(out.contains(t));
        }
        assert(out.to_multiset() =~= before.to_multiset().insert(t));
        assert(tasks.drop_last().push(t) =~= tasks);
        assert(tasks.to_multiset() =~= tasks.drop_last().to_multiset().insert(t));
    } else {
        assert(tasks =~= Seq::empty());
    }
}

/// Whether `a` comes before `b`, or is `b`, in the order of texts.
pub fn text_before_or_same(a: &str, b: &str) -> (r: bool)
    ensures
        r == text_le(a@, b@),
{
    let x = to_chars(a);
    let y = to_chars(b);
    let mut i: usize = 0;
    proof {
        assert(a@.skip(0) =~= a@);
        assert(b@.skip(0) =~= b@);
    }
    while i < x.len() && i < y.len()
        invariant
            x@ == a@,
            y@ == b@,
            i <= x.len(),
            i <= y.len(),
            text_le(a@, b@) == text_le(a@.skip(i as int), b@.skip(i as int)),
        decreases x.len() - i,
    {
        let p = x[i] as u32;
        let q = y[i] as u32;
        proof {
            assert(a@.skip(i as int)[0] == x@[i as int]);
            assert(b@.skip(i as int)[0] == y@[i as int]);
            assert(a@.skip(i as int).drop_first() =~= a@.skip(i + 1));
            assert(b@.skip(i as int).drop_first() =~= b@.skip(i + 1));
        }
        if p < q {
            return true;
        }
        if p > q {
            return false;
        }
        i += 1;
    }
    i == x.len()
}

fn key_of(t: &TaskStatus) -> (key: String)
    ensures
        key@ == start_key(t@),
{
    match &t.start_time {
        Some(s) => s.clone(),
        None => String::new(),
    }
}

/// Lays the snapshot over the list.
pub fn overlay(base: &mut Vec<TaskStatus>, t: TaskStatus)
    ensures
        views(final(base)@) == overlaid(views(old(base)@), t@),
{
    let ghost keys = ids(views(base@));
    let ghost snapshot = t@;
    let mut i: usize = 0;
    while i < base.len()
        invariant
            i <= base.len(),
            base@ == old(base)@,
            keys == ids(views(base@)),
            snapshot == t@,
            forall|j: int| 0 <= j < i ==> keys[j] != t.id@,
        decreases base.len() - i,
    {
        if same_text(base[i].id.as_str(), t.id.as_str()) {
            proof {
                lemma_first_index_is(keys, t.id@, i as int);
            }
            base.set(i, t);
            proof {
                assert(views(base@) =~= overlaid(views(old(base)@), snapshot));
            }
            return;
        }
        i += 1;
    }
    proof {
        lemma_first_index_absent(keys, t.id@);
    }
    base.push(t);
    proof {
        assert(views(base@) =~= overlaid(views(old(base)@), snapshot));
    }
}

/// Places the task at its slot in a list that is ordered newest first.
pub fn place(sorted: &mut Vec<TaskStatus>, t: TaskStatus)
    ensures
        views(final(sorted)@) == views(old(sorted)@).insert(
            slot(views(old(sorted)@), start_key(t@)),
            t@,
        ),
{
    let key = key_of(&t);
    let ghost list = views(sorted@);
    let ghost snapshot = t@;
    let mut i: usize = 0;
    let mut found = false;
    proof {
        assert(list.skip(0) =~= list);
    }
    while i < sorted.len() && !found
        invariant
            i <= sorted.len(),
            sorted@ == old(sorted)@,
            list == views(sorted@),
            key@ == start_key(t@),
            snapshot == t@,
            slot(list, key@) == i + slot(list.skip(i as int), key@),
            found ==> slot(list.skip(i as int), key@) == 0,
        decreases sorted.len() - i + if found { 0int } else { 1int },
    {
        let there = key_of(&sorted[i]);
        proof {
            assert(list.skip(i as int)[0] == list[i as int]);
            assert(list.skip(i as int).drop_first() =~= list.skip(i + 1));
        }
        if text_before_or_same(key.as_str(), there.as_str()) {
            i += 1;
        } else {
            found = true;
        }
    }
    proof {
        assert(slot(list, key@) == i);
    }
    sorted.insert(i, t);
    proof {
        assert(views(sorted@) =~= list.insert(slot(list, key@), snapshot));
    }
}

/// What was persisted, overlaid with what is held, newest first.
pub fn merge_newest_first(persisted: Vec<TaskStatus>, held: &Vec<TaskStatus>) -> (out: Vec<
    TaskStatus,
>)
    ensures
        views(out@) == newest_first(merged(views(persisted@), views(held@))),
{
    let mut all = persisted;
    let mut i: usize = 0;
    proof {
        assert(views(held@).take(0) =~= Seq::empty());
    }
    while i < held.len()
        invariant
            i <= held.len(),
            views(all@) == merged(views(persisted@), views(held@).take(i as int)),
        decreases held.len() - i,
    {
        proof {
            let h = views(held@).take(i + 1);
            assert(h.drop_last() =~= views(held@).take(i as int));
            assert(h.last() == held@[i as int]@);
        }
        overlay(&mut all, held[i].duplicate());
        i += 1;
    }
    proof {
        assert(views(held@).take(held.len() as int) =~= views(held@));
    }
    let mut out: Vec<TaskStatus> = Vec::new();
    let mut k: usize = 0;
    proof {
        assert(views(all@).take(0) =~= Seq::empty());
        assert(views(out@) =~= Seq::empty());
    }
    while k < all.len()
        invariant
            k <= all.len(),
            views(out@) == newest_first(views(all@).take(k as int)),
        decreases all.len() - k,
    {
        proof {
            let h = views(all@).take(k + 1);
            assert(h.drop_last() =~= views(all@).take(k as int));
            assert(h.last() == all@[k as int]@);
        }
        place(&mut out, all[k].duplicate());
        k += 1;
    }
    proof {
        assert(views(all@).take(all.len() as int) =~= views(all@));
    }
    out
}

} // verus!
