//! Tables keyed by module id, with the semantics of a map: one entry per
//! module, and recording a module again replaces its value.

use vstd::prelude::*;
use crate::link::ModuleId;

verus! {

/// The value recorded for the module `id`: the first entry naming it.
pub open spec fn lookup<V>(entries: Seq<(ModuleId, V)>, id: Seq<char>) -> Option<V>
    decreases entries.len(),
{
    if entries.len() == 0 {
        None
    } else if entries[0].0@ == id {
        Some(entries[0].1)
    } else {
        lookup(entries.drop_first(), id)
    }
}

/// No module is recorded twice.
pub open spec fn distinct_ids<V>(entries: Seq<(ModuleId, V)>) -> bool {
    forall|i: int, j: int| 0 <= i < j < entries.len() ==> (#[trigger] entries[i]).0@ != (#[trigger] entries[j]).0@
}

/// Find the position of the entry for `id`.
pub fn position<V>(entries: &Vec<(ModuleId, V)>, id: &ModuleId) -> (at: Option<usize>)
    ensures
        at matches Some(i) ==> i < entries@.len() && entries@[i as int].0@ == id@
            && lookup(entries@, id@) == Some(entries@[i as int].1)
            && forall|k: int| 0 <= k < i ==> (#[trigger] entries@[k]).0@ != id@,
        at is None ==> lookup(entries@, id@) is None
            && forall|k: int| 0 <= k < entries@.len() ==> (#[trigger] entries@[k]).0@ != id@,
{
    let mut i: usize = 0;
    assert(entries@.subrange(0, entries@.len() as int) == entries@);
    while i < entries.len()
        invariant
            i <= entries@.len(),
            forall|k: int| 0 <= k < i ==> (#[trigger] entries@[k]).0@ != id@,
            lookup(entries@, id@) == lookup(entries@.subrange(i as int, entries@.len() as int), id@),
        decreases entries@.len() - i,
    {
        assert(entries@.subrange(i as int, entries@.len() as int).drop_first()
            == entries@.subrange(i + 1, entries@.len() as int));
        if entries[i].0.same(id) {
            return Some(i);
        }
        i += 1;
    }
    None
}

/// Replacing the entry that names a module changes only that module's
/// descriptor.
pub proof fn lemma_lookup_after_set<V>(before: Seq<(ModuleId, V)>, i: int, after: Seq<(ModuleId, V)>)
    requires
        0 <= i < before.len(),
        after.len() == before.len(),
        after[i].0@ == before[i].0@,
        forall|k: int| 0 <= k < before.len() && k != i ==> after[k] == before[k],
        distinct_ids(before),
    ensures
        distinct_ids(after),
        forall|id: Seq<char>| #[trigger] lookup(after, id)
            == if id == before[i].0@ { Some(after[i].1) } else { lookup(before, id) },
    decreases before.len(),
{
    assert forall|id: Seq<char>| #[trigger] lookup(after, id)
        == if id == before[i].0@ { Some(after[i].1) } else { lookup(before, id) } by {
        lemma_lookup_set_one(before, i, after, id);
    }
}

pub proof fn lemma_lookup_set_one<V>(before: Seq<(ModuleId, V)>, i: int, after: Seq<(ModuleId, V)>, id: Seq<char>)
    requires
        0 <= i < before.len(),
        after.len() == before.len(),
        after[i].0@ == before[i].0@,
        forall|k: int| 0 <= k < before.len() && k != i ==> after[k] == before[k],
        distinct_ids(before),
    ensures
        lookup(after, id) == if id == before[i].0@ { Some(after[i].1) } else { lookup(before, id) },
    decreases before.len(),
{
    if i == 0 {
        if id != before[0].0@ {
            assert(after.drop_first() == before.drop_first());
        }
    } else {
        assert(after[0] == before[0]);
        if before[0].0@ != id {
            let b = before.drop_first();
            let a = after.drop_first();
            assert forall|x: int, y: int| 0 <= x < y < b.len() implies (#[trigger] b[x]).0@ != (#[trigger] b[y]).0@ by {
                assert(b[x] == before[x + 1] && b[y] == before[y + 1]);
            }
            lemma_lookup_set_one(b, i - 1, a, id);
        } else {
            assert(before[0].0@ != before[i].0@);
        }
    }
}

/// Adding an entry for a module not yet recorded records it and leaves the
/// others alone.
pub proof fn lemma_lookup_after_push<V>(before: Seq<(ModuleId, V)>, after: Seq<(ModuleId, V)>)
    requires
        after.len() == before.len() + 1,
        forall|k: int| 0 <= k < before.len() ==> after[k] == before[k],
        forall|k: int| 0 <= k < before.len() ==> (#[trigger] before[k]).0@ != after.last().0@,
        distinct_ids(before),
    ensures
        distinct_ids(after),
        forall|id: Seq<char>| #[trigger] lookup(after, id)
            == if id == after.last().0@ { Some(after.last().1) } else { lookup(before, id) },
{
    assert(after.drop_last() == before);
    assert forall|id: Seq<char>| #[trigger] lookup(after, id)
        == if id == after.last().0@ { Some(after.last().1) } else { lookup(before, id) } by {
        lemma_lookup_push_one(before, after, id);
    }
}

pub proof fn lemma_lookup_push_one<V>(before: Seq<(ModuleId, V)>, after: Seq<(ModuleId, V)>, id: Seq<char>)
    requires
        after.len() == before.len() + 1,
        forall|k: int| 0 <= k < before.len() ==> after[k] == before[k],
        forall|k: int| 0 <= k < before.len() ==> (#[trigger] before[k]).0@ != after.last().0@,
    ensures
        lookup(after, id) == if id == after.last().0@ { Some(after.last().1) } else { lookup(before, id) },
    decreases before.len(),
{
    if before.len() == 0 {
        assert(after.drop_first().len() == 0);
    } else if before[0].0@ == id {
        assert(after[0] == before[0]);
    } else {
        assert(after[0] == before[0]);
        let b = before.drop_first();
        let a = after.drop_first();
        assert(a.last() == after.last());
        assert forall|k: int| 0 <= k < b.len() implies (#[trigger] b[k]).0@ != a.last().0@ by {
            assert(b[k] == before[k + 1]);
        }
        lemma_lookup_push_one(b, a, id);
    }
}


/// In a table with one entry per module, the entry at `k` is what its
/// module looks up to.
pub proof fn lemma_lookup_at<V>(entries: Seq<(ModuleId, V)>, k: int)
    requires
        distinct_ids(entries),
        0 <= k < entries.len(),
    ensures
        lookup(entries, entries[k].0@) == Some(entries[k].1),
    decreases k,
{
    if k > 0 {
        let rest = entries.drop_first();
        assert(entries[0].0@ != entries[k].0@);
        assert forall|i: int, j: int| 0 <= i < j < rest.len() implies (#[trigger] rest[i]).0@ != (#[trigger] rest[j]).0@ by {
            assert(rest[i] == entries[i + 1] && rest[j] == entries[j + 1]);
        }
        lemma_lookup_at(rest, k - 1);
    }
}

/// A module that looks something up has an entry holding it.
pub proof fn lemma_lookup_found<V>(entries: Seq<(ModuleId, V)>, id: Seq<char>) -> (k: int)
    requires
        lookup(entries, id) is Some,
    ensures
        0 <= k < entries.len(),
        entries[k].0@ == id,
        lookup(entries, id) == Some(entries[k].1),
    decreases entries.len(),
{
    if entries[0].0@ == id {
        0
    } else {
        let k = lemma_lookup_found(entries.drop_first(), id);
        k + 1
    }
}

/// Record `value` for `id`, replacing what was recorded for it before.
pub fn insert<V>(entries: &mut Vec<(ModuleId, V)>, id: ModuleId, value: V)
    requires
        distinct_ids(old(entries)@),
    ensures
        distinct_ids(final(entries)@),
        final(entries)@.len() == old(entries)@.len() + (if lookup(old(entries)@, id@) is Some { 0int } else { 1int }),
        forall|k: Seq<char>| #[trigger] lookup(final(entries)@, k)
            == if k == id@ { Some(value) } else { lookup(old(entries)@, k) },
{
    let ghost before = entries@;
    let ghost key = id@;
    match position(entries, &id) {
        Some(i) => {
            entries.set(i, (id, value));
            proof { lemma_lookup_after_set(before, i as int, entries@); }
        },
        None => {
            entries.push((id, value));
            proof { lemma_lookup_after_push(before, entries@); }
        },
    }
}

} // verus!
