use crate::pipeline::{count_unfinished, discover, discover_all, Pipeline};
use vstd::prelude::*;
use vstd::seq_lib::group_seq_properties;

verus! {

broadcast use group_seq_properties;

proof fn lemma_discover_step(keys: Seq<Seq<char>>, key: Seq<char>)
    requires
        keys.no_duplicates(),
    ensures
        discover(keys, key).no_duplicates(),
        discover(keys, key).to_set() == keys.to_set().insert(key),
        discover(keys, key).subrange(0, keys.len() as int) == keys,
{
    if keys.contains(key) {
        assert(keys.to_set().insert(key) =~= keys.to_set());
    } else {
        let d = keys.push(key);
        assert forall|i: int, j: int| 0 <= i < d.len() && 0 <= j < d.len() && i != j implies d[i]
            != d[j] by {
            if i == keys.len() {
                assert(keys.contains(d[j]));
            } else if j == keys.len() {
                assert(keys.contains(d[i]));
            }
        }
        assert(d.to_set() =~= keys.to_set().insert(key));
        assert(d.subrange(0, keys.len() as int) =~= keys);
    }
}

proof fn lemma_discover_all(keys: Seq<Seq<char>>, found: Seq<Seq<char>>)
    requires
        keys.no_duplicates(),
    ensures
        discover_all(keys, found).no_duplicates(),
        discover_all(keys, found).to_set() == keys.to_set() + found.to_set(),
        discover_all(keys, found).len() >= keys.len(),
        discover_all(keys, found).subrange(0, keys.len() as int) == keys,
    decreases found.len(),
{
    if found.len() == 0 {
        assert(keys.to_set() + found.to_set() =~= keys.to_set());
        assert(keys.subrange(0, keys.len() as int) =~= keys);
    } else {
        let next = discover(keys, found[0]);
        let rest = found.drop_first();
        lemma_discover_step(keys, found[0]);
        lemma_discover_all(next, rest);
        assert(found =~= seq![found[0]] + rest);
        assert(found.to_set() =~= rest.to_set().insert(found[0]));
        assert(keys.to_set() + found.to_set() =~= next.to_set() + rest.to_set());
        let r = discover_all(next, rest);
        assert(r.subrange(0, keys.len() as int) =~= r.subrange(0, next.len() as int).subrange(
            0,
            keys.len() as int,
        ));
    }
}

/// However often, and in whatever order, keys are discovered, each distinct
/// key ends up under exactly one asset id: the created keys hold no
/// duplicates and are exactly the keys discovered.
pub proof fn lemma_dedup_idempotence(found: Seq<Seq<char>>)
    ensures
        discover_all(Seq::empty(), found).no_duplicates(),
        discover_all(Seq::empty(), found).to_set() == found.to_set(),
{
    lemma_discover_all(Seq::empty(), found);
    assert(Seq::<Seq<char>>::empty().to_set() + found.to_set() =~= found.to_set());
}

/// Ids are handed out in increasing order and never reused: further
/// discoveries keep every existing id on its key and only append, and the
/// number of assets created equals the number of distinct keys discovered.
pub proof fn lemma_ids_never_reused(keys: Seq<Seq<char>>, found: Seq<Seq<char>>)
    requires
        keys.no_duplicates(),
    ensures
        discover_all(keys, found).subrange(0, keys.len() as int) == keys,
        discover_all(Seq::empty(), found).len() == found.to_set().len(),
{
    lemma_discover_all(keys, found);
    lemma_dedup_idempotence(found);
    discover_all(Seq::empty(), found).unique_seq_to_set();
}

/// When two discoverers find the same key, the first creates its asset and
/// the second changes nothing.
pub proof fn lemma_second_discovery_dropped(keys: Seq<Seq<char>>, key: Seq<char>)
    ensures
        discover(discover(keys, key), key) == discover(keys, key),
        discover(keys, key).contains(key),
{
    if !keys.contains(key) {
        assert(keys.push(key)[keys.len() as int] == key);
    }
}

/// A cycle: `a` refers to `b` and `b` back to `a`. Each is created once, and
/// the second reference to `a` is dropped.
pub proof fn lemma_cycle_created_once(a: Seq<char>, b: Seq<char>)
    requires
        a != b,
    ensures
        discover_all(Seq::empty(), seq![a, b, a]) == seq![a, b],
{
    let s0 = Seq::<Seq<char>>::empty();
    let s1 = discover(s0, a);
    assert(s1 =~= seq![a]);
    let s2 = discover(s1, b);
    assert(!s1.contains(b));
    assert(s2 =~= seq![a, b]);
    assert(s2[0] == a);
    let s3 = discover(s2, a);
    assert(s3 == s2);
    let f = seq![a, b, a];
    assert(f.drop_first() =~= seq![b, a]);
    assert(f.drop_first().drop_first() =~= seq![a]);
    assert(seq![a].drop_first() =~= Seq::<Seq<char>>::empty());
    assert(discover_all(s3, Seq::empty()) == s3);
    assert(discover_all(s2, seq![a]) == discover_all(s3, Seq::empty()));
    assert(discover_all(s1, seq![b, a]) == discover_all(s2, seq![a]));
    assert(discover_all(s0, f) == discover_all(s1, seq![b, a]));
}

proof fn lemma_none_unfinished(finished: Seq<bool>)
    requires
        count_unfinished(finished) == 0,
    ensures
        forall|i: int| 0 <= i < finished.len() ==> #[trigger] finished[i],
    decreases finished.len(),
{
    if finished.len() > 0 {
        lemma_none_unfinished(finished.drop_last());
        assert forall|i: int| 0 <= i < finished.len() implies #[trigger] finished[i] by {
            if i < finished.len() - 1 {
                assert(finished.drop_last()[i] == finished[i]);
            }
        }
    }
}

/// When the in-flight count is zero, `Done` has been processed for every
/// created asset; and as `done` refuses a second `Done`, exactly once each.
pub proof fn lemma_complete_means_all_done(p: &Pipeline)
    requires
        p.wf(),
        p.in_flight() == 0,
    ensures
        forall|i: int| 0 <= i < p.assets().len() ==> #[trigger] p.finished()[i],
{
    p.lemma_in_flight_counts_unfinished();
    lemma_none_unfinished(p.finished());
}

} // verus!
