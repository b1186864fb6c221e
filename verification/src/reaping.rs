//! What a complete reaping run does to the graveyard's index and object
//! files, when the index and the file system answer each action truly.
use vstd::prelude::*;
use crate::graveyard::{object_path_of, reap_action_fits, reap_step, ExpiredEntry, ReapAction, ReapEvent, ReapStage};

verus! {

/// The index holds an entry whose object has hash `h`.
pub open spec fn references(index: Map<i64, Seq<char>>, h: Seq<char>) -> bool {
    exists|id: i64| index.contains_key(id) && #[trigger] index[id] == h
}

/// The index (entry id to object hash) and the object files (their paths)
/// go from `index`, `files` to `index2`, `files2` when the action `a` is
/// carried out, and `e` is the true answer: a deletion removes the entry, a
/// count of references is zero exactly when no entry has the hash, a
/// removal takes the file away.
pub open spec fn world_answers(
    a: ReapAction,
    index: Map<i64, Seq<char>>,
    files: Set<Seq<char>>,
    e: ReapEvent,
    index2: Map<i64, Seq<char>>,
    files2: Set<Seq<char>>,
) -> bool {
    match a {
        ReapAction::DeleteEntry(id) => e == ReapEvent::Done && index2 == index.remove(id) && files2
            == files,
        ReapAction::CountReferences(h) => index2 == index && files2 == files && (e matches ReapEvent::References(
            n,
        ) && (n == 0 <==> !references(index, h@))),
        ReapAction::RemoveObject(p) => e == ReapEvent::Done && index2 == index && files2
            == files.remove(p@),
        _ => false,
    }
}

/// A complete run of a `Reaper` over `expired` for the graveyard under
/// `root`: `states` are the reaper's (entries done with, stage), `indexes`
/// and `files` what the index and the object files hold, from the start to
/// the end.  Each step takes the action `next_action` gives, its true answer
/// and the state `on_event` moves to, until every entry is done with.
pub open spec fn reap_run(
    root: Seq<char>,
    expired: Seq<ExpiredEntry>,
    states: Seq<(int, ReapStage)>,
    actions: Seq<ReapAction>,
    events: Seq<ReapEvent>,
    indexes: Seq<Map<i64, Seq<char>>>,
    files: Seq<Set<Seq<char>>>,
) -> bool {
    &&& states.len() == actions.len() + 1
    &&& events.len() == actions.len()
    &&& indexes.len() == states.len()
    &&& files.len() == states.len()
    &&& states[0] == (0int, ReapStage::Listed)
    &&& states.last().0 == expired.len()
    &&& forall|i: int|
        0 <= i < actions.len() ==> {
            &&& states[i].0 < expired.len()
            &&& reap_action_fits(root, expired, states[i].0, states[i].1, #[trigger] actions[i])
            &&& world_answers(actions[i], indexes[i], files[i], events[i], indexes[i + 1], files[i + 1])
            &&& states[i + 1] == reap_step(states[i].0, states[i].1, events[i])
        }
}

/// Where a run may start: the expired entries are distinct entries of the
/// index, every entry's object file exists, and entries whose objects share
/// a path share a hash.
pub open spec fn reap_start(
    root: Seq<char>,
    expired: Seq<ExpiredEntry>,
    index: Map<i64, Seq<char>>,
    files: Set<Seq<char>>,
) -> bool {
    &&& forall|k: int, j: int|
        0 <= k < j < expired.len() ==> #[trigger] expired[k].id != #[trigger] expired[j].id
    &&& forall|k: int|
        0 <= k < expired.len() ==> index.contains_key(#[trigger] expired[k].id) && index[expired[k].id]
            == expired[k].object_hash@
    &&& forall|id: i64| index.contains_key(id) ==> files.contains(object_path_of(root, #[trigger] index[id]))
    &&& forall|a: i64, b: i64|
        index.contains_key(a) && index.contains_key(b) && object_path_of(root, #[trigger] index[a])
            == object_path_of(root, #[trigger] index[b]) ==> index[a] == index[b]
}

/// Some of the first `m` expired entries has id `id`.
pub open spec fn gone(expired: Seq<ExpiredEntry>, m: int, id: i64) -> bool {
    exists|k: int| 0 <= k < m && k < expired.len() && #[trigger] expired[k].id == id
}

/// An entry of the start index not among the first `m` expired ones.
pub open spec fn live(index0: Map<i64, Seq<char>>, expired: Seq<ExpiredEntry>, m: int, id: i64) -> bool {
    index0.contains_key(id) && !gone(expired, m, id)
}

/// Some entry live after the first `m` expired ones has hash `h`.
pub open spec fn live_references(
    index0: Map<i64, Seq<char>>,
    expired: Seq<ExpiredEntry>,
    m: int,
    h: Seq<char>,
) -> bool {
    exists|id: i64| #[trigger] live(index0, expired, m, id) && index0[id] == h
}

spec fn stage_count(stage: ReapStage) -> int {
    if stage == ReapStage::Listed {
        0
    } else {
        1
    }
}

spec fn reap_inv(
    root: Seq<char>,
    expired: Seq<ExpiredEntry>,
    index0: Map<i64, Seq<char>>,
    next: int,
    stage: ReapStage,
    index: Map<i64, Seq<char>>,
    files: Set<Seq<char>>,
) -> bool {
    &&& 0 <= next <= expired.len()
    &&& next == expired.len() ==> stage == ReapStage::Listed
    &&& forall|id: i64|
        #[trigger] index.contains_key(id) <==> live(index0, expired, next + stage_count(stage), id)
    &&& forall|id: i64| index.contains_key(id) ==> #[trigger] index[id] == index0[id]
    &&& forall|id: i64|
        #[trigger] live(index0, expired, next, id) ==> files.contains(object_path_of(root, index0[id]))
    &&& stage == ReapStage::Orphaned ==> !references(index, expired[next].object_hash@)
    &&& forall|k: int|
        0 <= k < next ==> (files.contains(object_path_of(root, #[trigger] expired[k].object_hash@))
            <==> live_references(index0, expired, next, expired[k].object_hash@))
}

proof fn lemma_gone_step(expired: Seq<ExpiredEntry>, n: int, id: i64)
    requires
        0 <= n < expired.len(),
    ensures
        gone(expired, n + 1, id) <==> (gone(expired, n, id) || expired[n].id == id),
{
    if gone(expired, n + 1, id) && expired[n].id != id {
        let k = choose|k: int| 0 <= k < n + 1 && k < expired.len() && #[trigger] expired[k].id == id;
        assert(k < n);
    }
    if expired[n].id == id {
        assert(0 <= n < n + 1 && n < expired.len() && expired[n].id == id);
    }
}

proof fn lemma_reap_inv_step(
    root: Seq<char>,
    expired: Seq<ExpiredEntry>,
    index0: Map<i64, Seq<char>>,
    files0: Set<Seq<char>>,
    next: int,
    stage: ReapStage,
    index: Map<i64, Seq<char>>,
    files: Set<Seq<char>>,
    a: ReapAction,
    e: ReapEvent,
    index2: Map<i64, Seq<char>>,
    files2: Set<Seq<char>>,
)
    requires
        reap_start(root, expired, index0, files0),
        reap_inv(root, expired, index0, next, stage, index, files),
        next < expired.len(),
        reap_action_fits(root, expired, next, stage, a),
        world_answers(a, index, files, e, index2, files2),
    ensures
        reap_inv(
            root,
            expired,
            index0,
            reap_step(next, stage, e).0,
            reap_step(next, stage, e).1,
            index2,
            files2,
        ),
{
    let x = expired[next];
    let h = x.object_hash@;
    assert(index0.contains_key(x.id) && index0[x.id] == h);
    assert forall|id: i64| #[trigger] gone(expired, next + 1, id) <==> (gone(expired, next, id) || x.id == id) by {
        lemma_gone_step(expired, next, id);
    }
    assert(!gone(expired, next, x.id)) by {
        if gone(expired, next, x.id) {
            let k = choose|k: int| 0 <= k < next && k < expired.len() && #[trigger] expired[k].id == x.id;
            assert(expired[k].id != expired[next].id);
        }
    }
    match stage {
        ReapStage::Listed => {
            assert(reap_step(next, stage, e) == (next, ReapStage::Deleted));
            assert forall|id: i64| #[trigger] index2.contains_key(id) <==> live(index0, expired, next + 1, id) by {
                assert(live(index0, expired, next + 1, id) <==> (live(index0, expired, next, id) && id != x.id));
            }
        },
        ReapStage::Deleted => {
            if let ReapEvent::References(n) = e {
                if n == 0 {
                    assert(reap_step(next, stage, e) == (next, ReapStage::Orphaned));
                } else {
                    assert(reap_step(next, stage, e) == (next + 1, ReapStage::Listed));
                    assert(references(index, h));
                    assert forall|id: i64| #[trigger] live(index0, expired, next + 1, id) implies files2.contains(
                        object_path_of(root, index0[id]),
                    ) by {
                        assert(live(index0, expired, next, id));
                    }
                    assert forall|k: int| 0 <= k < next + 1 implies (files2.contains(
                        object_path_of(root, #[trigger] expired[k].object_hash@),
                    ) <==> live_references(index0, expired, next + 1, expired[k].object_hash@)) by {
                        let hk = expired[k].object_hash@;
                        let w = choose|id: i64| index.contains_key(id) && #[trigger] index[id] == h;
                        assert(live(index0, expired, next + 1, w));
                        if hk == h {
                            assert(live(index0, expired, next, x.id));
                            assert(live_references(index0, expired, next + 1, hk));
                        } else {
                            assert(k < next);
                            if live_references(index0, expired, next, hk) {
                                let v = choose|id: i64| #[trigger] live(index0, expired, next, id) && index0[id] == hk;
                                assert(v != x.id);
                                assert(live(index0, expired, next + 1, v));
                            }
                            if live_references(index0, expired, next + 1, hk) {
                                let v = choose|id: i64| #[trigger] live(index0, expired, next + 1, id) && index0[id] == hk;
                                assert(live(index0, expired, next, v));
                            }
                        }
                    }
                }
            }
        },
        ReapStage::Orphaned => {
            assert(reap_step(next, stage, e) == (next + 1, ReapStage::Listed));
            let p = object_path_of(root, h);
            assert(files2 == files.remove(p));
            assert forall|id: i64| #[trigger] live(index0, expired, next + 1, id) implies files2.contains(
                object_path_of(root, index0[id]),
            ) by {
                assert(live(index0, expired, next, id));
                assert(index.contains_key(id));
                assert(index[id] == index0[id]);
                assert(index0[id] != h);
                assert(object_path_of(root, index0[id]) != object_path_of(root, index0[x.id]));
            }
            assert forall|k: int| 0 <= k < next + 1 implies (files2.contains(
                object_path_of(root, #[trigger] expired[k].object_hash@),
            ) <==> live_references(index0, expired, next + 1, expired[k].object_hash@)) by {
                let hk = expired[k].object_hash@;
                assert(index0.contains_key(expired[k].id) && index0[expired[k].id] == hk);
                if live_references(index0, expired, next + 1, hk) {
                    let v = choose|id: i64| #[trigger] live(index0, expired, next + 1, id) && index0[id] == hk;
                    assert(index.contains_key(v));
                    assert(index[v] == hk);
                }
                if hk == h {
                } else {
                    assert(k < next);
                    assert(object_path_of(root, index0[expired[k].id]) != object_path_of(root, index0[x.id]));
                    if live_references(index0, expired, next, hk) {
                        let v = choose|id: i64| #[trigger] live(index0, expired, next, id) && index0[id] == hk;
                        assert(v != x.id);
                        assert(live(index0, expired, next + 1, v));
                    }
                }
            }
        },
    }
}

proof fn lemma_reap_prefix(
    root: Seq<char>,
    expired: Seq<ExpiredEntry>,
    states: Seq<(int, ReapStage)>,
    actions: Seq<ReapAction>,
    events: Seq<ReapEvent>,
    indexes: Seq<Map<i64, Seq<char>>>,
    files: Seq<Set<Seq<char>>>,
    i: int,
)
    requires
        reap_run(root, expired, states, actions, events, indexes, files),
        reap_start(root, expired, indexes[0], files[0]),
        0 <= i < states.len(),
    ensures
        reap_inv(root, expired, indexes[0], states[i].0, states[i].1, indexes[i], files[i]),
    decreases i,
{
    if i == 0 {
        let index0 = indexes[0];
        assert forall|id: i64| #[trigger] index0.contains_key(id) <==> live(index0, expired, 0, id) by {
            if gone(expired, 0, id) {
                let k = choose|k: int| 0 <= k < 0 && k < expired.len() && #[trigger] expired[k].id == id;
            }
        }
    } else {
        lemma_reap_prefix(root, expired, states, actions, events, indexes, files, i - 1);
        let j = i - 1;
        assert(states[j].0 < expired.len());
        lemma_reap_inv_step(
            root,
            expired,
            indexes[0],
            files[0],
            states[j].0,
            states[j].1,
            indexes[j],
            files[j],
            actions[j],
            events[j],
            indexes[j + 1],
            files[j + 1],
        );
    }
}

/// A complete reaping run, started with every entry's object file in place,
/// leaves exactly the entries that were not expired; each of them still
/// has its object file; and the object file of an expired entry is still
/// there exactly when some remaining entry uses the same object.
pub proof fn lemma_reap_keeps_referenced_objects(
    root: Seq<char>,
    expired: Seq<ExpiredEntry>,
    states: Seq<(int, ReapStage)>,
    actions: Seq<ReapAction>,
    events: Seq<ReapEvent>,
    indexes: Seq<Map<i64, Seq<char>>>,
    files: Seq<Set<Seq<char>>>,
)
    requires
        reap_run(root, expired, states, actions, events, indexes, files),
        reap_start(root, expired, indexes[0], files[0]),
    ensures
        forall|id: i64|
            #[trigger] indexes.last().contains_key(id) <==> (indexes[0].contains_key(id) && !gone(
                expired,
                expired.len() as int,
                id,
            )),
        forall|id: i64|
            indexes.last().contains_key(id) ==> #[trigger] indexes.last()[id] == indexes[0][id]
                && files.last().contains(object_path_of(root, indexes.last()[id])),
        forall|k: int|
            0 <= k < expired.len() ==> (files.last().contains(
                object_path_of(root, #[trigger] expired[k].object_hash@),
            ) <==> references(indexes.last(), expired[k].object_hash@)),
{
    let last = states.len() - 1;
    lemma_reap_prefix(root, expired, states, actions, events, indexes, files, last);
    let index0 = indexes[0];
    let n = expired.len() as int;
    assert(states[last].1 == ReapStage::Listed);
    assert forall|id: i64| indexes.last().contains_key(id) implies #[trigger] indexes.last()[id] == index0[id]
        && files.last().contains(object_path_of(root, indexes.last()[id])) by {
        assert(live(index0, expired, n, id));
    }
    assert forall|k: int| 0 <= k < expired.len() implies (files.last().contains(
        object_path_of(root, #[trigger] expired[k].object_hash@),
    ) <==> references(indexes.last(), expired[k].object_hash@)) by {
        let hk = expired[k].object_hash@;
        if live_references(index0, expired, n, hk) {
            let v = choose|id: i64| #[trigger] live(index0, expired, n, id) && index0[id] == hk;
            assert(indexes.last().contains_key(v));
            assert(indexes.last()[v] == hk);
        }
        if references(indexes.last(), hk) {
            let v = choose|id: i64| indexes.last().contains_key(id) && #[trigger] indexes.last()[id] == hk;
            assert(live(index0, expired, n, v));
        }
    }
}

} // verus!
