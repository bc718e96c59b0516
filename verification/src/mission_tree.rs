//! Missions with the threads that belong to them.

use vstd::multiset::Multiset;
use vstd::prelude::*;
use crate::lists::contains_after_push;
use crate::mission_id::MissionId;
use crate::thread::Mission;
use crate::thread::ThreadMetadata;

verus! {

/// One mission and the threads that belong to it.
pub struct MissionGroup {
    pub mission: Mission,
    pub threads: Vec<ThreadMetadata>,
}

/// The missions with their threads, and the threads that belong to no mission at hand.
pub struct MissionTree {
    pub groups: Vec<MissionGroup>,
    pub ungrouped: Vec<ThreadMetadata>,
}

/// The threads that are filed under `mission_id`, in their order.
pub open spec fn filed_under(threads: Seq<ThreadMetadata>, mission_id: Option<MissionId>) -> Seq<
    ThreadMetadata,
>
    decreases threads.len(),
{
    if threads.len() == 0 {
        Seq::empty()
    } else {
        let before = filed_under(threads.drop_last(), mission_id);
        if threads.last().mission_id == mission_id {
            before.push(threads.last())
        } else {
            before
        }
    }
}

/// The ids of missions.
pub open spec fn mission_ids(missions: Seq<Mission>) -> Seq<MissionId> {
    missions.map_values(|m: Mission| m.id)
}

/// The threads of the `k`-th group; a mission that is listed again gets none.
pub open spec fn group_threads(missions: Seq<Mission>, threads: Seq<ThreadMetadata>, k: int) -> Seq<
    ThreadMetadata,
> {
    if mission_ids(missions).take(k).contains(missions[k].id) {
        Seq::empty()
    } else {
        filed_under(threads, Some(missions[k].id))
    }
}

/// The missions that threads name and that are not at hand, in the order first named.
pub open spec fn stale_ids(known: Seq<MissionId>, threads: Seq<ThreadMetadata>) -> Seq<MissionId>
    decreases threads.len(),
{
    if threads.len() == 0 {
        Seq::empty()
    } else {
        let before = stale_ids(known, threads.drop_last());
        match threads.last().mission_id {
            Some(id) => if known.contains(id) || before.contains(id) {
                before
            } else {
                before.push(id)
            },
            None => before,
        }
    }
}

/// The threads filed under each of `ids`, one mission after the other.
pub open spec fn filed_under_each(threads: Seq<ThreadMetadata>, ids: Seq<MissionId>) -> Seq<
    ThreadMetadata,
>
    decreases ids.len(),
{
    if ids.len() == 0 {
        Seq::empty()
    } else {
        filed_under_each(threads, ids.drop_last()) + filed_under(threads, Some(ids.last()))
    }
}

/// The threads that no group has: those without a mission, then those whose mission is not
/// at hand.
pub open spec fn ungrouped_threads(missions: Seq<Mission>, threads: Seq<ThreadMetadata>) -> Seq<
    ThreadMetadata,
> {
    filed_under(threads, None) + filed_under_each(threads, stale_ids(mission_ids(missions), threads))
}

fn threads_filed_under(threads: &Vec<ThreadMetadata>, mission_id: Option<MissionId>) -> (r: Vec<
    ThreadMetadata,
>)
    ensures
        r@ == filed_under(threads@, mission_id),
{
    let mut r: Vec<ThreadMetadata> = Vec::new();
    let mut i: usize = 0;
    assert(r@ =~= filed_under(threads@.take(0), mission_id));
    while i < threads.len()
        invariant
            i <= threads.len(),
            r@ == filed_under(threads@.take(i as int), mission_id),
        decreases threads.len() - i,
    {
        assert(threads@.take(i + 1).drop_last() =~= threads@.take(i as int));
        if threads[i].mission_id == mission_id {
            r.push(threads[i].clone());
        }
        i += 1;
    }
    assert(threads@.take(i as int) =~= threads@);
    r
}

fn contains_id(ids: &Vec<MissionId>, id: MissionId) -> (r: bool)
    ensures
        r == ids@.contains(id),
{
    let mut i: usize = 0;
    while i < ids.len()
        invariant
            i <= ids.len(),
            forall|j: int| 0 <= j < i ==> ids[j] != id,
        decreases ids.len() - i,
    {
        if ids[i] == id {
            assert(ids@[i as int] == id);
            return true;
        }
        i += 1;
    }
    false
}

fn stale_mission_ids(known: &Vec<MissionId>, threads: &Vec<ThreadMetadata>) -> (r: Vec<MissionId>)
    ensures
        r@ == stale_ids(known@, threads@),
{
    let mut r: Vec<MissionId> = Vec::new();
    let mut i: usize = 0;
    assert(r@ =~= stale_ids(known@, threads@.take(0)));
    while i < threads.len()
        invariant
            i <= threads.len(),
            r@ == stale_ids(known@, threads@.take(i as int)),
        decreases threads.len() - i,
    {
        assert(threads@.take(i + 1).drop_last() =~= threads@.take(i as int));
        match threads[i].mission_id {
            Some(id) => {
                if !contains_id(known, id) && !contains_id(&r, id) {
                    r.push(id);
                }
            },
            None => {},
        }
        i += 1;
    }
    assert(threads@.take(i as int) =~= threads@);
    r
}

/// Groups threads under their missions. A thread whose mission is not at hand is kept with
/// those that have none.
pub fn build_mission_tree(
    missions: &Vec<Mission>,
    threads: &Vec<ThreadMetadata>,
) -> (r: MissionTree)
    ensures
        r.groups@.len() == missions@.len(),
        forall|k: int|
            0 <= k < missions@.len() ==> (#[trigger] r.groups@[k]).mission == missions@[k]
                && r.groups@[k].threads@ == group_threads(missions@, threads@, k),
        r.ungrouped@ == ungrouped_threads(missions@, threads@),
{
    let mut groups: Vec<MissionGroup> = Vec::new();
    let mut known: Vec<MissionId> = Vec::new();
    let mut k: usize = 0;
    while k < missions.len()
        invariant
            k <= missions.len(),
            groups.len() == k,
            known@ == mission_ids(missions@).take(k as int),
            forall|j: int|
                0 <= j < k ==> (#[trigger] groups@[j]).mission == missions@[j]
                    && groups@[j].threads@ == group_threads(missions@, threads@, j),
        decreases missions.len() - k,
    {
        let id = missions[k].id;
        let members = if contains_id(&known, id) {
            Vec::new()
        } else {
            threads_filed_under(threads, Some(id))
        };
        assert(members@ =~= group_threads(missions@, threads@, k as int));
        groups.push(MissionGroup { mission: missions[k].clone(), threads: members });
        known.push(id);
        k += 1;
        assert(known@ =~= mission_ids(missions@).take(k as int));
    }
    assert(known@ =~= mission_ids(missions@));
    let mut ungrouped = threads_filed_under(threads, None);
    let stale = stale_mission_ids(&known, threads);
    let mut i: usize = 0;
    assert(ungrouped@ =~= filed_under(threads@, None) + filed_under_each(threads@, stale@.take(0)));
    while i < stale.len()
        invariant
            i <= stale.len(),
            ungrouped@ == filed_under(threads@, None) + filed_under_each(
                threads@,
                stale@.take(i as int),
            ),
        decreases stale.len() - i,
    {
        let ghost next = stale@.take(i + 1);
        assert(next.drop_last() =~= stale@.take(i as int));
        let mut members = threads_filed_under(threads, Some(stale[i]));
        ungrouped.append(&mut members);
        i += 1;
        assert(ungrouped@ =~= filed_under(threads@, None) + filed_under_each(threads@, next));
    }
    assert(stale@.take(i as int) =~= stale@);
    MissionTree { groups, ungrouped }
}

/// The threads of the first `n` groups, together.
pub open spec fn in_groups(
    missions: Seq<Mission>,
    threads: Seq<ThreadMetadata>,
    n: int,
) -> Multiset<
    ThreadMetadata,
>
    decreases n,
{
    if n <= 0 {
        Multiset::empty()
    } else {
        in_groups(missions, threads, n - 1).add(
            group_threads(missions, threads, n - 1).to_multiset(),
        )
    }
}

proof fn groups_gain_a_thread(missions: Seq<Mission>, threads: Seq<ThreadMetadata>, n: int)
    requires
        threads.len() > 0,
        0 <= n <= missions.len(),
    ensures
        in_groups(missions, threads, n) == match threads.last().mission_id {
            Some(id) => if mission_ids(missions).take(n).contains(id) {
                in_groups(missions, threads.drop_last(), n).insert(threads.last())
            } else {
                in_groups(missions, threads.drop_last(), n)
            },
            None => in_groups(missions, threads.drop_last(), n),
        },
    decreases n,
{
    broadcast use vstd::seq_lib::group_to_multiset_ensures;

    if n > 0 {
        let t = threads.last();
        let fewer = threads.drop_last();
        groups_gain_a_thread(missions, threads, n - 1);
        let ids = mission_ids(missions);
        let here = missions[n - 1].id;
        assert(ids.take(n) =~= ids.take(n - 1).push(here));
        contains_after_push(ids.take(n - 1), here);
        let now = group_threads(missions, threads, n - 1);
        let then = group_threads(missions, fewer, n - 1);
        if t.mission_id == Some(here) && !ids.take(n - 1).contains(here) {
            assert(now == then.push(t));
            assert(now.to_multiset() == then.to_multiset().insert(t));
            assert(in_groups(missions, threads, n) =~= in_groups(missions, fewer, n).insert(t));
        } else {
            assert(now == then);
            assert(in_groups(missions, threads, n) =~= match t.mission_id {
                Some(id) => if ids.take(n).contains(id) {
                    in_groups(missions, fewer, n).insert(t)
                } else {
                    in_groups(missions, fewer, n)
                },
                None => in_groups(missions, fewer, n),
            });
        }
    }
}

proof fn each_gains_a_thread(threads: Seq<ThreadMetadata>, ids: Seq<MissionId>)
    requires
        threads.len() > 0,
        ids.no_duplicates(),
    ensures
        filed_under_each(threads, ids).to_multiset() == match threads.last().mission_id {
            Some(id) => if ids.contains(id) {
                filed_under_each(threads.drop_last(), ids).to_multiset().insert(threads.last())
            } else {
                filed_under_each(threads.drop_last(), ids).to_multiset()
            },
            None => filed_under_each(threads.drop_last(), ids).to_multiset(),
        },
    decreases ids.len(),
{
    broadcast use vstd::seq_lib::group_to_multiset_ensures;

    if ids.len() > 0 {
        let t = threads.last();
        let fewer = threads.drop_last();
        let rest = ids.drop_last();
        let here = ids.last();
        assert forall|i: int, j: int| 0 <= i < rest.len() && 0 <= j < rest.len() && i != j implies rest[i]
            != rest[j] by {
            assert(ids[i] != ids[j]);
        }
        each_gains_a_thread(threads, rest);
        assert(!rest.contains(here)) by {
            if rest.contains(here) {
                let k = choose|k: int| 0 <= k < rest.len() && rest[k] == here;
                assert(ids[k] == ids[ids.len() - 1]);
            }
        }
        assert(ids =~= rest.push(here));
        contains_after_push(rest, here);
        let a = filed_under_each(threads, rest);
        let b = filed_under(threads, Some(here));
        let c = filed_under_each(fewer, rest);
        let d = filed_under(fewer, Some(here));
        vstd::seq_lib::lemma_multiset_commutative(a, b);
        vstd::seq_lib::lemma_multiset_commutative(c, d);
        if t.mission_id == Some(here) {
            assert(b == d.push(t));
            assert(b.to_multiset() == d.to_multiset().insert(t));
            assert((a + b).to_multiset() =~= (c + d).to_multiset().insert(t));
        } else {
            assert(b == d);
            assert((a + b).to_multiset() =~= match t.mission_id {
                Some(id) => if ids.contains(id) {
                    (c + d).to_multiset().insert(t)
                } else {
                    (c + d).to_multiset()
                },
                None => (c + d).to_multiset(),
            });
        }
    }
}

proof fn stale_ids_are_distinct_and_unknown(known: Seq<MissionId>, threads: Seq<ThreadMetadata>)
    ensures
        stale_ids(known, threads).no_duplicates(),
        forall|id: MissionId| stale_ids(known, threads).contains(id) ==> !known.contains(id),
    decreases threads.len(),
{
    if threads.len() > 0 {
        let before = stale_ids(known, threads.drop_last());
        stale_ids_are_distinct_and_unknown(known, threads.drop_last());
        let now = stale_ids(known, threads);
        assert forall|id: MissionId| now.contains(id) implies !known.contains(id) by {
            let k = choose|k: int| 0 <= k < now.len() && now[k] == id;
            if k < before.len() {
                assert(before[k] == id);
                assert(before.contains(id));
            }
        }
        assert forall|i: int, j: int| 0 <= i < now.len() && 0 <= j < now.len() && i != j implies now[i]
            != now[j] by {
            if i < before.len() && j < before.len() {
                assert(before[i] != before[j]);
            } else if i < before.len() {
                assert(before.contains(before[i]));
            } else {
                assert(before.contains(before[j]));
            }
        }
    }
}

proof fn nothing_is_filed_under_an_unnamed_mission(
    known: Seq<MissionId>,
    threads: Seq<ThreadMetadata>,
    id: MissionId,
)
    requires
        !known.contains(id),
        !stale_ids(known, threads).contains(id),
    ensures
        filed_under(threads, Some(id)) == Seq::<ThreadMetadata>::empty(),
    decreases threads.len(),
{
    if threads.len() > 0 {
        let before = stale_ids(known, threads.drop_last());
        let now = stale_ids(known, threads);
        if before.contains(id) {
            let k = choose|k: int| 0 <= k < before.len() && before[k] == id;
            assert(now[k] == id);
        }
        nothing_is_filed_under_an_unnamed_mission(known, threads.drop_last(), id);
        if threads.last().mission_id == Some(id) {
            assert(now[before.len() as int] == id);
        }
    }
}

/// Grouping drops no thread and shows none twice: the groups and the ungrouped threads
/// together are the threads that were given.
pub proof fn no_thread_is_dropped(missions: Seq<Mission>, threads: Seq<ThreadMetadata>)
    ensures
        in_groups(missions, threads, missions.len() as int).add(
            ungrouped_threads(missions, threads).to_multiset(),
        ) == threads.to_multiset(),
    decreases threads.len(),
{
    broadcast use vstd::seq_lib::group_to_multiset_ensures;

    let n = missions.len() as int;
    let known = mission_ids(missions);
    assert(known.take(n) =~= known);
    let alone = filed_under(threads, None);
    let stale = stale_ids(known, threads);
    vstd::seq_lib::lemma_multiset_commutative(alone, filed_under_each(threads, stale));
    if threads.len() == 0 {
        no_groups_without_threads(missions, threads, n);
        assert(ungrouped_threads(missions, threads) =~= threads);
        assert(in_groups(missions, threads, n).add(threads.to_multiset()) =~= threads.to_multiset());
    } else {
        let t = threads.last();
        let fewer = threads.drop_last();
        let before = stale_ids(known, fewer);
        assert(threads =~= fewer.push(t));
        assert(threads.to_multiset() == fewer.to_multiset().insert(t));
        no_thread_is_dropped(missions, fewer);
        groups_gain_a_thread(missions, threads, n);
        stale_ids_are_distinct_and_unknown(known, threads);
        stale_ids_are_distinct_and_unknown(known, fewer);
        each_gains_a_thread(threads, stale);
        let alone_before = filed_under(fewer, None);
        vstd::seq_lib::lemma_multiset_commutative(alone_before, filed_under_each(fewer, before));
        match t.mission_id {
            None => {
                assert(alone == alone_before.push(t));
                assert(alone.to_multiset() == alone_before.to_multiset().insert(t));
            },
            Some(id) => {
                assert(alone == alone_before);
                if known.contains(id) {
                    if stale.contains(id) {
                        assert(!known.contains(id));
                    }
                } else if before.contains(id) {
                    assert(stale == before);
                } else {
                    assert(stale == before.push(id));
                    assert(stale[before.len() as int] == id);
                    assert(stale.drop_last() =~= before);
                    nothing_is_filed_under_an_unnamed_mission(known, fewer, id);
                    assert(filed_under_each(fewer, stale) =~= filed_under_each(fewer, before));
                }
            },
        }
        assert(in_groups(missions, threads, n).add(
            ungrouped_threads(missions, threads).to_multiset(),
        ) =~= threads.to_multiset());
    }
}

proof fn no_groups_without_threads(missions: Seq<Mission>, threads: Seq<ThreadMetadata>, n: int)
    requires
        threads.len() == 0,
    ensures
        in_groups(missions, threads, n) == Multiset::<ThreadMetadata>::empty(),
    decreases n,
{
    broadcast use vstd::seq_lib::group_to_multiset_ensures;

    if n > 0 {
        no_groups_without_threads(missions, threads, n - 1);
        assert(group_threads(missions, threads, n - 1) =~= Seq::<ThreadMetadata>::empty());
        assert(in_groups(missions, threads, n) =~= Multiset::<ThreadMetadata>::empty());
    }
}

} // verus!
