//! The files that a mission's workers changed, and how many of the workers wait or run.

use vstd::prelude::*;
use crate::lists::contains_after_push;
use crate::mission_orchestrator::MissionThreadState;
use crate::text::clone_strings;
use crate::text::contains_string;
use crate::text::less;
use crate::text::text_eq;
use crate::text::text_less;
use crate::text::text_order_is_irreflexive;
use crate::text::text_order_is_total;
use crate::text::text_order_is_transitive;
use crate::text::views;

verus! {

/// One file that a mission's workers changed, all of them together.
pub struct MissionChange {
    pub name: String,
    pub lines_added: u32,
    pub lines_removed: u32,
    /// The workers that touched the file, in the order first seen.
    pub workers: Vec<String>,
}

impl MissionChange {
    /// Whether more than one worker touched the file.
    pub open spec fn contended(self) -> bool {
        self.workers@.len() > 1
    }

    /// Whether more than one worker touched the file: nothing has gone wrong yet, but only
    /// the user can decide whose file it is.
    pub fn is_contended(&self) -> (r: bool)
        ensures
            r == self.contended(),
    {
        self.workers.len() > 1
    }
}

/// One worker's edit to one file.
pub struct WorkerFileChange {
    pub worker: String,
    pub name: String,
    pub lines_added: u32,
    pub lines_removed: u32,
}

/// The mathematical value of a `WorkerFileChange`.
pub struct ChangeView {
    pub worker: Seq<char>,
    pub name: Seq<char>,
    pub lines_added: u32,
    pub lines_removed: u32,
}

impl View for WorkerFileChange {
    type V = ChangeView;

    open spec fn view(&self) -> ChangeView {
        ChangeView {
            worker: self.worker@,
            name: self.name@,
            lines_added: self.lines_added,
            lines_removed: self.lines_removed,
        }
    }
}

/// The values of a list of changes.
pub open spec fn change_views(changes: Seq<WorkerFileChange>) -> Seq<ChangeView> {
    changes.map_values(|c: WorkerFileChange| c@)
}

/// The lines that were added to a file.
pub open spec fn added_to(changes: Seq<ChangeView>, name: Seq<char>) -> nat
    decreases changes.len(),
{
    if changes.len() == 0 {
        0
    } else {
        added_to(changes.drop_last(), name) + if changes.last().name == name {
            changes.last().lines_added as nat
        } else {
            0
        }
    }
}

/// The lines that were removed from a file.
pub open spec fn removed_from(changes: Seq<ChangeView>, name: Seq<char>) -> nat
    decreases changes.len(),
{
    if changes.len() == 0 {
        0
    } else {
        removed_from(changes.drop_last(), name) + if changes.last().name == name {
            changes.last().lines_removed as nat
        } else {
            0
        }
    }
}

/// The workers that touched a file, each once, in the order first seen.
pub open spec fn authors_of(changes: Seq<ChangeView>, name: Seq<char>) -> Seq<Seq<char>>
    decreases changes.len(),
{
    if changes.len() == 0 {
        Seq::empty()
    } else {
        let before = authors_of(changes.drop_last(), name);
        let last = changes.last();
        if last.name == name && !before.contains(last.worker) {
            before.push(last.worker)
        } else {
            before
        }
    }
}

/// The names of the files that were changed.
pub open spec fn changed_names(changes: Seq<ChangeView>) -> Seq<Seq<char>> {
    changes.map_values(|c: ChangeView| c.name)
}

/// Whether the sums of line counts stay within 32 bits.
pub open spec fn sums_fit(changes: Seq<ChangeView>) -> bool {
    forall|i: int|
        0 <= i < changes.len() ==> added_to(changes, (#[trigger] changes[i]).name) <= u32::MAX
            && removed_from(changes, changes[i].name) <= u32::MAX
}

/// Whether `m` is what the changes to one file add up to.
pub open spec fn sums_up(changes: Seq<ChangeView>, m: MissionChange) -> bool {
    &&& changed_names(changes).contains(m.name@)
    &&& m.lines_added == added_to(changes, m.name@)
    &&& m.lines_removed == removed_from(changes, m.name@)
    &&& views(m.workers@) == authors_of(changes, m.name@)
}

/// Whether the files of `merged` are in the order of their names, each once.
pub open spec fn sorted_by_name(merged: Seq<MissionChange>) -> bool {
    forall|i: int, j: int|
        0 <= i < j < merged.len() ==> text_less(
            (#[trigger] merged[i]).name@,
            (#[trigger] merged[j]).name@,
        )
}

/// Whether `merged` lists the changed files by name, each with what its changes add up to.
pub open spec fn merges(changes: Seq<ChangeView>, merged: Seq<MissionChange>) -> bool {
    &&& sorted_by_name(merged)
    &&& forall|i: int| 0 <= i < merged.len() ==> sums_up(changes, #[trigger] merged[i])
    &&& forall|i: int|
        0 <= i < changes.len() ==> file_names(merged).contains((#[trigger] changes[i]).name)
}

/// The names in a list of files.
pub open spec fn file_names(merged: Seq<MissionChange>) -> Seq<Seq<char>> {
    merged.map_values(|m: MissionChange| m.name@)
}

proof fn sums_grow(changes: Seq<ChangeView>, name: Seq<char>, n: int)
    requires
        0 <= n <= changes.len(),
    ensures
        added_to(changes.take(n), name) <= added_to(changes, name),
        removed_from(changes.take(n), name) <= removed_from(changes, name),
    decreases changes.len() - n,
{
    if n < changes.len() {
        assert(changes.take(n + 1).drop_last() =~= changes.take(n));
        sums_grow(changes, name, n + 1);
    } else {
        assert(changes.take(n) =~= changes);
    }
}

proof fn unnamed_files_have_no_changes(changes: Seq<ChangeView>, name: Seq<char>)
    requires
        !changed_names(changes).contains(name),
    ensures
        added_to(changes, name) == 0,
        removed_from(changes, name) == 0,
        authors_of(changes, name) == Seq::<Seq<char>>::empty(),
    decreases changes.len(),
{
    if changes.len() > 0 {
        let rest = changes.drop_last();
        let names = changed_names(changes);
        assert(names[changes.len() - 1] == changes.last().name);
        if changed_names(rest).contains(name) {
            let k = choose|k: int| 0 <= k < rest.len() && changed_names(rest)[k] == name;
            assert(names[k] == name);
        }
        unnamed_files_have_no_changes(rest, name);
    }
}

/// The position of `name` in a sorted list, or that of the first name after it.
fn find_name(merged: &Vec<MissionChange>, name: &str) -> (r: usize)
    requires
        sorted_by_name(merged@),
    ensures
        r <= merged.len(),
        forall|i: int| 0 <= i < r ==> text_less((#[trigger] merged@[i]).name@, name@),
        r < merged.len() && merged@[r as int].name@ != name@ ==> forall|i: int|
            r <= i < merged.len() ==> text_less(name@, (#[trigger] merged@[i]).name@),
{
    let mut i: usize = 0;
    while i < merged.len() && less(merged[i].name.as_str(), name)
        invariant
            i <= merged.len(),
            sorted_by_name(merged@),
            forall|j: int| 0 <= j < i ==> text_less((#[trigger] merged@[j]).name@, name@),
        decreases merged.len() - i,
    {
        i += 1;
    }
    proof {
        if i < merged.len() && merged@[i as int].name@ != name@ {
            text_order_is_total(merged@[i as int].name@, name@);
            assert forall|j: int| i <= j < merged.len() implies text_less(
                name@,
                (#[trigger] merged@[j]).name@,
            ) by {
                if j > i {
                    text_order_is_transitive(name@, merged@[i as int].name@, merged@[j].name@);
                }
            }
        }
    }
    i
}

/// Whether the entry for one file follows a further change.
proof fn other_files_keep_their_sums(changes: Seq<ChangeView>, m: MissionChange)
    requires
        changes.len() > 0,
        sums_up(changes.drop_last(), m),
        m.name@ != changes.last().name,
    ensures
        sums_up(changes, m),
{
    let names = changed_names(changes);
    let fewer = changed_names(changes.drop_last());
    let k = choose|k: int| 0 <= k < fewer.len() && fewer[k] == m.name@;
    assert(names[k] == m.name@);
}

/// Folds the workers' changes into one list of files, by name, with the line counts added up
/// and the workers that touched each.
pub fn merge_worker_changes(changes: &Vec<WorkerFileChange>) -> (r: Vec<MissionChange>)
    requires
        sums_fit(change_views(changes@)),
    ensures
        merges(change_views(changes@), r@),
{
    let mut merged: Vec<MissionChange> = Vec::new();
    let mut n: usize = 0;
    let ghost all = change_views(changes@);
    while n < changes.len()
        invariant
            n <= changes.len(),
            all == change_views(changes@),
            sums_fit(all),
            merges(all.take(n as int), merged@),
        decreases changes.len() - n,
    {
        let ghost before = all.take(n as int);
        let ghost now = all.take(n + 1);
        let change = &changes[n];
        let ghost name = change.name@;
        proof {
            assert(now.drop_last() =~= before);
            assert(now.last() == change@);
            sums_grow(all, name, n + 1);
            assert(added_to(all, all[n as int].name) <= u32::MAX);
            assert(changed_names(now)[n as int] == name);
        }
        let at: usize = find_name(&merged, change.name.as_str());
        let ghost old_merged = merged@;
        if at < merged.len() && text_eq(merged[at].name.as_str(), change.name.as_str()) {
            assert(sums_up(before, merged@[at as int]));
            let known = contains_string(&merged[at].workers, change.worker.as_str());
            let mut workers = clone_strings(&merged[at].workers);
            if !known {
                let ghost listed = views(workers@);
                workers.push(change.worker.clone());
                assert(views(workers@) =~= listed.push(change.worker@));
            }
            let entry = MissionChange {
                name: merged[at].name.clone(),
                lines_added: merged[at].lines_added + change.lines_added,
                lines_removed: merged[at].lines_removed + change.lines_removed,
                workers,
            };
            assert(sums_up(now, entry));
            merged.set(at, entry);
            proof {
                assert forall|i: int| 0 <= i < merged.len() implies sums_up(
                    now,
                    #[trigger] merged@[i],
                ) by {
                    if i != at {
                        assert(sums_up(before, old_merged[i]));
                        if i < at {
                            text_order_is_irreflexive(name);
                            assert(text_less(old_merged[i].name@, old_merged[at as int].name@));
                        } else {
                            text_order_is_irreflexive(name);
                            assert(text_less(old_merged[at as int].name@, old_merged[i].name@));
                        }
                        other_files_keep_their_sums(now, merged@[i]);
                    }
                }
                assert(file_names(merged@) =~= file_names(old_merged));
                assert forall|i: int| 0 <= i < now.len() implies file_names(merged@).contains(
                    (#[trigger] now[i]).name,
                ) by {
                    if i < n {
                        assert(before[i] == now[i]);
                    } else {
                        assert(file_names(merged@)[at as int] == now[i].name);
                    }
                }
                assert forall|i: int, j: int| 0 <= i < j < merged.len() implies text_less(
                    (#[trigger] merged@[i]).name@,
                    (#[trigger] merged@[j]).name@,
                ) by {
                    assert(text_less(old_merged[i].name@, old_merged[j].name@));
                }
            }
        } else {
            proof {
                if changed_names(before).contains(name) {
                    let k = choose|k: int|
                        0 <= k < before.len() && changed_names(before)[k] == name;
                    assert(before[k].name == name);
                    let names = file_names(old_merged);
                    assert(names.contains(before[k].name));
                    let j = choose|j: int| 0 <= j < names.len() && names[j] == name;
                    text_order_is_irreflexive(name);
                    if j < at {
                        assert(text_less(old_merged[j].name@, name));
                    } else {
                        assert(text_less(name, old_merged[j].name@));
                    }
                }
                unnamed_files_have_no_changes(before, name);
            }
            let mut workers: Vec<String> = Vec::new();
            workers.push(change.worker.clone());
            assert(views(workers@) =~= Seq::<Seq<char>>::empty().push(change.worker@));
            let entry = MissionChange {
                name: change.name.clone(),
                lines_added: change.lines_added,
                lines_removed: change.lines_removed,
                workers,
            };
            assert(sums_up(now, entry));
            merged.insert(at, entry);
            proof {
                assert forall|i: int| 0 <= i < merged.len() implies sums_up(
                    now,
                    #[trigger] merged@[i],
                ) by {
                    if i < at {
                        assert(sums_up(before, old_merged[i]));
                        text_order_is_irreflexive(name);
                        assert(text_less(old_merged[i].name@, name));
                        other_files_keep_their_sums(now, merged@[i]);
                    } else if i > at {
                        assert(sums_up(before, old_merged[i - 1]));
                        text_order_is_irreflexive(name);
                        assert(text_less(name, old_merged[i - 1].name@));
                        other_files_keep_their_sums(now, merged@[i]);
                    }
                }
                assert forall|i: int| 0 <= i < now.len() implies file_names(merged@).contains(
                    (#[trigger] now[i]).name,
                ) by {
                    if i < n {
                        assert(before[i] == now[i]);
                        let names = file_names(old_merged);
                        let j = choose|j: int| 0 <= j < names.len() && names[j] == before[i].name;
                        let k = if j < at { j } else { j + 1 };
                        assert(file_names(merged@)[k] == now[i].name);
                    } else {
                        assert(file_names(merged@)[at as int] == now[i].name);
                    }
                }
                assert forall|i: int, j: int| 0 <= i < j < merged.len() implies text_less(
                    (#[trigger] merged@[i]).name@,
                    (#[trigger] merged@[j]).name@,
                ) by {
                    if i < at && j < at {
                        assert(text_less(old_merged[i].name@, old_merged[j].name@));
                    } else if i < at && j > at {
                        assert(text_less(old_merged[i].name@, old_merged[j - 1].name@));
                    } else if i > at {
                        assert(text_less(old_merged[i - 1].name@, old_merged[j - 1].name@));
                    } else if i == at {
                        assert(text_less(name, old_merged[j - 1].name@));
                    } else {
                        assert(text_less(old_merged[i].name@, name));
                    }
                }
            }
        }
        n += 1;
    }
    assert(all.take(n as int) =~= all);
    merged
}

/// Whether a worker touched a file.
pub open spec fn touched(changes: Seq<ChangeView>, worker: Seq<char>, name: Seq<char>) -> bool {
    exists|i: int|
        0 <= i < changes.len() && (#[trigger] changes[i]).worker == worker && changes[i].name == name
}

proof fn authors_are_those_who_touched(changes: Seq<ChangeView>, name: Seq<char>)
    ensures
        authors_of(changes, name).no_duplicates(),
        forall|w: Seq<char>|
            #[trigger] authors_of(changes, name).contains(w) <==> touched(changes, w, name),
    decreases changes.len(),
{
    if changes.len() > 0 {
        let rest = changes.drop_last();
        let last = changes.last();
        let before = authors_of(rest, name);
        authors_are_those_who_touched(rest, name);
        contains_after_push(before, last.worker);
        assert forall|w: Seq<char>| #[trigger] authors_of(changes, name).contains(w) <==> touched(
            changes,
            w,
            name,
        ) by {
            if touched(rest, w, name) {
                let k = choose|k: int|
                    0 <= k < rest.len() && (#[trigger] rest[k]).worker == w && rest[k].name == name;
                assert(changes[k].worker == w && changes[k].name == name);
            }
            if touched(changes, w, name) {
                let k = choose|k: int|
                    0 <= k < changes.len() && (#[trigger] changes[k]).worker == w
                        && changes[k].name == name;
                if k < rest.len() {
                    assert(rest[k].worker == w && rest[k].name == name);
                }
            }
            if last.name == name {
                assert(changes[changes.len() - 1].worker == last.worker);
            }
        }
    }
}

/// A file is contended exactly where two different workers touched it; one worker that edits
/// a file twice is one author.
pub proof fn a_file_is_contended_where_two_workers_touched_it(
    changes: Seq<ChangeView>,
    m: MissionChange,
)
    requires
        sums_up(changes, m),
    ensures
        m.contended() <==> exists|v: Seq<char>, w: Seq<char>|
            v != w && #[trigger] touched(changes, v, m.name@) && #[trigger] touched(
                changes,
                w,
                m.name@,
            ),
{
    let authors = authors_of(changes, m.name@);
    authors_are_those_who_touched(changes, m.name@);
    assert(authors.len() == m.workers@.len());
    if m.contended() {
        assert(authors.contains(authors[0]) && authors.contains(authors[1]));
        assert(authors[0] != authors[1]);
        assert(touched(changes, authors[0], m.name@) && touched(changes, authors[1], m.name@));
    }
    if exists|v: Seq<char>, w: Seq<char>|
        v != w && #[trigger] touched(changes, v, m.name@) && #[trigger] touched(changes, w, m.name@) {
        let (v, w) = choose|v: Seq<char>, w: Seq<char>|
            v != w && #[trigger] touched(changes, v, m.name@) && #[trigger] touched(changes, w, m.name@);
        assert(authors.contains(v) && authors.contains(w));
        let i = choose|i: int| 0 <= i < authors.len() && authors[i] == v;
        let j = choose|j: int| 0 <= j < authors.len() && authors[j] == w;
        assert(i != j);
    }
}

/// The part of a file's sums that one change makes.
proof fn sums_without_one_change(changes: Seq<ChangeView>, name: Seq<char>, i: int)
    requires
        0 <= i < changes.len(),
    ensures
        added_to(changes, name) == added_to(changes.remove(i), name) + if changes[i].name == name {
            changes[i].lines_added as nat
        } else {
            0
        },
        removed_from(changes, name) == removed_from(changes.remove(i), name)
            + if changes[i].name == name {
            changes[i].lines_removed as nat
        } else {
            0
        },
    decreases changes.len(),
{
    let n = changes.len() - 1;
    if i == n {
        assert(changes.remove(i) =~= changes.drop_last());
    } else {
        let rest = changes.drop_last();
        sums_without_one_change(rest, name, i);
        let shorter = changes.remove(i);
        assert(shorter.drop_last() =~= rest.remove(i));
        assert(shorter.last() == changes.last());
    }
}

proof fn sums_do_not_depend_on_order(
    a: Seq<ChangeView>,
    b: Seq<ChangeView>,
    name: Seq<char>,
)
    requires
        a.to_multiset() == b.to_multiset(),
    ensures
        added_to(a, name) == added_to(b, name),
        removed_from(a, name) == removed_from(b, name),
    decreases a.len(),
{
    broadcast use vstd::seq_lib::group_to_multiset_ensures;

    assert(a.len() == a.to_multiset().len() && b.len() == b.to_multiset().len());
    if a.len() > 0 {
        let x = a.last();
        assert(a.contains(x));
        assert(a.to_multiset().count(x) > 0);
        assert(b.contains(x));
        let i = choose|i: int| 0 <= i < b.len() && b[i] == x;
        sums_without_one_change(b, name, i);
        sums_without_one_change(a, name, a.len() - 1);
        assert(a.remove(a.len() - 1) =~= a.drop_last());
        assert(a.remove(a.len() - 1).to_multiset() =~= a.to_multiset().remove(x));
        assert(b.remove(i).to_multiset() =~= b.to_multiset().remove(x));
        sums_do_not_depend_on_order(a.drop_last(), b.remove(i), name);
    }
}

proof fn permuted_changes_touch_the_same(a: Seq<ChangeView>, b: Seq<ChangeView>)
    requires
        a.to_multiset() == b.to_multiset(),
    ensures
        forall|i: int| 0 <= i < a.len() ==> b.contains(#[trigger] a[i]),
{
    broadcast use vstd::seq_lib::group_to_multiset_ensures;

    assert forall|i: int| 0 <= i < a.len() implies b.contains(#[trigger] a[i]) by {
        assert(a.contains(a[i]));
        assert(a.to_multiset().count(a[i]) > 0);
    }
}

proof fn merged_names_are_the_changed_names(a: Seq<ChangeView>, merged: Seq<MissionChange>)
    requires
        merges(a, merged),
    ensures
        forall|name: Seq<char>|
            #[trigger] file_names(merged).contains(name) <==> changed_names(a).contains(name),
{
    let names = file_names(merged);
    let changed = changed_names(a);
    assert forall|name: Seq<char>| #[trigger] file_names(merged).contains(name) <==> changed_names(
        a,
    ).contains(name) by {
        if names.contains(name) {
            let k = choose|k: int| 0 <= k < names.len() && names[k] == name;
            assert(sums_up(a, merged[k]));
        }
        if changed.contains(name) {
            let k = choose|k: int| 0 <= k < changed.len() && changed[k] == name;
            assert(names.contains(a[k].name));
        }
    }
}

proof fn permuted_changes_have_the_same_names(a: Seq<ChangeView>, b: Seq<ChangeView>)
    requires
        a.to_multiset() == b.to_multiset(),
    ensures
        forall|name: Seq<char>|
            #[trigger] changed_names(a).contains(name) ==> changed_names(b).contains(name),
{
    permuted_changes_touch_the_same(a, b);
    assert forall|name: Seq<char>| #[trigger] changed_names(a).contains(name) implies changed_names(
        b,
    ).contains(name) by {
        let names = changed_names(a);
        let k = choose|k: int| 0 <= k < names.len() && names[k] == name;
        assert(b.contains(a[k]));
        let l = choose|l: int| 0 <= l < b.len() && b[l] == a[k];
        assert(changed_names(b)[l] == name);
    }
}

/// Whether texts are in order, each once.
pub open spec fn sorted_texts(s: Seq<Seq<char>>) -> bool {
    forall|i: int, j: int| 0 <= i < j < s.len() ==> text_less(#[trigger] s[i], #[trigger] s[j])
}

proof fn the_last_is_not_before(s: Seq<Seq<char>>)
    requires
        sorted_texts(s),
        s.len() > 0,
    ensures
        !s.drop_last().contains(s.last()),
        sorted_texts(s.drop_last()),
{
    let rest = s.drop_last();
    if rest.contains(s.last()) {
        let k = choose|k: int| 0 <= k < rest.len() && rest[k] == s.last();
        assert(text_less(s[k], s[s.len() - 1]));
        text_order_is_irreflexive(s.last());
    }
    assert forall|i: int, j: int| 0 <= i < j < rest.len() implies text_less(
        #[trigger] rest[i],
        #[trigger] rest[j],
    ) by {
        assert(text_less(s[i], s[j]));
    }
}

/// Two sorted lists of the same texts are the same.
proof fn sorted_texts_are_the_same(a: Seq<Seq<char>>, b: Seq<Seq<char>>)
    requires
        sorted_texts(a),
        sorted_texts(b),
        forall|x: Seq<char>| #[trigger] a.contains(x) <==> b.contains(x),
    ensures
        a == b,
    decreases a.len(),
{
    if a.len() == 0 {
        if b.len() > 0 {
            assert(b.contains(b[0]));
            assert(a.contains(b[0]));
        }
        assert(a =~= b);
    } else {
        let x = a.last();
        assert(a[a.len() - 1] == x);
        assert(a.contains(x));
        let j = choose|j: int| 0 <= j < b.len() && b[j] == x;
        let y = b.last();
        assert(b[b.len() - 1] == y);
        assert(b.contains(y));
        assert(a.contains(y));
        let k = choose|k: int| 0 <= k < a.len() && a[k] == y;
        if x != y {
            assert(text_less(b[j], b[b.len() - 1]));
            assert(text_less(a[k], a[a.len() - 1]));
            text_order_is_transitive(x, y, x);
            text_order_is_irreflexive(x);
        }
        let c = a.drop_last();
        let d = b.drop_last();
        the_last_is_not_before(a);
        the_last_is_not_before(b);
        assert(a =~= c.push(x));
        assert(b =~= d.push(x));
        contains_after_push(c, x);
        contains_after_push(d, x);
        assert forall|z: Seq<char>| #[trigger] c.contains(z) <==> d.contains(z) by {
            assert(a.contains(z) <==> b.contains(z));
            assert(c.push(x).contains(z) <==> c.contains(z) || z == x);
            assert(d.push(x).contains(z) <==> d.contains(z) || z == x);
        }
        sorted_texts_are_the_same(c, d);
    }
}

/// The list of files does not depend on the order in which changes are reported: the same
/// changes in another order give the same files, in the same order, with the same counts.
pub proof fn the_list_of_files_does_not_reshuffle(
    a: Seq<ChangeView>,
    merged_a: Seq<MissionChange>,
    b: Seq<ChangeView>,
    merged_b: Seq<MissionChange>,
)
    requires
        a.to_multiset() == b.to_multiset(),
        merges(a, merged_a),
        merges(b, merged_b),
    ensures
        merged_a.len() == merged_b.len(),
        forall|i: int|
            0 <= i < merged_a.len() ==> (#[trigger] merged_a[i]).name@ == merged_b[i].name@
                && merged_a[i].lines_added == merged_b[i].lines_added && merged_a[i].lines_removed
                == merged_b[i].lines_removed,
{
    let x = file_names(merged_a);
    let y = file_names(merged_b);
    merged_names_are_the_changed_names(a, merged_a);
    merged_names_are_the_changed_names(b, merged_b);
    permuted_changes_have_the_same_names(a, b);
    permuted_changes_have_the_same_names(b, a);
    assert forall|i: int, j: int| 0 <= i < j < x.len() implies text_less(
        #[trigger] x[i],
        #[trigger] x[j],
    ) by {
        assert(text_less(merged_a[i].name@, merged_a[j].name@));
    }
    assert forall|i: int, j: int| 0 <= i < j < y.len() implies text_less(
        #[trigger] y[i],
        #[trigger] y[j],
    ) by {
        assert(text_less(merged_b[i].name@, merged_b[j].name@));
    }
    sorted_texts_are_the_same(x, y);
    assert(merged_a.len() == x.len() && merged_b.len() == y.len());
    assert forall|i: int| 0 <= i < merged_a.len() implies (#[trigger] merged_a[i]).name@
        == merged_b[i].name@ && merged_a[i].lines_added == merged_b[i].lines_added
        && merged_a[i].lines_removed == merged_b[i].lines_removed by {
        assert(x[i] == y[i]);
        assert(sums_up(a, merged_a[i]));
        assert(sums_up(b, merged_b[i]));
        sums_do_not_depend_on_order(a, b, merged_a[i].name@);
    }
}

/// All the workers of a list of files, file by file.
pub open spec fn all_workers(changes: Seq<MissionChange>) -> Seq<Seq<char>>
    decreases changes.len(),
{
    if changes.len() == 0 {
        Seq::empty()
    } else {
        all_workers(changes.drop_last()) + views(changes.last().workers@)
    }
}

/// How many different workers made the changes.
pub fn change_author_count(changes: &Vec<MissionChange>) -> (r: usize)
    ensures
        r == all_workers(changes@).to_set().len(),
{
    let mut seen: Vec<String> = Vec::new();
    let mut i: usize = 0;
    assert(views(seen@).to_set() =~= all_workers(changes@.take(0)).to_set());
    while i < changes.len()
        invariant
            i <= changes.len(),
            views(seen@).no_duplicates(),
            views(seen@).to_set() == all_workers(changes@.take(i as int)).to_set(),
        decreases changes.len() - i,
    {
        let ghost before = all_workers(changes@.take(i as int));
        let ghost next = changes@.take(i + 1);
        assert(next.drop_last() =~= changes@.take(i as int));
        let workers = &changes[i].workers;
        let mut j: usize = 0;
        assert(before + views(workers@).take(0) =~= before);
        while j < workers.len()
            invariant
                j <= workers.len(),
                views(seen@).no_duplicates(),
                views(seen@).to_set() == (before + views(workers@).take(j as int)).to_set(),
            decreases workers.len() - j,
        {
            let ghost listed = views(seen@);
            let ghost so_far = before + views(workers@).take(j as int);
            let ghost w = workers[j as int]@;
            proof {
                assert(before + views(workers@).take(j + 1) =~= so_far.push(w));
                contains_after_push(so_far, w);
                contains_after_push(listed, w);
                assert(listed.contains(w) <==> listed.to_set().contains(w));
            }
            if !contains_string(&seen, workers[j].as_str()) {
                seen.push(workers[j].clone());
                assert(views(seen@) =~= listed.push(w));
            }
            j += 1;
            proof {
                assert forall|x: Seq<char>| #[trigger] views(seen@).to_set().contains(x)
                    <==> so_far.push(w).to_set().contains(x) by {
                    assert(listed.to_set().contains(x) <==> so_far.to_set().contains(x));
                    assert(so_far.push(w).contains(x) <==> so_far.contains(x) || x == w);
                    assert(listed.push(w).contains(x) <==> listed.contains(x) || x == w);
                }
                assert(views(seen@).to_set() =~= so_far.push(w).to_set());
            }
        }
        assert(views(workers@).take(j as int) =~= views(workers@));
        i += 1;
    }
    assert(changes@.take(i as int) =~= changes@);
    proof {
        views(seen@).unique_seq_to_set();
        assert(views(seen@).len() == seen.len());
    }
    seen.len()
}

/// How many workers a mission has, how many of them wait for the user, and how many run.
#[derive(Clone, Copy, Debug, PartialEq, Eq, Structural)]
pub struct MissionCounts {
    pub agents: usize,
    pub blocked: usize,
    pub running: usize,
}

/// How often a state occurs.
pub open spec fn count_of(states: Seq<MissionThreadState>, state: MissionThreadState) -> nat
    decreases states.len(),
{
    if states.len() == 0 {
        0
    } else {
        count_of(states.drop_last(), state) + if states.last() == state {
            1nat
        } else {
            0nat
        }
    }
}

proof fn count_is_bounded(states: Seq<MissionThreadState>, state: MissionThreadState)
    ensures
        count_of(states, state) <= states.len(),
    decreases states.len(),
{
    if states.len() > 0 {
        count_is_bounded(states.drop_last(), state);
    }
}

/// Whether `r` counts the states: only a worker that waits for the user counts as blocked.
pub open spec fn counts_are(states: Seq<MissionThreadState>, r: MissionCounts) -> bool {
    &&& r.agents == states.len()
    &&& r.blocked == count_of(states, MissionThreadState::Waiting)
    &&& r.running == count_of(states, MissionThreadState::Running)
}

/// The numbers of a mission's summary.
pub fn mission_counts(states: &[MissionThreadState]) -> (r: MissionCounts)
    ensures
        counts_are(states@, r),
{
    let mut blocked: usize = 0;
    let mut running: usize = 0;
    let mut i: usize = 0;
    while i < states.len()
        invariant
            i <= states.len(),
            blocked == count_of(states@.take(i as int), MissionThreadState::Waiting),
            running == count_of(states@.take(i as int), MissionThreadState::Running),
        decreases states.len() - i,
    {
        proof {
            assert(states@.take(i + 1).drop_last() =~= states@.take(i as int));
            count_is_bounded(states@.take(i as int), MissionThreadState::Waiting);
            count_is_bounded(states@.take(i as int), MissionThreadState::Running);
        }
        match states[i] {
            MissionThreadState::Waiting => {
                blocked += 1;
            },
            MissionThreadState::Running => {
                running += 1;
            },
            _ => {},
        }
        i += 1;
    }
    assert(states@.take(i as int) =~= states@);
    MissionCounts { agents: states.len(), blocked, running }
}

} // verus!
