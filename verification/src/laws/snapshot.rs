//! Laws about what is read of a mission: its workers, its changed files, the user, the tree of
//! missions, and the numbers that are counted and shown.

use vstd::prelude::*;
use crate::laws::lists::filter_from_the_end;
use crate::laws::lists::what_a_filter_keeps;
use crate::laws::views::blocked_and_contended_are_all_of_those;
use crate::laws::views::is_blocked;
use crate::laws::views::is_contended;
use crate::lists::contains_after_push;
use crate::lists::contains_in_sum;
use crate::mission_changes::added_to;
use crate::mission_changes::all_workers;
use crate::mission_changes::authors_of;
use crate::mission_changes::change_author_count;
use crate::mission_changes::change_views;
use crate::mission_changes::changed_names;
use crate::mission_changes::count_of;
use crate::mission_changes::file_names;
use crate::mission_changes::merge_worker_changes;
use crate::mission_changes::merges;
use crate::mission_changes::mission_counts;
use crate::mission_changes::removed_from;
use crate::mission_changes::ChangeView;
use crate::mission_changes::MissionChange;
use crate::mission_changes::MissionCounts;
use crate::mission_changes::WorkerFileChange;
use crate::mission_id::hyphenated_form;
use crate::mission_id::short_mission_id;
use crate::mission_id::InvalidMissionId;
use crate::mission_id::MissionId;
use crate::mission_orchestrator::thread_mission_state;
use crate::mission_orchestrator::MissionThreadState;
use crate::mission_snapshot::blocked_workers;
use crate::mission_snapshot::changes_of;
use crate::mission_snapshot::contended_changes;
use crate::mission_snapshot::initials;
use crate::mission_snapshot::mission_snapshot;
use crate::mission_snapshot::mission_sources;
use crate::mission_snapshot::tokens_of;
use crate::mission_snapshot::upper_letter;
use crate::mission_snapshot::word_end;
use crate::mission_snapshot::word_start;
use crate::mission_snapshot::worker_changes;
use crate::mission_snapshot::HumanTeammate;
use crate::mission_snapshot::MissionSnapshot;
use crate::mission_snapshot::User;
use crate::mission_snapshot::WorkerRow;
use crate::mission_snapshot::WorkspaceState;
use crate::mission_tree::build_mission_tree;
use crate::mission_tree::filed_under;
use crate::mission_tree::filed_under_each;
use crate::mission_tree::mission_ids;
use crate::mission_tree::stale_ids;
use crate::mission_tree::MissionTree;
use crate::text::has_prefix;
use crate::text::is_white_space;
use crate::text::text_less;
use crate::text::views;
use crate::thread::active_tool_call_label;
use crate::thread::last_assistant_summary;
use crate::thread::worker_label;
use crate::thread::Mission;
use crate::thread::PendingPermission;
use crate::thread::Thread;
use crate::thread::ThreadMetadata;
use crate::thread::WorkerSource;
use crate::time::Timestamp;

verus! {

/// Whether a stored thread belongs to a mission.
pub open spec fn belongs_to(source: WorkerSource, id: MissionId) -> bool {
    source.metadata.mission_id == Some(id)
}

proof fn the_sources_of_a_mission(sources: Seq<WorkerSource>, id: MissionId)
    ensures
        mission_sources(sources, id) == sources.filter(|s: WorkerSource| belongs_to(s, id)),
    decreases sources.len(),
{
    filter_from_the_end(sources, |s: WorkerSource| belongs_to(s, id));
    if sources.len() > 0 {
        the_sources_of_a_mission(sources.drop_last(), id);
    }
}

/// A snapshot has a row for each thread of the mission and for no other, in their order: with the
/// thread's own metadata and the name of its agent, and, where the thread is loaded, what it
/// used, cost and said last.
pub proof fn a_snapshot_has_a_row_for_each_worker(
    mission: Mission,
    workspace: WorkspaceState,
    r: MissionSnapshot,
    k: int,
    label: String,
    state: MissionThreadState,
)
    requires
        call_ensures(mission_snapshot, (&mission, Some(&workspace)), r),
        0 <= k < workspace.sources@.filter(|s: WorkerSource| belongs_to(s, mission.id)).len(),
        ({
            let source = workspace.sources@.filter(|s: WorkerSource| belongs_to(s, mission.id))[k];
            &&& call_ensures(worker_label, (&source.metadata,), label)
            &&& call_ensures(thread_mission_state, (&source.thread,), state)
        }),
    ensures
        r.mission == Some(mission),
        r.workers@.len() == workspace.sources@.filter(
            |s: WorkerSource| belongs_to(s, mission.id),
        ).len(),
        ({
            let source = workspace.sources@.filter(|s: WorkerSource| belongs_to(s, mission.id))[k];
            let row = r.workers@[k];
            &&& row.metadata == source.metadata
            &&& row.thread_loaded <==> source.thread is Some
            &&& row.label@ == label@
            &&& row.state == state
            &&& source.display_name matches Some(name) ==> row.harness@ == name@
            &&& source.display_name is None ==> row.harness@ == source.agent_label@
            &&& source.thread matches Some(thread) ==> row.tokens == thread.used_tokens && row.cost
                == thread.cost
            &&& source.thread is None ==> row.tokens is None && row.cost is None
                && row.permission is None && row.activity is None && row.summary is None
        }),
{
    the_sources_of_a_mission(workspace.sources@, mission.id);
}

/// A loaded worker's row has the prompt that blocks the worker, and says then that it awaits
/// approval, and otherwise what the worker executes; and it has the summary of what it said.
pub proof fn a_row_says_what_its_worker_does(
    mission: Mission,
    workspace: WorkspaceState,
    r: MissionSnapshot,
    k: int,
    thread: Thread,
    prompt: Option<PendingPermission>,
    label: Option<String>,
    summary: Option<String>,
)
    requires
        call_ensures(mission_snapshot, (&mission, Some(&workspace)), r),
        0 <= k < workspace.sources@.filter(|s: WorkerSource| belongs_to(s, mission.id)).len(),
        workspace.sources@.filter(|s: WorkerSource| belongs_to(s, mission.id))[k].thread == Some(
            thread,
        ),
        call_ensures(PendingPermission::for_thread, (&thread,), prompt),
        call_ensures(active_tool_call_label, (&thread,), label),
        call_ensures(last_assistant_summary, (&thread,), summary),
    ensures
        ({
            let row = r.workers@[k];
            &&& row.permission is Some <==> prompt is Some
            &&& row.permission matches Some(p) ==> (prompt matches Some(q) && p.tool_call_id@
                == q.tool_call_id@ && p.label@ == q.label@ && p.allow == q.allow && p.reject
                == q.reject)
            &&& prompt is Some ==> (row.activity matches Some(text) && text@ == "awaiting approval"@)
            &&& prompt is None ==> (match (row.activity, label) {
                (Some(text), Some(l)) => text@ == l@,
                (None, None) => true,
                _ => false,
            })
            &&& match (row.summary, summary) {
                (Some(text), Some(line)) => text@ == line@,
                (None, None) => true,
                _ => false,
            }
        }),
{
    the_sources_of_a_mission(workspace.sources@, mission.id);
}

/// As much waits for the user as there are blocked workers and contended files; the user goes by
/// their name, or else their account's, or else is `You`. Without a workspace nothing waits and
/// there is nobody.
pub proof fn what_waits_for_the_user(
    mission: Mission,
    workspace: WorkspaceState,
    r: MissionSnapshot,
    alone: MissionSnapshot,
)
    requires
        call_ensures(mission_snapshot, (&mission, Some(&workspace)), r),
        call_ensures(mission_snapshot, (&mission, None), alone),
    ensures
        r.human.to_review == r.workers@.filter(|w: WorkerRow| is_blocked(w)).len()
            + r.changes@.filter(|c: MissionChange| is_contended(c)).len(),
        is_name_of(r.human.name@, workspace.user),
        alone.mission == Some(mission),
        alone.workers@.len() == 0,
        alone.changes@.len() == 0,
        alone.human.to_review == 0,
        is_name_of(alone.human.name@, None),
{
    blocked_and_contended_are_all_of_those(r.workers@, r.changes@);
}

/// Whether a name is the one that the user goes by.
pub open spec fn is_name_of(name: Seq<char>, user: Option<User>) -> bool {
    match user {
        Some(u) => match u.name {
            Some(n) => name == n@,
            None => name == u.username@,
        },
        None => name == "You"@,
    }
}

/// The user goes by their name, with its initials and their picture.
pub proof fn a_teammate_is_the_user(user: Option<User>, n: usize, r: HumanTeammate, name: &str, letters: String)
    requires
        call_ensures(HumanTeammate::new, (&user, n), r),
        name@ == r.name@,
        call_ensures(initials, (name,), letters),
    ensures
        is_name_of(r.name@, user),
        r.to_review == n,
        r.initials@ == letters@,
        user is None ==> r.avatar is None,
        user matches Some(u) ==> (r.avatar matches Some(a) && a@ == u.avatar_uri@),
{
}

/// Whether a word of a name starts at `p`.
pub open spec fn word_starts_at(name: Seq<char>, p: int) -> bool {
    0 <= p < name.len() && !is_white_space(name[p]) && (p == 0 || is_white_space(name[p - 1]))
}

proof fn a_word_starts(s: Seq<char>, from: int)
    requires
        0 <= from <= s.len(),
    ensures
        from <= word_start(s, from) <= s.len(),
        word_start(s, from) < s.len() ==> !is_white_space(s[word_start(s, from)]),
        forall|i: int| from <= i < word_start(s, from) ==> is_white_space(#[trigger] s[i]),
    decreases s.len() - from,
{
    if from < s.len() && is_white_space(s[from]) {
        a_word_starts(s, from + 1);
    }
}

proof fn a_word_ends(s: Seq<char>, from: int)
    requires
        0 <= from <= s.len(),
    ensures
        from <= word_end(s, from) <= s.len(),
        word_end(s, from) < s.len() ==> is_white_space(s[word_end(s, from)]),
        forall|i: int| from <= i < word_end(s, from) ==> !is_white_space(#[trigger] s[i]),
    decreases s.len() - from,
{
    if from < s.len() && !is_white_space(s[from]) {
        a_word_ends(s, from + 1);
    }
}

/// The initials of a name of two words or more are the first letters of its first two words; those
/// of one word are its first two letters, or its only one; a name without a word has none. All
/// are in upper case.
pub proof fn initials_are_those_of_the_first_words(name: &str, r: String, p: int, q: int)
    requires
        call_ensures(initials, (name,), r),
    ensures
        word_starts_at(name@, p) && word_starts_at(name@, q) && p < q && (forall|j: int|
            j < q && j != p ==> !word_starts_at(name@, j)) ==> r@ == seq![
            upper_letter(name@[p]),
            upper_letter(name@[q]),
        ],
        word_starts_at(name@, p) && (forall|j: int| j != p ==> !word_starts_at(name@, j)) ==> r@
            == if p + 1 < name@.len() && !is_white_space(name@[p + 1]) {
            seq![upper_letter(name@[p]), upper_letter(name@[p + 1])]
        } else {
            seq![upper_letter(name@[p])]
        },
        (forall|j: int| !word_starts_at(name@, j)) ==> r@ == seq!['?'],
{
    let s = name@;
    a_word_starts(s, 0);
    let first = word_start(s, 0);
    if first < s.len() {
        assert(word_starts_at(s, first));
        a_word_ends(s, first);
        let end = word_end(s, first);
        a_word_starts(s, end);
        let second = word_start(s, end);
        assert(end > first);
        if second < s.len() {
            assert(is_white_space(s[second - 1])) by {
                if second > end {
                    assert(is_white_space(s[second - 1]));
                } else {
                    assert(is_white_space(s[end]));
                }
            }
            assert(word_starts_at(s, second));
        }
        assert forall|j: int| first < j && word_starts_at(s, j) implies second <= j by {
            if j < end {
                assert(!is_white_space(s[j - 1]));
            } else if j < second {
                assert(is_white_space(s[j]));
            }
        }
        assert forall|j: int| word_starts_at(s, j) implies first <= j by {
            if j < first {
                assert(is_white_space(s[j]));
            }
        }
        if word_starts_at(s, p) && word_starts_at(s, q) && p < q && (forall|j: int|
            j < q && j != p ==> !word_starts_at(s, j)) {
            assert(p == first) by {
                if first < p {
                    assert(first < q && first != p);
                    assert(!word_starts_at(s, first));
                }
            }
            assert(second <= q);
            assert(q == second) by {
                if second < q {
                    assert(second != p);
                    assert(!word_starts_at(s, second));
                }
            }
        }
        if word_starts_at(s, p) && (forall|j: int| j != p ==> !word_starts_at(s, j)) {
            assert(p == first);
            assert(second >= s.len()) by {
                if second < s.len() {
                    assert(second != p);
                    assert(!word_starts_at(s, second));
                }
            }
            if p + 1 < s.len() && !is_white_space(s[p + 1]) {
                assert(end > p + 1) by {
                    if end == p + 1 {
                        assert(is_white_space(s[end]));
                    }
                }
            } else {
                if end > p + 1 {
                    assert(!is_white_space(s[p + 1]));
                }
            }
        }
    } else {
        assert forall|j: int| !word_starts_at(s, j) by {
            if 0 <= j < s.len() {
                assert(is_white_space(s[j]));
            }
        }
    }
}

/// The lines of a file are those of its changes: of no change none, of one change its own where it
/// is to that file, and of two lists of changes those of both.
pub proof fn lines_add_up(a: Seq<ChangeView>, b: Seq<ChangeView>, c: ChangeView, name: Seq<char>)
    ensures
        added_to(seq![], name) == 0,
        removed_from(seq![], name) == 0,
        added_to(seq![c], name) == if c.name == name {
            c.lines_added as nat
        } else {
            0
        },
        removed_from(seq![c], name) == if c.name == name {
            c.lines_removed as nat
        } else {
            0
        },
        added_to(a + b, name) == added_to(a, name) + added_to(b, name),
        removed_from(a + b, name) == removed_from(a, name) + removed_from(b, name),
    decreases b.len(),
{
    reveal_with_fuel(added_to, 2);
    reveal_with_fuel(removed_from, 2);
    assert(seq![c].drop_last() =~= Seq::<ChangeView>::empty());
    assert(seq![c].last() == c);
    if b.len() == 0 {
        assert(a + b =~= a);
    } else {
        lines_add_up(a, b.drop_last(), c, name);
        assert((a + b).drop_last() =~= a + b.drop_last());
        assert((a + b).last() == b.last());
    }
}

/// Whether the `i`-th change is the first to a file.
pub open spec fn first_to_touch(changes: Seq<WorkerFileChange>, name: Seq<char>, i: int) -> bool {
    &&& 0 <= i < changes.len()
    &&& changes[i].name@ == name
    &&& forall|j: int| 0 <= j < i ==> (#[trigger] changes[j]).name@ != name
}

proof fn the_first_author(changes: Seq<ChangeView>, name: Seq<char>, i: int)
    requires
        0 <= i < changes.len(),
        changes[i].name == name,
        forall|j: int| 0 <= j < i ==> (#[trigger] changes[j]).name != name,
    ensures
        authors_of(changes, name).len() > 0,
        authors_of(changes, name)[0] == changes[i].worker,
    decreases changes.len(),
{
    let rest = changes.drop_last();
    if i < rest.len() {
        assert(rest[i] == changes[i]);
        assert forall|j: int| 0 <= j < i implies (#[trigger] rest[j]).name != name by {
            assert(rest[j] == changes[j]);
        }
        the_first_author(rest, name, i);
    } else {
        assert forall|j: int| 0 <= j < rest.len() implies (#[trigger] rest[j]).name != name by {
            assert(rest[j] == changes[j]);
        }
        no_authors(rest, name);
        assert(authors_of(changes, name) =~= seq![changes[i].worker]);
    }
}

proof fn no_authors(changes: Seq<ChangeView>, name: Seq<char>)
    requires
        forall|j: int| 0 <= j < changes.len() ==> (#[trigger] changes[j]).name != name,
    ensures
        authors_of(changes, name).len() == 0,
    decreases changes.len(),
{
    if changes.len() > 0 {
        let rest = changes.drop_last();
        assert forall|j: int| 0 <= j < rest.len() implies (#[trigger] rest[j]).name != name by {
            assert(rest[j] == changes[j]);
        }
        assert(changes[changes.len() - 1] == changes.last());
        no_authors(rest, name);
    }
}

proof fn authors_are_those_who_changed(changes: Seq<ChangeView>, name: Seq<char>, worker: Seq<char>)
    ensures
        authors_of(changes, name).contains(worker) <==> exists|i: int|
            0 <= i < changes.len() && (#[trigger] changes[i]).name == name && changes[i].worker
                == worker,
        authors_of(changes, name).no_duplicates(),
    decreases changes.len(),
{
    if changes.len() > 0 {
        let rest = changes.drop_last();
        let n = rest.len() as int;
        let before = authors_of(rest, name);
        let last = changes.last();
        authors_are_those_who_changed(rest, name, worker);
        authors_are_those_who_changed(rest, name, last.worker);
        contains_after_push(before, last.worker);
        assert(changes[n] == last);
        if exists|i: int|
            0 <= i < rest.len() && (#[trigger] rest[i]).name == name && rest[i].worker == worker {
            let i = choose|i: int|
                0 <= i < rest.len() && (#[trigger] rest[i]).name == name && rest[i].worker == worker;
            assert(changes[i] == rest[i]);
        }
        if exists|i: int|
            0 <= i < changes.len() && (#[trigger] changes[i]).name == name && changes[i].worker
                == worker {
            let i = choose|i: int|
                0 <= i < changes.len() && (#[trigger] changes[i]).name == name && changes[i].worker
                    == worker;
            if i < n {
                assert(rest[i] == changes[i]);
            }
        }
        let all = authors_of(changes, name);
        assert forall|i: int, j: int| 0 <= i < all.len() && 0 <= j < all.len() && i != j implies all[i]
            != all[j] by {
            if i >= before.len() {
                assert(before.contains(before[j]));
            } else if j >= before.len() {
                assert(before.contains(before[i]));
            }
        }
    }
}

/// The merged list has each changed file once, by name, and no other; each with the lines that all
/// its changes add up to and the workers that touched it, each once, the one that touched it
/// first at the head.
pub proof fn merging_lists_each_file_once(
    changes: Vec<WorkerFileChange>,
    merged: Vec<MissionChange>,
    k: int,
    i: int,
    worker: Seq<char>,
)
    requires
        call_ensures(merge_worker_changes, (&changes,), merged),
        0 <= k < merged@.len(),
    ensures
        forall|a: int, b: int|
            0 <= a < b < merged@.len() ==> text_less(
                (#[trigger] merged@[a]).name@,
                (#[trigger] merged@[b]).name@,
            ),
        0 <= i < changes@.len() ==> exists|m: int|
            0 <= m < merged@.len() && (#[trigger] merged@[m]).name@ == changes@[i].name@,
        exists|c: int| 0 <= c < changes@.len() && (#[trigger] changes@[c]).name@ == merged@[k].name@,
        merged@[k].lines_added as nat == added_to(change_views(changes@), merged@[k].name@),
        merged@[k].lines_removed as nat == removed_from(change_views(changes@), merged@[k].name@),
        views(merged@[k].workers@).no_duplicates(),
        views(merged@[k].workers@).contains(worker) <==> exists|c: int|
            0 <= c < changes@.len() && (#[trigger] changes@[c]).name@ == merged@[k].name@
                && changes@[c].worker@ == worker,
        first_to_touch(changes@, merged@[k].name@, i) ==> merged@[k].workers@.len() > 0
            && merged@[k].workers@[0]@ == changes@[i].worker@,
{
    the_merged_list(changes@, merged@, k, i, worker);
}

proof fn the_merged_list(
    changes: Seq<WorkerFileChange>,
    merged: Seq<MissionChange>,
    k: int,
    i: int,
    worker: Seq<char>,
)
    requires
        merges(change_views(changes), merged),
        0 <= k < merged.len(),
    ensures
        0 <= i < changes.len() ==> exists|m: int|
            0 <= m < merged.len() && (#[trigger] merged[m]).name@ == changes[i].name@,
        exists|c: int| 0 <= c < changes.len() && (#[trigger] changes[c]).name@ == merged[k].name@,
        views(merged[k].workers@).no_duplicates(),
        views(merged[k].workers@).contains(worker) <==> exists|c: int|
            0 <= c < changes.len() && (#[trigger] changes[c]).name@ == merged[k].name@
                && changes[c].worker@ == worker,
        first_to_touch(changes, merged[k].name@, i) ==> merged[k].workers@.len() > 0
            && merged[k].workers@[0]@ == changes[i].worker@,
{
    let all = change_views(changes);
    let name = merged[k].name@;
    assert(all.len() == changes.len());
    assert forall|c: int| 0 <= c < changes.len() implies #[trigger] all[c] == changes[c]@ by {}
    let names = changed_names(all);
    assert(names.contains(name));
    let c = choose|c: int| 0 <= c < names.len() && names[c] == name;
    assert(all[c].name == name);
    assert(changes[c].name@ == name);
    if 0 <= i < changes.len() {
        assert(all[i].name == changes[i].name@);
        assert(file_names(merged).contains(all[i].name));
        let m = choose|m: int| 0 <= m < file_names(merged).len() && file_names(merged)[m] == all[i].name;
        assert(merged[m].name@ == changes[i].name@);
    }
    authors_are_those_who_changed(all, name, worker);
    if exists|c: int|
        0 <= c < all.len() && (#[trigger] all[c]).name == name && all[c].worker == worker {
        let c = choose|c: int|
            0 <= c < all.len() && (#[trigger] all[c]).name == name && all[c].worker == worker;
        assert(changes[c].name@ == name && changes[c].worker@ == worker);
    }
    if exists|c: int|
        0 <= c < changes.len() && (#[trigger] changes[c]).name@ == name && changes[c].worker@
            == worker {
        let c = choose|c: int|
            0 <= c < changes.len() && (#[trigger] changes[c]).name@ == name && changes[c].worker@
                == worker;
        assert(all[c].name == name && all[c].worker == worker);
    }
    if first_to_touch(changes, name, i) {
        assert forall|j: int| 0 <= j < i implies (#[trigger] all[j]).name != name by {
            assert(changes[j].name@ != name);
        }
        the_first_author(all, name, i);
        assert(views(merged[k].workers@)[0] == merged[k].workers@[0]@);
    }
}

/// A file is contended exactly where more than one worker is named for it.
pub proof fn contended_is_more_than_one_worker(change: MissionChange, r: bool)
    requires
        call_ensures(MissionChange::is_contended, (&change,), r),
    ensures
        r <==> change.workers@.len() >= 2,
{
}

/// The edits of the workers are those of their loaded threads, each under the label of its worker,
/// and no others.
pub proof fn edits_are_those_of_the_threads(
    workers: Seq<WorkerSource>,
    label: spec_fn(WorkerSource) -> Seq<char>,
    w: int,
    f: int,
)
    requires
        forall|s: WorkerSource| #[trigger] label(s) == match s.metadata.role {
            Some(role) => role@,
            None => s.metadata.display_title@,
        },
        0 <= w < workers.len(),
        workers[w].thread matches Some(thread) && 0 <= f < thread.changes@.len(),
    ensures
        workers[w].thread matches Some(thread) && worker_changes(workers).contains(
            (ChangeView {
                worker: label(workers[w]),
                name: thread.changes@[f].name@,
                lines_added: thread.changes@[f].lines_added,
                lines_removed: thread.changes@[f].lines_removed,
            }),
        ),
    decreases workers.len(),
{
    let rest = workers.drop_last();
    contains_in_sum(worker_changes(rest), changes_of(workers.last()));
    if w < rest.len() {
        assert(rest[w] == workers[w]);
        edits_are_those_of_the_threads(rest, label, w, f);
    } else {
        let thread = workers[w].thread.unwrap();
        let c = ChangeView {
            worker: label(workers[w]),
            name: thread.changes@[f].name@,
            lines_added: thread.changes@[f].lines_added,
            lines_removed: thread.changes@[f].lines_removed,
        };
        assert(label(workers[w]) == match workers[w].metadata.role {
            Some(role) => role@,
            None => workers[w].metadata.display_title@,
        });
        assert(changes_of(workers.last())[f] == c);
        assert(changes_of(workers.last()).contains(c));
    }
}

/// There are as many edits as the loaded threads have.
pub proof fn there_are_no_other_edits(workers: Seq<WorkerSource>)
    ensures
        workers.len() == 0 ==> worker_changes(workers).len() == 0,
        workers.len() > 0 ==> worker_changes(workers).len() == worker_changes(
            workers.drop_last(),
        ).len() + (match workers.last().thread {
            Some(thread) => thread.changes@.len(),
            None => 0,
        }),
{
}

/// A snapshot lists every file that a loaded worker of the mission changed, and that worker with
/// it.
pub proof fn a_snapshot_lists_every_changed_file(
    mission: Mission,
    workspace: WorkspaceState,
    r: MissionSnapshot,
    w: int,
    f: int,
    label: String,
)
    requires
        call_ensures(mission_snapshot, (&mission, Some(&workspace)), r),
        0 <= w < workspace.sources@.len(),
        workspace.sources@[w].metadata.mission_id == Some(mission.id),
        workspace.sources@[w].thread matches Some(thread) && 0 <= f < thread.changes@.len(),
        call_ensures(worker_label, (&workspace.sources@[w].metadata,), label),
    ensures
        workspace.sources@[w].thread matches Some(thread) && exists|m: int|
            0 <= m < r.changes@.len() && (#[trigger] r.changes@[m]).name@ == thread.changes@[f].name@
                && views(r.changes@[m].workers@).contains(label@),
{
    the_sources_of_a_mission(workspace.sources@, mission.id);
    let source = workspace.sources@[w];
    let thread = source.thread.unwrap();
    let mine = |s: WorkerSource| belongs_to(s, mission.id);
    let workers = workspace.sources@.filter(mine);
    what_a_filter_keeps(workspace.sources@, mine);
    assert(mine(source));
    assert(workers.contains(source));
    let j = choose|j: int| 0 <= j < workers.len() && workers[j] == source;
    let naming = |s: WorkerSource|
        match s.metadata.role {
            Some(role) => role@,
            None => s.metadata.display_title@,
        };
    edits_are_those_of_the_threads(workers, naming, j, f);
    let all = worker_changes(workers);
    let c = ChangeView {
        worker: naming(source),
        name: thread.changes@[f].name@,
        lines_added: thread.changes@[f].lines_added,
        lines_removed: thread.changes@[f].lines_removed,
    };
    assert(all.contains(c));
    let k = choose|k: int| 0 <= k < all.len() && all[k] == c;
    assert(file_names(r.changes@).contains(all[k].name));
    let m = choose|m: int| 0 <= m < file_names(r.changes@).len() && file_names(r.changes@)[m] == c.name;
    assert(r.changes@[m].name@ == c.name);
    authors_are_those_who_changed(all, c.name, c.worker);
    assert(authors_of(all, c.name).contains(c.worker));
}

/// How many workers changed files is the number of different names among those of the changes.
pub proof fn authors_are_counted_once(changes: Vec<MissionChange>, r: usize)
    requires
        call_ensures(change_author_count, (&changes,), r),
    ensures
        r == Set::new(|w: Seq<char>| has_author(changes@, w)).len(),
{
    assert(all_workers(changes@).to_set() =~= Set::new(|w: Seq<char>| has_author(changes@, w))) by {
        assert forall|w: Seq<char>| all_workers(changes@).contains(w) <==> has_author(changes@, w) by {
            authors_are_collected(changes@, w);
        }
    }
}

/// Whether a worker is named for some change.
pub open spec fn has_author(changes: Seq<MissionChange>, w: Seq<char>) -> bool {
    exists|i: int| 0 <= i < changes.len() && views((#[trigger] changes[i]).workers@).contains(w)
}

proof fn authors_are_collected(changes: Seq<MissionChange>, w: Seq<char>)
    ensures
        all_workers(changes).contains(w) <==> has_author(changes, w),
    decreases changes.len(),
{
    if changes.len() > 0 {
        let rest = changes.drop_last();
        let n = rest.len() as int;
        authors_are_collected(rest, w);
        contains_in_sum(all_workers(rest), views(changes.last().workers@));
        assert(changes[n] == changes.last());
        if has_author(rest, w) {
            let i = choose|i: int|
                0 <= i < rest.len() && views((#[trigger] rest[i]).workers@).contains(w);
            assert(changes[i] == rest[i]);
            assert(has_author(changes, w));
        }
        if has_author(changes, w) {
            let i = choose|i: int|
                0 <= i < changes.len() && views((#[trigger] changes[i]).workers@).contains(w);
            if i < n {
                assert(rest[i] == changes[i]);
                assert(has_author(rest, w));
            }
        }
    }
}

/// The counts of a mission are how many workers there are, how many wait for the user and how many
/// run.
pub proof fn states_are_counted(states: &[MissionThreadState], r: MissionCounts)
    requires
        call_ensures(mission_counts, (states,), r),
    ensures
        r.agents == states@.len(),
        r.blocked == states@.filter(|s: MissionThreadState| s is Waiting).len(),
        r.running == states@.filter(|s: MissionThreadState| s is Running).len(),
{
    counted_by_filter(states@);
}

proof fn counted_by_filter(states: Seq<MissionThreadState>)
    ensures
        count_of(states, MissionThreadState::Waiting) == states.filter(
            |s: MissionThreadState| s is Waiting,
        ).len(),
        count_of(states, MissionThreadState::Running) == states.filter(
            |s: MissionThreadState| s is Running,
        ).len(),
    decreases states.len(),
{
    filter_from_the_end(states, |s: MissionThreadState| s is Waiting);
    filter_from_the_end(states, |s: MissionThreadState| s is Running);
    if states.len() > 0 {
        counted_by_filter(states.drop_last());
    }
}

/// What a snapshot counts of its workers, and which of them and which files it lists as waiting for
/// the user.
pub proof fn a_snapshot_counts_its_workers(
    snapshot: MissionSnapshot,
    counts: MissionCounts,
    blocked: Vec<&WorkerRow>,
    contended: Vec<&MissionChange>,
)
    requires
        call_ensures(MissionSnapshot::counts, (&snapshot,), counts),
        call_ensures(MissionSnapshot::blocked, (&snapshot,), blocked),
        call_ensures(MissionSnapshot::contended, (&snapshot,), contended),
    ensures
        counts.agents == snapshot.workers@.len(),
        counts.blocked == crate::laws::views::workers_in(
            snapshot.workers@,
            MissionThreadState::Waiting,
        ),
        counts.running == crate::laws::views::workers_in(
            snapshot.workers@,
            MissionThreadState::Running,
        ),
        blocked@.map_values(|w: &WorkerRow| *w) == snapshot.workers@.filter(
            |w: WorkerRow| is_blocked(w),
        ),
        contended@.map_values(|c: &MissionChange| *c) == snapshot.changes@.filter(
            |c: MissionChange| is_contended(c),
        ),
{
    crate::laws::views::a_state_is_counted_by_its_workers(
        snapshot.workers@,
        MissionThreadState::Waiting,
    );
    crate::laws::views::a_state_is_counted_by_its_workers(
        snapshot.workers@,
        MissionThreadState::Running,
    );
    blocked_and_contended_are_all_of_those(snapshot.workers@, snapshot.changes@);
}

/// The tokens of workers are the sum of what each used; a worker of whom that is not known counts
/// nothing.
pub proof fn tokens_add_up(a: Seq<WorkerRow>, b: Seq<WorkerRow>, w: WorkerRow)
    ensures
        tokens_of(seq![]) == 0,
        tokens_of(seq![w]) == match w.tokens {
            Some(n) => n as nat,
            None => 0,
        },
        tokens_of(a + b) == tokens_of(a) + tokens_of(b),
    decreases b.len(),
{
    reveal_with_fuel(tokens_of, 2);
    assert(seq![w].drop_last() =~= Seq::<WorkerRow>::empty());
    assert(seq![w].last() == w);
    if b.len() == 0 {
        assert(a + b =~= a);
    } else {
        tokens_add_up(a, b.drop_last(), w);
        assert((a + b).drop_last() =~= a + b.drop_last());
        assert((a + b).last() == b.last());
    }
}

/// A snapshot's total is the sum of its workers' tokens.
pub proof fn the_total_is_the_sum(snapshot: MissionSnapshot, r: u64, a: Seq<WorkerRow>, w: WorkerRow)
    requires
        call_ensures(MissionSnapshot::total_tokens, (&snapshot,), r),
        snapshot.workers@ == a.push(w),
    ensures
        r as nat == tokens_of(a) + (match w.tokens {
            Some(n) => n as nat,
            None => 0,
        }),
{
    assert(a.push(w).drop_last() =~= a);
}

proof fn filed_threads(threads: Seq<ThreadMetadata>, id: Option<MissionId>)
    ensures
        filed_under(threads, id) == threads.filter(|t: ThreadMetadata| t.mission_id == id),
    decreases threads.len(),
{
    filter_from_the_end(threads, |t: ThreadMetadata| t.mission_id == id);
    if threads.len() > 0 {
        filed_threads(threads.drop_last(), id);
    }
}

/// The tree has a group for each mission, with that mission's threads in their order; where a
/// mission is listed again, only the first of its groups has them.
pub proof fn a_group_has_the_threads_of_its_mission(
    missions: Vec<Mission>,
    threads: Vec<ThreadMetadata>,
    r: MissionTree,
    k: int,
)
    requires
        call_ensures(build_mission_tree, (&missions, &threads), r),
        0 <= k < missions@.len(),
    ensures
        r.groups@.len() == missions@.len(),
        r.groups@[k].mission == missions@[k],
        (forall|j: int| 0 <= j < k ==> (#[trigger] missions@[j]).id != missions@[k].id)
            ==> r.groups@[k].threads@ == threads@.filter(
            |t: ThreadMetadata| t.mission_id == Some(missions@[k].id),
        ),
        (exists|j: int| 0 <= j < k && (#[trigger] missions@[j]).id == missions@[k].id)
            ==> r.groups@[k].threads@.len() == 0,
{
    filed_threads(threads@, Some(missions@[k].id));
    let before = mission_ids(missions@).take(k);
    assert forall|j: int| 0 <= j < k implies #[trigger] before[j] == missions@[j].id by {}
    if before.contains(missions@[k].id) {
        let j = choose|j: int| 0 <= j < before.len() && before[j] == missions@[k].id;
        assert(missions@[j].id == missions@[k].id);
    }
    if exists|j: int| 0 <= j < k && (#[trigger] missions@[j]).id == missions@[k].id {
        let j = choose|j: int| 0 <= j < k && (#[trigger] missions@[j]).id == missions@[k].id;
        assert(before[j] == missions@[k].id);
    }
}

/// Whether some mission has an id.
pub open spec fn is_listed(missions: Seq<Mission>, id: MissionId) -> bool {
    exists|j: int| 0 <= j < missions.len() && (#[trigger] missions[j]).id == id
}

proof fn stale_ids_are_named_and_not_listed(
    known: Seq<MissionId>,
    threads: Seq<ThreadMetadata>,
    id: MissionId,
)
    ensures
        stale_ids(known, threads).contains(id) <==> !known.contains(id) && exists|i: int|
            0 <= i < threads.len() && (#[trigger] threads[i]).mission_id == Some(id),
    decreases threads.len(),
{
    if threads.len() > 0 {
        let rest = threads.drop_last();
        let n = rest.len() as int;
        stale_ids_are_named_and_not_listed(known, rest, id);
        let before = stale_ids(known, rest);
        assert(threads[n] == threads.last());
        if exists|i: int| 0 <= i < rest.len() && (#[trigger] rest[i]).mission_id == Some(id) {
            let i = choose|i: int| 0 <= i < rest.len() && (#[trigger] rest[i]).mission_id == Some(id);
            assert(threads[i] == rest[i]);
        }
        if exists|i: int| 0 <= i < threads.len() && (#[trigger] threads[i]).mission_id == Some(id) {
            let i = choose|i: int|
                0 <= i < threads.len() && (#[trigger] threads[i]).mission_id == Some(id);
            if i < n {
                assert(rest[i] == threads[i]);
            }
        }
        match threads.last().mission_id {
            Some(last) => {
                contains_after_push(before, last);
            },
            None => {},
        }
    }
}

proof fn threads_filed_under_each(threads: Seq<ThreadMetadata>, ids: Seq<MissionId>, t: ThreadMetadata)
    ensures
        filed_under_each(threads, ids).contains(t) <==> threads.contains(t) && exists|i: int|
            0 <= i < ids.len() && t.mission_id == Some(#[trigger] ids[i]),
    decreases ids.len(),
{
    if ids.len() > 0 {
        let rest = ids.drop_last();
        let n = rest.len() as int;
        threads_filed_under_each(threads, rest, t);
        filed_threads(threads, Some(ids.last()));
        what_a_filter_keeps(threads, |t: ThreadMetadata| t.mission_id == Some(ids.last()));
        contains_in_sum(filed_under_each(threads, rest), filed_under(threads, Some(ids.last())));
        assert(ids[n] == ids.last());
        if exists|i: int| 0 <= i < rest.len() && t.mission_id == Some(#[trigger] rest[i]) {
            let i = choose|i: int| 0 <= i < rest.len() && t.mission_id == Some(#[trigger] rest[i]);
            assert(ids[i] == rest[i]);
        }
        if exists|i: int| 0 <= i < ids.len() && t.mission_id == Some(#[trigger] ids[i]) {
            let i = choose|i: int| 0 <= i < ids.len() && t.mission_id == Some(#[trigger] ids[i]);
            if i < n {
                assert(rest[i] == ids[i]);
            }
        }
    }
}

/// A thread is ungrouped exactly where it belongs to no mission or to one that is not listed; those
/// without a mission come first, in their order.
pub proof fn a_thread_is_ungrouped_where_its_mission_is_not_listed(
    missions: Vec<Mission>,
    threads: Vec<ThreadMetadata>,
    r: MissionTree,
    t: ThreadMetadata,
)
    requires
        call_ensures(build_mission_tree, (&missions, &threads), r),
    ensures
        r.ungrouped@.contains(t) <==> threads@.contains(t) && (match t.mission_id {
            Some(id) => !is_listed(missions@, id),
            None => true,
        }),
        ({
            let alone = threads@.filter(|t: ThreadMetadata| t.mission_id is None);
            alone.len() <= r.ungrouped@.len() && r.ungrouped@.take(alone.len() as int) == alone
        }),
{
    let known = mission_ids(missions@);
    let stale = stale_ids(known, threads@);
    let alone = filed_under(threads@, None);
    filed_threads(threads@, None);
    assert((|t: ThreadMetadata| t.mission_id == None::<MissionId>) =~= (|t: ThreadMetadata|
        t.mission_id is None));
    what_a_filter_keeps(threads@, |t: ThreadMetadata| t.mission_id == None::<MissionId>);
    threads_filed_under_each(threads@, stale, t);
    contains_in_sum(alone, filed_under_each(threads@, stale));
    assert((alone + filed_under_each(threads@, stale)).take(alone.len() as int) =~= alone);
    match t.mission_id {
        Some(id) => {
            stale_ids_are_named_and_not_listed(known, threads@, id);
            assert(known.contains(id) <==> is_listed(missions@, id)) by {
                if known.contains(id) {
                    let j = choose|j: int| 0 <= j < known.len() && known[j] == id;
                    assert(missions@[j].id == id);
                }
                if is_listed(missions@, id) {
                    let j = choose|j: int| 0 <= j < missions@.len() && (#[trigger] missions@[j]).id == id;
                    assert(known[j] == id);
                }
            }
            if exists|i: int| 0 <= i < stale.len() && t.mission_id == Some(#[trigger] stale[i]) {
                let i = choose|i: int| 0 <= i < stale.len() && t.mission_id == Some(#[trigger] stale[i]);
                assert(stale.contains(id));
            }
            if threads@.contains(t) {
                let i = choose|i: int| 0 <= i < threads@.len() && threads@[i] == t;
                assert(threads@[i].mission_id == Some(id));
                if stale.contains(id) {
                    let k = choose|k: int| 0 <= k < stale.len() && stale[k] == id;
                    assert(t.mission_id == Some(stale[k]));
                }
            }
        },
        None => {},
    }
}

/// The short form of an id is the first eight characters of its key, and a key read back gives no
/// other id than the one it was made of; no other id has that key.
pub proof fn an_id_goes_by_its_key(
    id: MissionId,
    other: MissionId,
    key: String,
    other_key: String,
    short: String,
    back: Result<MissionId, InvalidMissionId>,
    text: &str,
)
    requires
        call_ensures(MissionId::to_key_string, (&id,), key),
        call_ensures(MissionId::to_key_string, (&other,), other_key),
        call_ensures(short_mission_id, (&id,), short),
        text@ == key@,
        call_ensures(MissionId::from_key_string, (text,), back),
    ensures
        back matches Ok(read) ==> read == id,
        key@ == other_key@ ==> id == other,
        key@.len() == 36,
        short@.len() == 8,
        has_prefix(key@, short@),
        key@[8] == '-',
        key@[13] == '-',
        key@[18] == '-',
        key@[23] == '-',
{
    crate::mission_id::key_string_round_trips(id);
    crate::mission_id::key_string_round_trips(other);
    assert(key@ == hyphenated_form(id.value));
    assert(key@.subrange(0, 8) =~= short@);
    if key@ == other_key@ {
        crate::mission_id::a_text_denotes_one_identifier(key@, id.value, other.value);
    }
    assert(crate::mission_id::denotes(text@, id.value));
    if back is Ok {
        crate::mission_id::a_text_denotes_one_identifier(text@, id.value, back->Ok_0.value);
    }
}

/// Instants are ordered by their seconds, and within one second by their nanoseconds: of two that
/// differ one comes first, and none comes before itself.
pub proof fn instants_are_ordered(a: Timestamp, b: Timestamp, ab: bool, ba: bool)
    requires
        call_ensures(Timestamp::is_before, (&a, &b), ab),
        call_ensures(Timestamp::is_before, (&b, &a), ba),
    ensures
        !(ab && ba),
        a != b ==> ab || ba,
        a == b ==> !ab && !ba,
        a.seconds < b.seconds ==> ab,
        a.seconds == b.seconds && a.nanos < b.nanos ==> ab,
{
}

/// The calendar has an instant where its second is one of the calendar's and its nanoseconds are
/// less than a billion, or less than two at the last second of a minute.
pub proof fn the_calendar_has_an_instant(t: Timestamp, r: bool)
    requires
        call_ensures(Timestamp::is_valid, (&t,), r),
    ensures
        r <==> -8334601228800 <= t.seconds <= 8210266876799 && (t.nanos < 1_000_000_000 || (t.nanos
            < 2_000_000_000 && t.seconds as int % 60 == 59)),
{
}

/// The initials of a name in ASCII hold no small letter.
pub proof fn initials_are_in_upper_case(name: &str, r: String, i: int)
    requires
        call_ensures(initials, (name,), r),
        crate::text::is_ascii_text(name@),
        0 <= i < r@.len(),
    ensures
        !('a' <= r@[i] <= 'z'),
{
}

/// The workers that wait and the files that are contended are listed in their order.
pub proof fn what_waits_is_listed(
    workers: Vec<WorkerRow>,
    blocked: Vec<&WorkerRow>,
    changes: Vec<MissionChange>,
    contended: Vec<&MissionChange>,
)
    requires
        call_ensures(blocked_workers, (&workers,), blocked),
        call_ensures(contended_changes, (&changes,), contended),
    ensures
        blocked@.map_values(|w: &WorkerRow| *w) == workers@.filter(|w: WorkerRow| is_blocked(w)),
        contended@.map_values(|c: &MissionChange| *c) == changes@.filter(
            |c: MissionChange| is_contended(c),
        ),
{
    blocked_and_contended_are_all_of_those(workers@, changes@);
}

} // verus!
