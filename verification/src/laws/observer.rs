//! Laws about watching a thread: which tool calls are recorded, as what, and when.

use vstd::prelude::*;
use crate::laws::texts::blank;
use crate::laws::texts::is_bare;
use crate::laws::texts::trimming_cuts_the_white_space_at_the_ends;
use crate::mission_context_observer::mission_context_for_thread;
use crate::mission_context_observer::new_terminals;
use crate::mission_context_observer::observe_entry;
use crate::mission_context_observer::record_observed_artifacts;
use crate::mission_context_observer::record_terminal_evidence;
use crate::mission_context_observer::strip_code_fence;
use crate::mission_context_observer::Observation;
use crate::mission_context_observer::ObserverState;
use crate::mission_context_observer::TerminalOutput;
use crate::mission_id::MissionId;
use crate::shared_context::SharedContextStore;
use crate::text::has_prefix;
use crate::text::has_suffix;
use crate::text::joined;
use crate::text::views;
use crate::thread::ThreadEntry;
use crate::thread::ThreadMetadata;
use crate::thread::ToolCall;
use crate::thread::ToolCallContent;
use crate::thread::ToolKind;

verus! {

/// Whether a tool call changes files.
pub open spec fn changes_files(kind: ToolKind) -> bool {
    kind is Edit || kind is Delete || kind is Move
}

/// Whether `role` is that of a thread, without the white space around it; a thread without one,
/// or with a blank one, has none.
pub open spec fn is_role_of_thread(role: Option<String>, metadata: ThreadMetadata) -> bool {
    match metadata.role {
        Some(text) => match role {
            Some(r) => r@.len() > 0 && is_bare(text@, r@),
            None => blank(text@),
        },
        None => role is None,
    }
}

/// A thread is watched for its mission and the role of its worker; one without a mission is not.
pub proof fn a_thread_is_watched_for_its_mission(
    metadata: Option<&ThreadMetadata>,
    r: Option<(MissionId, Option<String>)>,
)
    requires
        call_ensures(mission_context_for_thread, (metadata,), r),
    ensures
        r is Some <==> (metadata matches Some(m) && m.mission_id is Some),
        r matches Some(found) ==> (metadata matches Some(m) && m.mission_id == Some(found.0)
            && is_role_of_thread(found.1, *m)),
{
    match metadata {
        Some(m) => match m.role {
            Some(role) => {
                trimming_cuts_the_white_space_at_the_ends(role@);
            },
            None => {},
        },
        None => {},
    }
}

/// Artifacts come of nothing but a tool call that changes files and is completed: of a thread
/// that belongs to a mission, at the first sight of the call, and one for each of its paths.
pub proof fn only_completed_edits_become_artifacts(
    state: &mut ObserverState,
    metadata: Option<&ThreadMetadata>,
    entry: Option<&ThreadEntry>,
    r: Observation,
)
    requires
        call_ensures(observe_entry, (state, metadata, entry), r),
        r is Artifacts,
    ensures
        entry matches Some(e) && *e matches ThreadEntry::ToolCall(call) && call.status is Completed
            && changes_files(call.kind) && call.locations@.len() > 0 && !old(state).calls().contains(call.id@) && final(state).calls() == old(state).calls().push(call.id@),
        final(state).terminals() == old(state).terminals(),
        metadata matches Some(m) && m.mission_id is Some,
{
}

/// A tool call that changes files and is pending, waiting, in progress, failed, rejected or
/// canceled gives nothing to record, and is not noted.
pub proof fn an_unfinished_edit_gives_nothing(
    state: &mut ObserverState,
    metadata: Option<&ThreadMetadata>,
    call: ToolCall,
    r: Observation,
)
    requires
        call_ensures(observe_entry, (state, metadata, Some(&ThreadEntry::ToolCall(call))), r),
        changes_files(call.kind),
        !(call.status is Completed),
    ensures
        r is Nothing,
        final(state).calls() == old(state).calls(),
        final(state).terminals() == old(state).terminals(),
{
}

/// A completed tool call that changes files, at its first sight, gives an artifact for each of
/// its paths, in their order, under the mission and the role of the thread; the summary says
/// what was done and names the paths. At any later sight it gives nothing, and nothing is
/// forgotten.
pub proof fn a_completed_edit_is_recorded_once(
    state: &mut ObserverState,
    metadata: ThreadMetadata,
    call: ToolCall,
    r: Observation,
)
    requires
        call_ensures(observe_entry, (state, Some(&metadata), Some(&ThreadEntry::ToolCall(call))), r),
        metadata.mission_id is Some,
        changes_files(call.kind),
        call.status is Completed,
    ensures
        final(state).calls().contains(call.id@),
        forall|id: Seq<char>| old(state).calls().contains(id) ==> final(state).calls().contains(id),
        forall|id: Seq<char>|
            final(state).calls().contains(id) ==> old(state).calls().contains(id) || id == call.id@,
        final(state).terminals() == old(state).terminals(),
        old(state).calls().contains(call.id@) || call.locations@.len() == 0 ==> r is Nothing,
        !old(state).calls().contains(call.id@) && call.locations@.len() > 0 ==> match r {
            Observation::Artifacts { mission_id, role, paths, change_summary } => {
                &&& Some(mission_id) == metadata.mission_id
                &&& is_role_of_thread(role, metadata)
                &&& paths@.len() == call.locations@.len()
                &&& forall|i: int| 0 <= i < paths@.len() ==> (#[trigger] paths@[i])@ == call.locations@[i]@
                &&& call.kind is Edit ==> change_summary@ == "Edited"@ + " "@ + joined(
                    views(call.locations@),
                    ", "@,
                )
                &&& call.kind is Delete ==> change_summary@ == "Deleted"@ + " "@ + joined(
                    views(call.locations@),
                    ", "@,
                )
                &&& call.kind is Move ==> change_summary@ == "Moved/renamed"@ + " "@ + joined(
                    views(call.locations@),
                    ", "@,
                )
            },
            _ => false,
        },
{
    crate::lists::contains_after_push(old(state).calls(), call.id@);
    match metadata.role {
        Some(role) => {
            trimming_cuts_the_white_space_at_the_ends(role@);
        },
        None => {},
    }
    match r {
        Observation::Artifacts { mission_id, role, paths, change_summary } => {
            assert(views(paths@) == views(call.locations@));
            assert(views(paths@).len() == paths@.len());
            assert(views(call.locations@).len() == call.locations@.len());
            assert forall|i: int| 0 <= i < paths@.len() implies (#[trigger] paths@[i])@
                == call.locations@[i]@ by {
                assert(views(paths@)[i] == paths@[i]@);
                assert(views(call.locations@)[i] == call.locations@[i]@);
            }
        },
        _ => {},
    }
}

/// Whether a terminal is shown among the content of a tool call.
pub open spec fn shows_terminal(content: Seq<ToolCallContent>, id: Seq<char>) -> bool {
    exists|i: int|
        0 <= i < content.len() && (#[trigger] content[i] matches ToolCallContent::Terminal(t) && t@
            == id)
}

proof fn new_terminals_are_those_not_seen(
    content: Seq<ToolCallContent>,
    seen: Seq<Seq<char>>,
    id: Seq<char>,
)
    ensures
        new_terminals(content, seen).contains(id) <==> shows_terminal(content, id) && !seen.contains(
            id,
        ),
        new_terminals(content, seen).no_duplicates(),
    decreases content.len(),
{
    if content.len() > 0 {
        let rest = content.drop_last();
        new_terminals_are_those_not_seen(rest, seen, id);
        let before = new_terminals(rest, seen);
        let n = rest.len() as int;
        assert(content[n] == content.last());
        if shows_terminal(rest, id) {
            let i = choose|i: int|
                0 <= i < rest.len() && (#[trigger] rest[i] matches ToolCallContent::Terminal(t) && t@
                    == id);
            assert(content[i] == rest[i]);
            assert(shows_terminal(content, id));
        }
        if shows_terminal(content, id) {
            let i = choose|i: int|
                0 <= i < content.len() && (#[trigger] content[i] matches ToolCallContent::Terminal(t)
                    && t@ == id);
            if i < n {
                assert(rest[i] == content[i]);
                assert(shows_terminal(rest, id));
            }
        }
        match content.last() {
            ToolCallContent::Terminal(last) => {
                crate::lists::contains_after_push(before, last@);
                crate::lists::contains_in_sum(seen, before);
                if !(seen + before).contains(last@) {
                    let all = before.push(last@);
                    assert forall|i: int, j: int|
                        0 <= i < all.len() && 0 <= j < all.len() && i != j implies all[i] != all[j] by {
                        if i == before.len() {
                            assert(before.contains(before[j]));
                        } else if j == before.len() {
                            assert(before.contains(before[i]));
                        }
                    }
                }
            },
            ToolCallContent::Other => {},
        }
    } else {
        assert(!shows_terminal(content, id));
    }
}

/// A command's terminals are awaited once each: those that the call shows and that were not
/// noted before, under the mission and the role of the thread, whatever the call's status. They
/// are noted, nothing noted is forgotten, and nothing else is noted.
pub proof fn a_commands_terminals_are_awaited_once(
    state: &mut ObserverState,
    metadata: ThreadMetadata,
    call: ToolCall,
    r: Observation,
    id: Seq<char>,
)
    requires
        call_ensures(observe_entry, (state, Some(&metadata), Some(&ThreadEntry::ToolCall(call))), r),
        metadata.mission_id is Some,
        call.kind is Execute,
    ensures
        final(state).calls() == old(state).calls(),
        final(state).terminals().contains(id) <==> old(state).terminals().contains(id)
            || shows_terminal(call.content@, id),
        match r {
            Observation::Terminals { mission_id, role, terminals } => {
                &&& Some(mission_id) == metadata.mission_id
                &&& is_role_of_thread(role, metadata)
                &&& views(terminals@).no_duplicates()
                &&& views(terminals@).contains(id) <==> shows_terminal(call.content@, id) && !old(state).terminals().contains(id)
            },
            _ => false,
        },
{
    let seen = old(state).terminals();
    new_terminals_are_those_not_seen(call.content@, seen, id);
    crate::lists::contains_in_sum(seen, new_terminals(call.content@, seen));
    match metadata.role {
        Some(role) => {
            trimming_cuts_the_white_space_at_the_ends(role@);
        },
        None => {},
    }
}

/// A tool call of any other kind, any other entry, no entry, and any entry of a thread that
/// belongs to no mission give nothing, and nothing is noted.
pub proof fn everything_else_gives_nothing(
    state: &mut ObserverState,
    metadata: Option<&ThreadMetadata>,
    entry: Option<&ThreadEntry>,
    r: Observation,
)
    requires
        call_ensures(observe_entry, (state, metadata, entry), r),
        !(metadata matches Some(m) && m.mission_id is Some) || !(entry matches Some(e) && *e
            matches ThreadEntry::ToolCall(call) && (changes_files(call.kind) || call.kind is Execute)),
    ensures
        r is Nothing,
        final(state).calls() == old(state).calls(),
        final(state).terminals() == old(state).terminals(),
{
}

/// A fence around a command is taken off, once; a text without one stays as it is.
pub proof fn a_code_fence_is_taken_off(source: &str, inside: Seq<char>, r: String)
    requires
        call_ensures(strip_code_fence, (source,), r),
    ensures
        source@ == "```\n"@ + inside + "\n```"@ ==> r@ == inside,
        !has_prefix(source@, "```\n"@) || !has_suffix(source@, "\n```"@) || source@.len() < 8 ==> r@
            == source@,
{
    reveal_strlit("```\n");
    reveal_strlit("\n```");
    let s = source@;
    let body = s.subrange(4, s.len() as int);
    if s == "```\n"@ + inside + "\n```"@ {
        assert(s.subrange(0, 4) =~= "```\n"@);
        assert(body.subrange(body.len() - 4, body.len() as int) =~= "\n```"@);
        assert(body.subrange(0, body.len() - 4) =~= inside);
    }
    if s.len() >= 8 {
        assert(body.subrange(body.len() - 4, body.len() as int) =~= s.subrange(
            s.len() - 4,
            s.len() as int,
        ));
    }
}

/// Each path of a finished edit becomes one artifact row, in the order of the paths, behind the
/// rows that were there, recorded by the observer for the mission and the role.
pub proof fn each_path_becomes_an_artifact(
    store: &mut SharedContextStore,
    mission_id: MissionId,
    role: Option<String>,
    paths: Vec<String>,
    change_summary: &str,
    i: int,
)
    requires
        call_ensures(
            record_observed_artifacts,
            (store, mission_id, &role, &paths, change_summary),
            (),
        ),
        0 <= i < paths@.len(),
    ensures
        final(store).artifacts@.len() == old(store).artifacts@.len() + paths@.len(),
        final(store).artifacts@.take(old(store).artifacts@.len() as int) == old(store).artifacts@,
        final(store).decisions@ == old(store).decisions@,
        final(store).evidence@ == old(store).evidence@,
        ({
            let row = final(store).artifacts@[old(store).artifacts@.len() + i];
            &&& row.mission_id == mission_id
            &&& row.path@ == paths@[i]@
            &&& row.change_summary@ == change_summary@
            &&& row.author@ == "zed-observer"@
            &&& row.role == role
            &&& crate::laws::server::is_stamped_by_a_clock(row.created_at@)
        }),
{
    crate::laws::server::stamps_are_a_clocks(
        final(store).artifacts@[old(store).artifacts@.len() + i].created_at@,
    );
}

/// A finished command becomes one row of evidence behind those that were there: the command
/// without a fence, what the terminal shows as its result, the exit code, and the observer as
/// its author. A terminal without output gives no row.
pub proof fn a_finished_command_becomes_evidence(
    store: &mut SharedContextStore,
    mission_id: MissionId,
    role: Option<String>,
    command: &str,
    output: Option<TerminalOutput>,
    stripped: String,
)
    requires
        call_ensures(
            record_terminal_evidence,
            (store, mission_id, role, command, output),
            (),
        ),
        call_ensures(strip_code_fence, (command,), stripped),
    ensures
        final(store).decisions@ == old(store).decisions@,
        final(store).artifacts@ == old(store).artifacts@,
        output is None ==> final(store).evidence@ == old(store).evidence@,
        output matches Some(out) ==> {
            let row = final(store).evidence@.last();
            &&& final(store).evidence@.len() == old(store).evidence@.len() + 1
            &&& final(store).evidence@.drop_last() == old(store).evidence@
            &&& row.mission_id == mission_id
            &&& row.command@ == stripped@
            &&& row.result@ == out.content@
            &&& row.exit_code == out.exit_code
            &&& row.author@ == "zed-observer"@
            &&& row.role == role
            &&& crate::laws::server::is_stamped_by_a_clock(row.created_at@)
        },
{
    if output is Some {
        crate::laws::server::stamps_are_a_clocks(final(store).evidence@.last().created_at@);
    }
}

/// Whether a terminal is shown at `i` for the first time.
pub open spec fn first_shown_at(content: Seq<ToolCallContent>, id: Seq<char>, i: int) -> bool {
    &&& 0 <= i < content.len()
    &&& content[i] matches ToolCallContent::Terminal(t) && t@ == id
    &&& forall|j: int|
        0 <= j < i ==> !(#[trigger] content[j] matches ToolCallContent::Terminal(t) && t@ == id)
}

proof fn new_terminals_are_in_order(content: Seq<ToolCallContent>, seen: Seq<Seq<char>>, a: int)
    requires
        0 <= a < new_terminals(content, seen).len(),
    ensures
        exists|i: int| #[trigger] first_shown_at(content, new_terminals(content, seen)[a], i),
        forall|b: int, i: int, j: int|
            0 <= b < a && #[trigger] first_shown_at(content, new_terminals(content, seen)[b], i)
                && #[trigger] first_shown_at(content, new_terminals(content, seen)[a], j) ==> i < j,
    decreases content.len(),
{
    let rest = content.drop_last();
    let n = rest.len() as int;
    let before = new_terminals(rest, seen);
    let all = new_terminals(content, seen);
    let id = all[a];
    assert forall|x: Seq<char>, i: int| first_shown_at(rest, x, i) <==> first_shown_at(content, x, i)
        && i < n by {
        if 0 <= i < n {
            assert(rest[i] == content[i]);
            assert(forall|j: int| 0 <= j < i ==> rest[j] == content[j]);
            if first_shown_at(rest, x, i) {
                assert forall|j: int| 0 <= j < i implies !(#[trigger] content[j] matches
                    ToolCallContent::Terminal(t) && t@ == x) by {
                    assert(rest[j] == content[j]);
                }
            }
            if first_shown_at(content, x, i) {
                assert forall|j: int| 0 <= j < i implies !(#[trigger] rest[j] matches
                    ToolCallContent::Terminal(t) && t@ == x) by {
                    assert(rest[j] == content[j]);
                }
            }
        }
    }
    if a < before.len() {
        new_terminals_are_in_order(rest, seen, a);
        let i = choose|i: int| #[trigger] first_shown_at(rest, before[a], i);
        assert(first_shown_at(content, id, i));
        assert forall|b: int, i: int, j: int|
            0 <= b < a && #[trigger] first_shown_at(content, all[b], i) && #[trigger] first_shown_at(
                content,
                all[a],
                j,
            ) implies i < j by {
            new_terminals_are_in_order(rest, seen, b);
            let x = choose|x: int| #[trigger] first_shown_at(rest, before[b], x);
            let y = choose|y: int| #[trigger] first_shown_at(rest, before[a], y);
            first_shown_is_one(content, all[b], i, x);
            first_shown_is_one(content, all[a], j, y);
            assert(x < y);
        }
    } else {
        match content.last() {
            ToolCallContent::Terminal(t) => {
                new_terminals_are_those_not_seen(rest, seen, t@);
                crate::lists::contains_in_sum(seen, before);
                assert forall|j: int| 0 <= j < n implies !(#[trigger] content[j] matches
                    ToolCallContent::Terminal(u) && u@ == t@) by {
                    if content[j] matches ToolCallContent::Terminal(u) && u@ == t@ {
                        assert(rest[j] == content[j]);
                        assert(shows_terminal(rest, t@));
                    }
                }
                assert(first_shown_at(content, id, n));
                assert forall|b: int, i: int, j: int|
                    0 <= b < a && #[trigger] first_shown_at(content, all[b], i)
                        && #[trigger] first_shown_at(content, all[a], j) implies i < j by {
                    new_terminals_are_in_order(rest, seen, b);
                    let x = choose|x: int| #[trigger] first_shown_at(rest, before[b], x);
                    first_shown_is_one(content, all[b], i, x);
                    first_shown_is_one(content, all[a], j, n);
                }
            },
            ToolCallContent::Other => {},
        }
    }
}

proof fn first_shown_is_one(content: Seq<ToolCallContent>, id: Seq<char>, i: int, j: int)
    requires
        first_shown_at(content, id, i),
        first_shown_at(content, id, j),
    ensures
        i == j,
{
    if i < j {
        assert(content[i] matches ToolCallContent::Terminal(t) && t@ == id);
    }
    if j < i {
        assert(content[j] matches ToolCallContent::Terminal(t) && t@ == id);
    }
}

/// The terminals of a command are awaited in the order in which the call shows them.
pub proof fn terminals_are_awaited_in_their_order(
    state: &mut ObserverState,
    metadata: ThreadMetadata,
    call: ToolCall,
    mission_id: MissionId,
    role: Option<String>,
    terminals: Vec<String>,
    a: int,
    b: int,
    i: int,
    j: int,
)
    requires
        call_ensures(
            observe_entry,
            (state, Some(&metadata), Some(&ThreadEntry::ToolCall(call))),
            Observation::Terminals { mission_id, role, terminals },
        ),
        0 <= a < b < terminals@.len(),
        first_shown_at(call.content@, terminals@[a]@, i),
        first_shown_at(call.content@, terminals@[b]@, j),
    ensures
        i < j,
{
    let fresh = new_terminals(call.content@, old(state).terminals());
    assert(views(terminals@) == fresh);
    assert(views(terminals@)[a] == terminals@[a]@);
    assert(views(terminals@)[b] == terminals@[b]@);
    new_terminals_are_in_order(call.content@, old(state).terminals(), b);
}

/// Nothing is ever noted twice.
pub proof fn nothing_is_noted_twice(
    state: &mut ObserverState,
    metadata: Option<&ThreadMetadata>,
    entry: Option<&ThreadEntry>,
    r: Observation,
)
    requires
        call_ensures(observe_entry, (state, metadata, entry), r),
        old(state).calls().no_duplicates(),
        old(state).terminals().no_duplicates(),
    ensures
        final(state).calls().no_duplicates(),
        final(state).terminals().no_duplicates(),
{
}

} // verus!
