//! Laws about threads: what they are blocked on, what they run, what they said, and the state
//! that they and their mission are in.

use vstd::prelude::*;
use crate::laws::texts::is_bare;
use crate::laws::texts::trimming_cuts_the_white_space_at_the_ends;
use crate::mission_id::MissionId;
use crate::mission_orchestrator::is_failed_call;
use crate::mission_orchestrator::mission_state;
use crate::mission_orchestrator::mission_states;
use crate::mission_orchestrator::state_of_source;
use crate::mission_orchestrator::thread_mission_state;
use crate::mission_orchestrator::MissionState;
use crate::mission_orchestrator::MissionThreadState;
use crate::text::trimmed;
use crate::thread::active_tool_call;
use crate::thread::active_tool_call_label;
use crate::thread::first_of_kind;
use crate::thread::last_assistant;
use crate::thread::last_assistant_summary;
use crate::thread::last_user;
use crate::thread::last_user_message;
use crate::thread::line_end;
use crate::thread::pending_call;
use crate::thread::pending_permission;
use crate::thread::running_call;
use crate::thread::summary_line;
use crate::thread::worker_label;
use crate::thread::PendingPermission;
use crate::thread::PermissionOption;
use crate::thread::PermissionOptionKind;
use crate::thread::Thread;
use crate::thread::ThreadEntry;
use crate::thread::ThreadMetadata;
use crate::thread::ToolCall;
use crate::thread::ToolCallStatus;
use crate::thread::WorkerSource;

verus! {

/// The last user message is a user message, and there is none after it.
pub proof fn the_last_user_message_is_the_last(entries: Seq<ThreadEntry>)
    ensures
        -1 <= last_user(entries) < entries.len(),
        last_user(entries) >= 0 ==> entries[last_user(entries)] is UserMessage,
        forall|i: int| last_user(entries) < i < entries.len() ==> !(#[trigger] entries[i] is UserMessage),
    decreases entries.len(),
{
    if entries.len() > 0 && !(entries.last() is UserMessage) {
        let rest = entries.drop_last();
        the_last_user_message_is_the_last(rest);
        assert forall|i: int| last_user(entries) < i < entries.len() implies !(
        #[trigger] entries[i] is UserMessage) by {
            if i < rest.len() {
                assert(rest[i] == entries[i]);
            }
        }
        if last_user(rest) >= 0 {
            assert(rest[last_user(rest)] == entries[last_user(rest)]);
        }
    }
}

/// Whether a tool call failed or was rejected at `i`, and the user has not spoken since.
pub open spec fn failed_since_the_user_spoke(entries: Seq<ThreadEntry>, i: int) -> bool {
    &&& 0 <= i < entries.len()
    &&& entries[i] matches ThreadEntry::ToolCall(call) && (call.status is Failed || call.status
        is Rejected)
    &&& forall|j: int| i < j < entries.len() ==> !(#[trigger] entries[j] is UserMessage)
}

/// A thread in which a tool call failed or was rejected since the user last spoke has failed,
/// whatever came after the call.
pub proof fn a_failed_call_fails_the_thread(thread: Thread, i: int, state: MissionThreadState)
    requires
        failed_since_the_user_spoke(thread.entries@, i),
        call_ensures(thread_mission_state, (&Some(thread),), state),
    ensures
        state == MissionThreadState::Failed,
        state_of_source(Some(thread)) == MissionThreadState::Failed,
{
    let entries = thread.entries@;
    the_last_user_message_is_the_last(entries);
    if last_user(entries) > i {
        assert(entries[last_user(entries)] is UserMessage);
    }
    assert(is_failed_call(entries[i]));
}

/// A thread has failed only where it had an error, or where a tool call failed or was rejected
/// since the user last spoke.
pub proof fn a_thread_fails_for_a_reason(thread: Thread, state: MissionThreadState)
    requires
        call_ensures(thread_mission_state, (&Some(thread),), state),
        state == MissionThreadState::Failed,
    ensures
        thread.had_error || exists|i: int| failed_since_the_user_spoke(thread.entries@, i),
{
    let entries = thread.entries@;
    if !thread.had_error {
        the_last_user_message_is_the_last(entries);
        let i = choose|i: int|
            0 <= i < entries.len() && last_user(entries) <= i && is_failed_call(#[trigger] entries[i]);
        assert(failed_since_the_user_spoke(entries, i));
    }
}

/// Whether nothing in a thread has failed.
pub open spec fn nothing_failed(thread: Thread) -> bool {
    !thread.had_error && forall|i: int| !#[trigger] failed_since_the_user_spoke(thread.entries@, i)
}

/// A thread with an error has failed. One in which nothing failed waits where it waits for
/// the user, runs where it generates, has not started where it is empty or a draft, and is
/// done otherwise; and one that is not loaded has not started.
pub proof fn the_state_of_a_thread(
    thread: Thread,
    state: MissionThreadState,
    unloaded: MissionThreadState,
)
    requires
        call_ensures(thread_mission_state, (&Some(thread),), state),
        call_ensures(thread_mission_state, (&None,), unloaded),
    ensures
        thread.had_error ==> state is Failed,
        nothing_failed(thread) ==> !(state is Failed),
        nothing_failed(thread) ==> (state is Waiting <==> thread.waiting_for_confirmation),
        nothing_failed(thread) && !thread.waiting_for_confirmation ==> (state is Running
            <==> thread.status is Generating),
        nothing_failed(thread) && !thread.waiting_for_confirmation && thread.status is Idle ==> (
        state is Created <==> thread.entries@.len() == 0 || thread.is_draft),
        state is Completed ==> thread.status is Idle && thread.entries@.len() > 0
            && !thread.is_draft && !thread.waiting_for_confirmation,
        unloaded is Created,
{
    if state is Failed {
        a_thread_fails_for_a_reason(thread, state);
    }
}

/// Every thread of a mission counts for the mission's state, and no other thread does.
pub proof fn the_threads_of_a_mission_count(
    sources: Seq<WorkerSource>,
    id: MissionId,
    state: MissionThreadState,
)
    ensures
        mission_states(sources, id).contains(state) <==> exists|i: int|
            0 <= i < sources.len() && (#[trigger] sources[i]).metadata.mission_id == Some(id)
                && state_of_source(sources[i].thread) == state,
        mission_states(sources, id).len() <= sources.len(),
    decreases sources.len(),
{
    let states = mission_states(sources, id);
    if sources.len() > 0 {
        let rest = sources.drop_last();
        the_threads_of_a_mission_count(rest, id, state);
        let before = mission_states(rest, id);
        crate::lists::contains_after_push(before, state_of_source(sources.last().thread));
        if before.contains(state) {
            let i = choose|i: int|
                0 <= i < rest.len() && (#[trigger] rest[i]).metadata.mission_id == Some(id)
                    && state_of_source(rest[i].thread) == state;
            assert(sources[i] == rest[i]);
        }
        if sources.last().metadata.mission_id == Some(id) && state_of_source(sources.last().thread)
            == state {
            assert(sources[sources.len() - 1] == sources.last());
        }
        if exists|i: int|
            0 <= i < sources.len() && (#[trigger] sources[i]).metadata.mission_id == Some(id)
                && state_of_source(sources[i].thread) == state {
            let i = choose|i: int|
                0 <= i < sources.len() && (#[trigger] sources[i]).metadata.mission_id == Some(id)
                    && state_of_source(sources[i].thread) == state;
            if i < rest.len() {
                assert(rest[i] == sources[i]);
            }
        }
    }
}

/// A mission has failed exactly where one of its threads has, waits exactly where none has
/// failed and one waits, and runs exactly where none has failed or waits and one runs. It is
/// completed only where all its threads are, and there is one; without threads it has not
/// started.
pub proof fn a_mission_has_the_state_of_its_threads(
    sources: Vec<WorkerSource>,
    id: MissionId,
    state: MissionState,
)
    requires
        call_ensures(mission_state, (&sources, id), state),
    ensures
        state is Failed <==> has_thread_in(sources@, id, MissionThreadState::Failed),
        state is Waiting <==> !has_thread_in(sources@, id, MissionThreadState::Failed)
            && has_thread_in(sources@, id, MissionThreadState::Waiting),
        state is Running <==> !has_thread_in(sources@, id, MissionThreadState::Failed)
            && !has_thread_in(sources@, id, MissionThreadState::Waiting) && has_thread_in(
            sources@,
            id,
            MissionThreadState::Running,
        ),
        state is Completed <==> !has_thread_in(sources@, id, MissionThreadState::Failed)
            && !has_thread_in(sources@, id, MissionThreadState::Waiting) && !has_thread_in(
            sources@,
            id,
            MissionThreadState::Running,
        ) && !has_thread_in(sources@, id, MissionThreadState::Created) && has_thread_in(
            sources@,
            id,
            MissionThreadState::Completed,
        ),
{
    let states = mission_states(sources@, id);
    the_threads_of_a_mission_count(sources@, id, MissionThreadState::Failed);
    the_threads_of_a_mission_count(sources@, id, MissionThreadState::Waiting);
    the_threads_of_a_mission_count(sources@, id, MissionThreadState::Running);
    the_threads_of_a_mission_count(sources@, id, MissionThreadState::Created);
    the_threads_of_a_mission_count(sources@, id, MissionThreadState::Completed);
    if states.len() > 0 {
        assert(states.contains(states[0]));
    }
}

/// Whether a thread of a mission is in a state.
pub open spec fn has_thread_in(
    sources: Seq<WorkerSource>,
    id: MissionId,
    state: MissionThreadState,
) -> bool {
    exists|i: int|
        0 <= i < sources.len() && (#[trigger] sources[i]).metadata.mission_id == Some(id)
            && state_of_source(sources[i].thread) == state
}

/// Whether the call at `i` waits for the user's permission and nothing that ends its waiting
/// comes after it.
pub open spec fn waits_at(entries: Seq<ThreadEntry>, i: int) -> bool {
    &&& 0 <= i < entries.len()
    &&& entries[i] matches ThreadEntry::ToolCall(call) && call.status is WaitingForConfirmation
    &&& forall|j: int| i < j < entries.len() ==> !(#[trigger] entries[j] is UserMessage)
}

/// A thread is blocked on a call that waits for permission with no user message after it, and
/// on the last such call; without such a call it is not blocked.
pub proof fn a_thread_is_blocked_on_the_last_waiting_call(entries: Seq<ThreadEntry>)
    ensures
        pending_call(entries) is Some <==> exists|i: int| waits_at(entries, i),
        pending_call(entries) matches Some(call) ==> exists|i: int|
            #[trigger] waits_at(entries, i) && entries[i] == ThreadEntry::ToolCall(call)
                && forall|j: int| i < j ==> !waits_at(entries, j),
    decreases entries.len(),
{
    if entries.len() > 0 {
        let rest = entries.drop_last();
        a_thread_is_blocked_on_the_last_waiting_call(rest);
        let n = rest.len() as int;
        match entries.last() {
            ThreadEntry::UserMessage(_) => {
                assert forall|i: int| !waits_at(entries, i) by {
                    if waits_at(entries, i) {
                        assert(entries[n] is UserMessage);
                    }
                }
            },
            ThreadEntry::ToolCall(call) if call.status is WaitingForConfirmation => {
                assert(waits_at(entries, n));
            },
            _ => {
                assert forall|i: int| waits_at(entries, i) <==> waits_at(rest, i) by {
                    if waits_at(rest, i) {
                        assert(rest[i] == entries[i]);
                        assert forall|j: int| i < j < entries.len() implies !(
                        #[trigger] entries[j] is UserMessage) by {
                            if j < n {
                                assert(rest[j] == entries[j]);
                            }
                        }
                    }
                    if waits_at(entries, i) {
                        assert(i < n);
                        assert(rest[i] == entries[i]);
                        assert forall|j: int| i < j < rest.len() implies !(
                        #[trigger] rest[j] is UserMessage) by {
                            assert(rest[j] == entries[j]);
                        }
                    }
                }
                if pending_call(entries) is Some {
                    let call = pending_call(entries).unwrap();
                    let i = choose|i: int|
                        #[trigger] waits_at(rest, i) && rest[i] == ThreadEntry::ToolCall(call)
                            && forall|j: int| i < j ==> !waits_at(rest, j);
                    assert(waits_at(entries, i) && entries[i] == ThreadEntry::ToolCall(call));
                }
            },
        }
    }
}

/// Whether the call at `i` is pending or in progress.
pub open spec fn runs_at(entries: Seq<ThreadEntry>, i: int) -> bool {
    &&& 0 <= i < entries.len()
    &&& entries[i] matches ThreadEntry::ToolCall(call) && (call.status is Pending || call.status
        is InProgress)
}

/// What a thread executes is the last of its calls that is pending or in progress.
pub proof fn a_thread_executes_its_last_running_call(entries: Seq<ThreadEntry>)
    ensures
        running_call(entries) is Some <==> exists|i: int| runs_at(entries, i),
        running_call(entries) matches Some(call) ==> exists|i: int|
            #[trigger] runs_at(entries, i) && entries[i] == ThreadEntry::ToolCall(call)
                && forall|j: int| i < j ==> !runs_at(entries, j),
    decreases entries.len(),
{
    if entries.len() > 0 {
        let rest = entries.drop_last();
        a_thread_executes_its_last_running_call(rest);
        let n = rest.len() as int;
        if runs_at(entries, n) {
            assert(runs_at(entries, n));
        } else {
            assert forall|i: int| runs_at(entries, i) <==> runs_at(rest, i) by {
                if 0 <= i < n {
                    assert(rest[i] == entries[i]);
                }
            }
            if running_call(entries) is Some {
                let call = running_call(entries).unwrap();
                let i = choose|i: int|
                    #[trigger] runs_at(rest, i) && rest[i] == ThreadEntry::ToolCall(call)
                        && forall|j: int| i < j ==> !runs_at(rest, j);
                assert(runs_at(entries, i) && entries[i] == ThreadEntry::ToolCall(call));
            }
        }
    }
}

/// The option offered for an answer is of that kind, and no option of the kind comes before
/// it; none is offered only where there is none.
pub proof fn the_first_option_of_a_kind(options: Seq<PermissionOption>, kind: PermissionOptionKind)
    ensures
        first_of_kind(options, kind) is None <==> forall|i: int|
            0 <= i < options.len() ==> (#[trigger] options[i]).kind != kind,
        first_of_kind(options, kind) matches Some(option) ==> exists|i: int|
            0 <= i < options.len() && #[trigger] options[i] == option && option.kind == kind
                && forall|j: int| 0 <= j < i ==> (#[trigger] options[j]).kind != kind,
    decreases options.len(),
{
    if options.len() > 0 {
        let rest = options.drop_last();
        the_first_option_of_a_kind(rest, kind);
        let n = rest.len() as int;
        assert(forall|i: int| 0 <= i < n ==> rest[i] == options[i]);
        match first_of_kind(rest, kind) {
            Some(option) => {
                let i = choose|i: int|
                    0 <= i < rest.len() && #[trigger] rest[i] == option && option.kind == kind
                        && forall|j: int| 0 <= j < i ==> (#[trigger] rest[j]).kind != kind;
                assert(options[i] == option);
                assert forall|j: int| 0 <= j < i implies (#[trigger] options[j]).kind != kind by {
                    assert(rest[j] == options[j]);
                }
            },
            None => {
                assert(options[n] == options.last());
                assert forall|j: int| 0 <= j < n implies (#[trigger] options[j]).kind != kind by {
                    assert(rest[j] == options[j]);
                }
            },
        }
    }
}

/// Whether a prompt is one for an entry: it has the call's id and label, and its answers are
/// options of the call that allow once and reject once, given wherever the call has such.
pub open spec fn prompts_for(prompt: PendingPermission, entry: ThreadEntry) -> bool {
    match entry {
        ThreadEntry::ToolCall(call) => {
            &&& prompt.tool_call_id@ == call.id@
            &&& prompt.label@ == call.label@
            &&& match call.status {
                ToolCallStatus::WaitingForConfirmation(options) => {
                    &&& is_answer_of(prompt.allow, options@, PermissionOptionKind::AllowOnce)
                    &&& is_answer_of(prompt.reject, options@, PermissionOptionKind::RejectOnce)
                },
                _ => false,
            }
        },
        _ => false,
    }
}

/// Whether an answer is an option of a kind, and there only where there is one.
pub open spec fn is_answer_of(
    answer: Option<PermissionOption>,
    options: Seq<PermissionOption>,
    kind: PermissionOptionKind,
) -> bool {
    match answer {
        Some(option) => option.kind == kind && options.contains(option),
        None => forall|k: int| 0 <= k < options.len() ==> (#[trigger] options[k]).kind != kind,
    }
}

/// A blocked thread shows the prompt of the call it is blocked on: its id and label, the
/// first answer that allows once and the first that rejects once.
pub proof fn a_prompt_is_that_of_the_blocking_call(
    thread: Thread,
    i: int,
    p: Option<PendingPermission>,
    c: Option<&ToolCall>,
)
    requires
        call_ensures(PendingPermission::for_thread, (&thread,), p),
        call_ensures(pending_permission, (&thread,), c),
        waits_at(thread.entries@, i),
        forall|j: int| i < j ==> !waits_at(thread.entries@, j),
    ensures
        p matches Some(prompt) && prompts_for(prompt, thread.entries@[i]),
        c matches Some(call) && thread.entries@[i] == ThreadEntry::ToolCall(*call),
{
    let entries = thread.entries@;
    a_thread_is_blocked_on_the_last_waiting_call(entries);
    let call = pending_call(entries).unwrap();
    let k = choose|k: int|
        #[trigger] waits_at(entries, k) && entries[k] == ThreadEntry::ToolCall(call) && forall|j: int|
            k < j ==> !waits_at(entries, j);
    assert(k == i);
    match call.status {
        ToolCallStatus::WaitingForConfirmation(options) => {
            the_first_option_of_a_kind(options@, PermissionOptionKind::AllowOnce);
            the_first_option_of_a_kind(options@, PermissionOptionKind::RejectOnce);
        },
        _ => {},
    }
}

/// A thread that no call blocks shows no prompt.
pub proof fn an_unblocked_thread_shows_no_prompt(
    thread: Thread,
    p: Option<PendingPermission>,
    c: Option<&ToolCall>,
)
    requires
        call_ensures(PendingPermission::for_thread, (&thread,), p),
        call_ensures(pending_permission, (&thread,), c),
        forall|i: int| !waits_at(thread.entries@, i),
    ensures
        p is None,
        c is None,
{
    a_thread_is_blocked_on_the_last_waiting_call(thread.entries@);
}

/// The assistant's last message is one of the entries, and no message of the assistant comes
/// after it.
pub proof fn the_last_message_of_the_assistant(entries: Seq<ThreadEntry>)
    ensures
        last_assistant(entries) is None <==> forall|i: int|
            0 <= i < entries.len() ==> !(#[trigger] entries[i] is AssistantMessage),
        last_assistant(entries) matches Some(message) ==> exists|i: int|
            0 <= i < entries.len() && #[trigger] entries[i] == ThreadEntry::AssistantMessage(message)
                && forall|j: int|
                i < j < entries.len() ==> !(#[trigger] entries[j] is AssistantMessage),
    decreases entries.len(),
{
    if entries.len() > 0 {
        let rest = entries.drop_last();
        the_last_message_of_the_assistant(rest);
        let n = rest.len() as int;
        assert(entries[n] == entries.last());
        assert(forall|i: int| 0 <= i < n ==> rest[i] == #[trigger] entries[i]);
        if !(entries.last() is AssistantMessage) {
            if last_assistant(rest) is Some {
                let message = last_assistant(rest).unwrap();
                let i = choose|i: int|
                    0 <= i < rest.len() && #[trigger] rest[i] == ThreadEntry::AssistantMessage(
                        message,
                    ) && forall|j: int|
                        i < j < rest.len() ==> !(#[trigger] rest[j] is AssistantMessage);
                assert(entries[i] == ThreadEntry::AssistantMessage(message));
                assert forall|j: int| i < j < entries.len() implies !(
                #[trigger] entries[j] is AssistantMessage) by {
                    if j < n {
                        assert(rest[j] == entries[j]);
                    }
                }
            } else {
                assert forall|i: int| 0 <= i < entries.len() implies !(
                #[trigger] entries[i] is AssistantMessage) by {
                    if i < n {
                        assert(rest[i] == entries[i]);
                    }
                }
            }
        }
    }
}

/// A worker with a role in the mission is called by it, also where its thread has a title; one
/// without is called by the title.
pub proof fn a_worker_is_called_by_its_role(metadata: ThreadMetadata, label: String)
    requires
        call_ensures(worker_label, (&metadata,), label),
    ensures
        metadata.role matches Some(role) ==> label@ == role@,
        metadata.role is None ==> label@ == metadata.display_title@,
{
}

/// The call that a thread executes is the last one that is pending or in progress; it is shown
/// by its label.
pub proof fn a_threads_activity_is_its_last_running_call(
    thread: Thread,
    i: int,
    c: Option<&ToolCall>,
    label: Option<String>,
)
    requires
        call_ensures(active_tool_call, (&thread,), c),
        call_ensures(active_tool_call_label, (&thread,), label),
    ensures
        runs_at(thread.entries@, i) && (forall|j: int| i < j ==> !runs_at(thread.entries@, j)) ==> (c
            matches Some(call) && thread.entries@[i] == ThreadEntry::ToolCall(*call)) && (c
            matches Some(call) && label matches Some(l) && l@ == call.label@),
        (forall|j: int| !runs_at(thread.entries@, j)) ==> c is None && label is None,
{
    let entries = thread.entries@;
    a_thread_executes_its_last_running_call(entries);
    if runs_at(entries, i) && (forall|j: int| i < j ==> !runs_at(entries, j)) {
        let call = running_call(entries).unwrap();
        let k = choose|k: int|
            #[trigger] runs_at(entries, k) && entries[k] == ThreadEntry::ToolCall(call)
                && forall|j: int| k < j ==> !runs_at(entries, j);
        assert(k == i);
    }
}

/// The last user message is found where it stands, and nowhere where there is none.
pub proof fn the_last_user_message_is_found(entries: Vec<ThreadEntry>, r: Option<usize>)
    requires
        call_ensures(last_user_message, (&entries,), r),
    ensures
        r matches Some(i) ==> (i as int) < entries@.len() && entries@[i as int] is UserMessage
            && forall|j: int| i < j < entries@.len() ==> !(#[trigger] entries@[j] is UserMessage),
        r is None ==> forall|j: int|
            0 <= j < entries@.len() ==> !(#[trigger] entries@[j] is UserMessage),
{
    the_last_user_message_is_the_last(entries@);
}

/// Whether `s[from..end]` is a line of a text.
pub open spec fn is_line(s: Seq<char>, from: int, end: int) -> bool {
    &&& 0 <= from <= end <= s.len()
    &&& from == 0 || s[from - 1] == '\n'
    &&& end == s.len() || s[end] == '\n'
    &&& forall|i: int| from <= i < end ==> #[trigger] s[i] != '\n'
}

/// Whether a line says something: it is neither blank nor a heading.
pub open spec fn says_something(line: Seq<char>) -> bool {
    trimmed(line).len() > 0 && trimmed(line)[0] != '#'
}

/// Whether the line `s[from..end]` is the first of a text, from `start` on, that says something.
pub open spec fn first_to_say_something(s: Seq<char>, start: int, from: int, end: int) -> bool {
    &&& is_line(s, from, end)
    &&& start <= from
    &&& says_something(s.subrange(from, end))
    &&& forall|f: int, e: int|
        start <= f < from && #[trigger] is_line(s, f, e) ==> !says_something(s.subrange(f, e))
}

proof fn a_line_ends(s: Seq<char>, from: int)
    requires
        0 <= from <= s.len(),
    ensures
        from <= line_end(s, from) <= s.len(),
        line_end(s, from) < s.len() ==> s[line_end(s, from)] == '\n',
        forall|i: int| from <= i < line_end(s, from) ==> #[trigger] s[i] != '\n',
    decreases s.len() - from,
{
    if from < s.len() && s[from] != '\n' {
        a_line_ends(s, from + 1);
    }
}

proof fn summary_is_the_first_line(s: Seq<char>, start: int)
    requires
        0 <= start <= s.len(),
        start == 0 || s[start - 1] == '\n',
    ensures
        match summary_line(s, start) {
            Some(line) => exists|from: int, end: int| #[trigger]
                first_to_say_something(s, start, from, end) && line == trimmed(
                    s.subrange(from, end),
                ),
            None => forall|f: int, e: int|
                start <= f && #[trigger] is_line(s, f, e) ==> !says_something(s.subrange(f, e)),
        },
    decreases s.len() - start,
{
    a_line_ends(s, start);
    let end = line_end(s, start);
    assert(is_line(s, start, end));
    let line = trimmed(s.subrange(start, end));
    assert forall|f: int, e: int| start <= f <= end && #[trigger] is_line(s, f, e) implies f == start
        && e == end by {
        if f > start {
            assert(s[f - 1] != '\n');
        }
        if e < end {
            assert(s[e] != '\n');
        }
        if end < e {
            assert(s[end] != '\n');
        }
    }
    if line.len() > 0 && line[0] != '#' {
        assert(first_to_say_something(s, start, start, end));
    } else if end < s.len() {
        summary_is_the_first_line(s, end + 1);
        match summary_line(s, end + 1) {
            Some(found) => {
                let (f, e) = choose|f: int, e: int| #[trigger]
                    first_to_say_something(s, end + 1, f, e) && found == trimmed(s.subrange(f, e));
                assert forall|g: int, h: int| start <= g < f && #[trigger] is_line(s, g, h) implies
                    !says_something(s.subrange(g, h)) by {
                    if g <= end {
                        assert(g == start && h == end);
                    }
                }
                assert(first_to_say_something(s, start, f, e));
            },
            None => {
                assert forall|f: int, e: int| start <= f && #[trigger] is_line(s, f, e) implies
                    !says_something(s.subrange(f, e)) by {
                    if f <= end {
                        assert(f == start && e == end);
                    }
                }
            },
        }
    } else {
        assert forall|f: int, e: int| start <= f && #[trigger] is_line(s, f, e) implies
            !says_something(s.subrange(f, e)) by {
            assert(f <= end);
        }
    }
}

/// The summary of a thread is the first line of the assistant's last message that says something,
/// without the white space around it: blank lines and headings are passed over, and older
/// messages are not looked at.
pub proof fn a_summary_is_a_line_of_the_last_message(
    thread: Thread,
    i: int,
    message: crate::thread::AssistantMessage,
    r: Option<String>,
)
    requires
        call_ensures(last_assistant_summary, (&thread,), r),
        0 <= i < thread.entries@.len(),
        thread.entries@[i] == ThreadEntry::AssistantMessage(message),
        forall|j: int|
            i < j < thread.entries@.len() ==> !(#[trigger] thread.entries@[j] is AssistantMessage),
    ensures
        r matches Some(line) ==> line@.len() > 0 && line@[0] != '#' && exists|from: int, end: int|
         #[trigger]
            first_to_say_something(message.markdown@, 0, from, end) && is_bare(
                message.markdown@.subrange(from, end),
                line@,
            ),
        r is None ==> forall|f: int, e: int|
            0 <= f && #[trigger] is_line(message.markdown@, f, e) ==> !says_something(
                message.markdown@.subrange(f, e),
            ),
{
    let entries = thread.entries@;
    the_last_message_of_the_assistant(entries);
    assert(entries[i] is AssistantMessage);
    let found = last_assistant(entries).unwrap();
    let k = choose|k: int|
        0 <= k < entries.len() && #[trigger] entries[k] == ThreadEntry::AssistantMessage(found)
            && forall|j: int| k < j < entries.len() ==> !(#[trigger] entries[j] is AssistantMessage);
    assert(k == i);
    let s = message.markdown@;
    summary_is_the_first_line(s, 0);
    match summary_line(s, 0) {
        Some(line) => {
            let (from, end) = choose|from: int, end: int| #[trigger]
                first_to_say_something(s, 0, from, end) && line == trimmed(s.subrange(from, end));
            trimming_cuts_the_white_space_at_the_ends(s.subrange(from, end));
        },
        None => {},
    }
}

/// A thread in which the assistant has said nothing has no summary.
pub proof fn a_thread_without_messages_has_no_summary(thread: Thread, r: Option<String>)
    requires
        call_ensures(last_assistant_summary, (&thread,), r),
        forall|j: int|
            0 <= j < thread.entries@.len() ==> !(#[trigger] thread.entries@[j] is AssistantMessage),
    ensures
        r is None,
{
    the_last_message_of_the_assistant(thread.entries@);
}

} // verus!
