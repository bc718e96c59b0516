//! What watching a thread tells the store of shared context: finished edits become
//! artifacts, finished commands become evidence, each once.

use vstd::prelude::*;
use crate::mission_id::key_string_round_trips;
use crate::mission_id::MissionId;
use crate::shared_context::clock_instant;
use crate::shared_context::stamped;
use crate::shared_context::ArtifactRow;
use crate::shared_context::SharedContextStore;
use crate::shared_context::OBSERVER_AUTHOR;
use crate::text::clone_opt;
use crate::text::clone_strings;
use crate::text::contains_string;
use crate::text::from_chars;
use crate::text::has_prefix;
use crate::text::has_suffix;
use crate::text::join;
use crate::text::joined;
use crate::text::nonempty_trimmed;
use crate::text::opt_view;
use crate::text::stands_at;
use crate::text::to_chars;
use crate::text::trim_nonempty;
use crate::text::views;
use crate::thread::ThreadEntry;
use crate::thread::ThreadMetadata;
use crate::thread::ToolCall;
use crate::thread::ToolCallContent;
use crate::thread::ToolCallStatus;
use crate::thread::ToolKind;
use crate::time::Timestamp;

verus! {

/// The mission of a thread and the role of the worker that runs in it.
pub open spec fn mission_context(metadata: Option<ThreadMetadata>) -> Option<
    (MissionId, Option<Seq<char>>),
> {
    match metadata {
        None => None,
        Some(m) => match m.mission_id {
            None => None,
            Some(id) => Some(
                (
                    id,
                    match m.role {
                        Some(role) => nonempty_trimmed(role@),
                        None => None,
                    },
                ),
            ),
        },
    }
}

/// The mission of a thread and the role of the worker that runs in it; no role where the
/// thread has none or a blank one.
pub fn mission_context_for_thread(metadata: Option<&ThreadMetadata>) -> (r: Option<
    (MissionId, Option<String>),
>)
    ensures
        match r {
            Some((id, role)) => metadata is Some && mission_context(Some(*metadata.unwrap())) == Some(
                (id, opt_view(role)),
            ),
            None => metadata is None || mission_context(Some(*metadata.unwrap())) is None,
        },
{
    let metadata = match metadata {
        Some(m) => m,
        None => return None,
    };
    let mission_id = match metadata.mission_id {
        Some(id) => id,
        None => return None,
    };
    let role = match &metadata.role {
        Some(role) => trim_nonempty(role.as_str()),
        None => None,
    };
    proof {
        key_string_round_trips(mission_id);
    }
    match MissionId::from_key_string(mission_id.to_key_string().as_str()) {
        Ok(id) => Some((id, role)),
        Err(_) => None,
    }
}

/// `source` without the code fence around it, where there is one.
pub open spec fn unfenced(source: Seq<char>) -> Seq<char> {
    let body = source.subrange(4, source.len() as int);
    if has_prefix(source, "```\n"@) && has_suffix(body, "\n```"@) {
        body.subrange(0, body.len() - 4)
    } else {
        source
    }
}

/// `source` without the code fence around it, where there is one.
pub fn strip_code_fence(source: &str) -> (r: String)
    ensures
        r@ == unfenced(source@),
{
    proof {
        reveal_strlit("```\n");
        reveal_strlit("\n```");
    }
    let chars = to_chars(source);
    let open = to_chars("```\n");
    let close = to_chars("\n```");
    let n: usize = chars.len();
    let ghost body = source@.subrange(4, source@.len() as int);
    if n < 4 || !stands_at(&chars, &open, 0) {
        return source.to_owned();
    }
    if n < 8 || !stands_at(&chars, &close, n - 4) {
        if n >= 8 {
            assert(body.subrange(body.len() - 4, body.len() as int) =~= chars@.subrange(n - 4, n as int));
        }
        return source.to_owned();
    }
    assert(body.subrange(body.len() - 4, body.len() as int) =~= chars@.subrange(n - 4, n as int));
    assert(body.subrange(0, body.len() - 4) =~= chars@.subrange(4, n - 4));
    from_chars(&chars, 4, n - 4)
}

/// What has been recorded of one conversation already: tool calls as artifacts, terminals as
/// evidence. A tool call's entry changes several times after the call is done.
pub struct ObserverState {
    pub recorded_artifact_tool_calls: Vec<String>,
    pub recorded_evidence_terminals: Vec<String>,
}

impl Default for ObserverState {
    fn default() -> (r: Self)
        ensures
            r.calls() == Seq::<Seq<char>>::empty(),
            r.terminals() == Seq::<Seq<char>>::empty(),
    {
        let r = ObserverState {
            recorded_artifact_tool_calls: Vec::new(),
            recorded_evidence_terminals: Vec::new(),
        };
        assert(r.calls() =~= Seq::<Seq<char>>::empty());
        assert(r.terminals() =~= Seq::<Seq<char>>::empty());
        r
    }
}

impl ObserverState {
    /// The tool calls recorded as artifacts, in the order of recording.
    pub open spec fn calls(self) -> Seq<Seq<char>> {
        views(self.recorded_artifact_tool_calls@)
    }

    /// The terminals recorded as evidence, in the order of recording.
    pub open spec fn terminals(self) -> Seq<Seq<char>> {
        views(self.recorded_evidence_terminals@)
    }

    /// Whether nothing is noted twice.
    pub open spec fn wf(self) -> bool {
        self.calls().no_duplicates() && self.terminals().no_duplicates()
    }
}

/// What an entry of a thread gives to record.
pub enum Observation {
    Nothing,
    /// The exit of each of these terminals is to be awaited.
    Terminals { mission_id: MissionId, role: Option<String>, terminals: Vec<String> },
    /// Each of these paths is an artifact.
    Artifacts {
        mission_id: MissionId,
        role: Option<String>,
        paths: Vec<String>,
        change_summary: String,
    },
}

/// The mathematical value of an `Observation`.
pub enum ObservationView {
    Nothing,
    Terminals { mission_id: MissionId, role: Option<Seq<char>>, terminals: Seq<Seq<char>> },
    Artifacts {
        mission_id: MissionId,
        role: Option<Seq<char>>,
        paths: Seq<Seq<char>>,
        change_summary: Seq<char>,
    },
}

impl View for Observation {
    type V = ObservationView;

    open spec fn view(&self) -> ObservationView {
        match *self {
            Observation::Nothing => ObservationView::Nothing,
            Observation::Terminals { mission_id, role, terminals } => ObservationView::Terminals {
                mission_id,
                role: opt_view(role),
                terminals: views(terminals@),
            },
            Observation::Artifacts { mission_id, role, paths, change_summary } => {
                ObservationView::Artifacts {
                    mission_id,
                    role: opt_view(role),
                    paths: views(paths@),
                    change_summary: change_summary@,
                }
            },
        }
    }
}

/// The terminals of a tool call that were not seen before, each once, in order.
pub open spec fn new_terminals(
    content: Seq<ToolCallContent>,
    seen: Seq<Seq<char>>,
) -> Seq<Seq<char>>
    decreases content.len(),
{
    if content.len() == 0 {
        Seq::empty()
    } else {
        let before = new_terminals(content.drop_last(), seen);
        match content.last() {
            ToolCallContent::Terminal(id) => if (seen + before).contains(id@) {
                before
            } else {
                before.push(id@)
            },
            ToolCallContent::Other => before,
        }
    }
}

/// What a tool call did to its files, in a word.
pub open spec fn change_verb(kind: ToolKind) -> Seq<char> {
    match kind {
        ToolKind::Delete => "Deleted"@,
        ToolKind::Move => "Moved/renamed"@,
        _ => "Edited"@,
    }
}

/// Whether a tool call is a change to files that is done.
pub open spec fn is_finished_edit(call: ToolCall) -> bool {
    (call.kind == ToolKind::Edit || call.kind == ToolKind::Delete || call.kind == ToolKind::Move)
        && call.status is Completed
}

/// What a tool call gives to record, given what was recorded before.
pub open spec fn call_observation(
    mission_id: MissionId,
    role: Option<Seq<char>>,
    call: ToolCall,
    calls: Seq<Seq<char>>,
    terminals: Seq<Seq<char>>,
) -> ObservationView {
    if call.kind == ToolKind::Execute {
        ObservationView::Terminals {
            mission_id,
            role,
            terminals: new_terminals(call.content@, terminals),
        }
    } else if is_finished_edit(call) && !calls.contains(call.id@) && call.locations@.len() > 0 {
        ObservationView::Artifacts {
            mission_id,
            role,
            paths: views(call.locations@),
            change_summary: change_verb(call.kind) + " "@ + joined(views(call.locations@), ", "@),
        }
    } else {
        ObservationView::Nothing
    }
}

/// The tool calls noted after a tool call was looked at.
pub open spec fn calls_after(call: ToolCall, calls: Seq<Seq<char>>) -> Seq<Seq<char>> {
    if call.kind != ToolKind::Execute && is_finished_edit(call) && !calls.contains(call.id@) {
        calls.push(call.id@)
    } else {
        calls
    }
}

/// The terminals noted after a tool call was looked at.
pub open spec fn terminals_after(call: ToolCall, terminals: Seq<Seq<char>>) -> Seq<Seq<char>> {
    if call.kind == ToolKind::Execute {
        terminals + new_terminals(call.content@, terminals)
    } else {
        terminals
    }
}

/// What an entry gives to record: something only where the thread belongs to a mission and
/// the entry is a tool call.
pub open spec fn entry_observation(
    context: Option<(MissionId, Option<Seq<char>>)>,
    entry: Option<ThreadEntry>,
    calls: Seq<Seq<char>>,
    terminals: Seq<Seq<char>>,
) -> ObservationView {
    match (context, entry) {
        (Some((mission_id, role)), Some(ThreadEntry::ToolCall(call))) => call_observation(
            mission_id,
            role,
            call,
            calls,
            terminals,
        ),
        _ => ObservationView::Nothing,
    }
}

/// Looks at one entry of a thread and says what is new in it. Nothing is said twice of one
/// tool call or terminal.
pub fn observe_entry(
    state: &mut ObserverState,
    metadata: Option<&ThreadMetadata>,
    entry: Option<&ThreadEntry>,
) -> (r: Observation)
    ensures
        r@ == entry_observation(
            mission_context(deref_opt(metadata)),
            deref_opt(entry),
            old(state).calls(),
            old(state).terminals(),
        ),
        match (mission_context(deref_opt(metadata)), deref_opt(entry)) {
            (Some(_), Some(ThreadEntry::ToolCall(call))) => final(state).calls() == calls_after(
                call,
                old(state).calls(),
            ) && final(state).terminals() == terminals_after(call, old(state).terminals()),
            _ => *final(state) == *old(state),
        },
        old(state).wf() ==> final(state).wf(),
{
    let (mission_id, role) = match mission_context_for_thread(metadata) {
        Some(context) => context,
        None => return Observation::Nothing,
    };
    let call = match entry {
        Some(ThreadEntry::ToolCall(call)) => call,
        _ => return Observation::Nothing,
    };
    if call.kind == ToolKind::Execute {
        let terminals = note_terminals(state, &call.content);
        return Observation::Terminals { mission_id, role, terminals };
    }
    if call.kind != ToolKind::Edit && call.kind != ToolKind::Delete && call.kind != ToolKind::Move {
        return Observation::Nothing;
    }
    if !matches!(&call.status, ToolCallStatus::Completed) {
        return Observation::Nothing;
    }
    if contains_string(&state.recorded_artifact_tool_calls, call.id.as_str()) {
        return Observation::Nothing;
    }
    state.recorded_artifact_tool_calls.push(call.id.clone());
    assert(state.calls() =~= old(state).calls().push(call.id@));
    if call.locations.len() == 0 {
        return Observation::Nothing;
    }
    let verb = match call.kind {
        ToolKind::Delete => "Deleted",
        ToolKind::Move => "Moved/renamed",
        _ => "Edited",
    };
    let mut change_summary = verb.to_owned();
    change_summary.append(" ");
    change_summary.append(join(&call.locations, ", ").as_str());
    Observation::Artifacts { mission_id, role, paths: clone_strings(&call.locations), change_summary }
}

/// The value behind an optional reference.
pub open spec fn deref_opt<T>(value: Option<&T>) -> Option<T> {
    match value {
        Some(v) => Some(*v),
        None => None,
    }
}

/// Notes the terminals of a tool call that were not seen before and returns them.
fn note_terminals(state: &mut ObserverState, content: &Vec<ToolCallContent>) -> (r: Vec<String>)
    ensures
        views(r@) == new_terminals(content@, old(state).terminals()),
        final(state).terminals() == old(state).terminals() + new_terminals(
            content@,
            old(state).terminals(),
        ),
        final(state).recorded_artifact_tool_calls == old(state).recorded_artifact_tool_calls,
        old(state).wf() ==> final(state).wf(),
{
    let ghost seen = old(state).terminals();
    let mut fresh: Vec<String> = Vec::new();
    let mut i: usize = 0;
    assert(views(fresh@) =~= new_terminals(content@.take(0), seen));
    assert(state.terminals() =~= seen + new_terminals(content@.take(0), seen));
    while i < content.len()
        invariant
            i <= content.len(),
            seen == old(state).terminals(),
            views(fresh@) == new_terminals(content@.take(i as int), seen),
            state.terminals() == seen + new_terminals(content@.take(i as int), seen),
            state.recorded_artifact_tool_calls == old(state).recorded_artifact_tool_calls,
            old(state).wf() ==> state.wf(),
        decreases content.len() - i,
    {
        let ghost here = content@.take(i + 1);
        assert(here.drop_last() =~= content@.take(i as int));
        assert(here.last() == content[i as int]);
        match &content[i] {
            ToolCallContent::Terminal(id) => {
                if !contains_string(&state.recorded_evidence_terminals, id.as_str()) {
                    let ghost before = state.terminals();
                    let ghost named = views(fresh@);
                    state.recorded_evidence_terminals.push(id.clone());
                    fresh.push(id.clone());
                    assert(views(fresh@) =~= named.push(id@));
                    assert(state.terminals() =~= before.push(id@));
                    assert(state.terminals() =~= seen + new_terminals(here, seen));
                }
            },
            ToolCallContent::Other => {},
        }
        i += 1;
    }
    assert(content@.take(i as int) =~= content@);
    fresh
}

/// Whether `row` is the artifact row that watching a thread makes for `path`.
pub open spec fn is_observed_artifact(
    row: ArtifactRow,
    mission_id: MissionId,
    role: Option<String>,
    path: Seq<char>,
    change_summary: Seq<char>,
) -> bool {
    &&& row.mission_id == mission_id
    &&& row.path@ == path
    &&& row.change_summary@ == change_summary
    &&& row.author@ == OBSERVER_AUTHOR@
    &&& row.role == role
    &&& exists|at: Timestamp| #[trigger] clock_instant(at) && stamped(row.created_at@, at)
}

/// Records each path of a finished edit as an artifact, with the observer as its author.
pub fn record_observed_artifacts(
    store: &mut SharedContextStore,
    mission_id: MissionId,
    role: &Option<String>,
    paths: &Vec<String>,
    change_summary: &str,
)
    ensures
        final(store).artifacts@.len() == old(store).artifacts@.len() + paths.len(),
        final(store).artifacts@.take(old(store).artifacts@.len() as int) == old(store).artifacts@,
        forall|i: int|
            0 <= i < paths.len() ==> is_observed_artifact(
                #[trigger] final(store).artifacts@[old(store).artifacts@.len() + i],
                mission_id,
                *role,
                paths[i]@,
                change_summary@,
            ),
        final(store).decisions == old(store).decisions,
        final(store).evidence == old(store).evidence,
{
    let ghost n = old(store).artifacts@.len();
    let mut i: usize = 0;
    assert(store.artifacts@.take(n as int) =~= old(store).artifacts@);
    while i < paths.len()
        invariant
            i <= paths.len(),
            n == old(store).artifacts@.len(),
            store.artifacts@.len() == n + i,
            store.artifacts@.take(n as int) == old(store).artifacts@,
            forall|j: int|
                0 <= j < i ==> is_observed_artifact(
                    #[trigger] store.artifacts@[n + j],
                    mission_id,
                    *role,
                    paths[j]@,
                    change_summary@,
                ),
            store.decisions == old(store).decisions,
            store.evidence == old(store).evidence,
        decreases paths.len() - i,
    {
        let ghost before = store.artifacts@;
        store.record_artifact(
            mission_id,
            paths[i].clone(),
            change_summary.to_owned(),
            OBSERVER_AUTHOR.to_owned(),
            clone_opt(role),
        );
        assert(store.artifacts@.take(n as int) =~= before.take(n as int)) by {
            assert forall|j: int| 0 <= j < n implies store.artifacts@[j] == before[j] by {
                assert(store.artifacts@.drop_last()[j] == before[j]);
            }
        }
        assert forall|j: int| 0 <= j < i + 1 implies is_observed_artifact(
            #[trigger] store.artifacts@[n + j],
            mission_id,
            *role,
            paths[j]@,
            change_summary@,
        ) by {
            if j < i {
                assert(store.artifacts@.drop_last()[n + j] == before[n + j]);
            } else {
                assert(store.artifacts@[n + j] == store.artifacts@.last());
            }
        }
        i += 1;
    }
}

/// What a terminal shows once its command is done.
pub struct TerminalOutput {
    pub content: String,
    pub exit_code: Option<i32>,
}

/// Records a terminal's finished command as evidence, with the observer as its author;
/// nothing where the terminal has no output to show.
pub fn record_terminal_evidence(
    store: &mut SharedContextStore,
    mission_id: MissionId,
    role: Option<String>,
    command_source: &str,
    output: Option<TerminalOutput>,
)
    ensures
        final(store).decisions == old(store).decisions,
        final(store).artifacts == old(store).artifacts,
        match output {
            None => *final(store) == *old(store),
            Some(out) => {
                let row = final(store).evidence@.last();
                &&& final(store).evidence@.len() == old(store).evidence@.len() + 1
                &&& final(store).evidence@.drop_last() == old(store).evidence@
                &&& row.mission_id == mission_id
                &&& row.command@ == unfenced(command_source@)
                &&& row.result == out.content
                &&& row.exit_code == out.exit_code
                &&& row.author@ == OBSERVER_AUTHOR@
                &&& row.role == role
                &&& exists|at: Timestamp| #[trigger]
                    clock_instant(at) && stamped(row.created_at@, at)
            },
        },
{
    match output {
        None => {},
        Some(out) => {
            let command = strip_code_fence(command_source);
            store.record_evidence(
                mission_id,
                command,
                out.content,
                out.exit_code,
                OBSERVER_AUTHOR.to_owned(),
                role,
            );
        },
    }
}

proof fn seen_terminals_are_not_new(
    content: Seq<ToolCallContent>,
    seen: Seq<Seq<char>>,
    more: Seq<Seq<char>>,
)
    requires
        forall|id: Seq<char>| (seen + new_terminals(content, seen)).contains(id) ==> more.contains(id),
    ensures
        new_terminals(content, more) == Seq::<Seq<char>>::empty(),
    decreases content.len(),
{
    if content.len() > 0 {
        let rest = content.drop_last();
        assert forall|id: Seq<char>| (seen + new_terminals(rest, seen)).contains(id) implies more.contains(
            id,
        ) by {
            let short = seen + new_terminals(rest, seen);
            let long = seen + new_terminals(content, seen);
            let k = choose|k: int| 0 <= k < short.len() && short[k] == id;
            assert(long[k] == id);
        }
        seen_terminals_are_not_new(rest, seen, more);
        match content.last() {
            ToolCallContent::Terminal(id) => {
                let before = new_terminals(rest, seen);
                if !(seen + before).contains(id@) {
                    assert((seen + before.push(id@))[(seen + before).len() as int] == id@);
                }
                assert(more.contains(id@));
                assert(more + Seq::<Seq<char>>::empty() =~= more);
            },
            ToolCallContent::Other => {},
        }
    }
}

/// Looking at one tool call a second time records nothing more, and notes nothing more.
pub proof fn a_call_is_recorded_once(
    mission_id: MissionId,
    role: Option<Seq<char>>,
    call: ToolCall,
    calls: Seq<Seq<char>>,
    terminals: Seq<Seq<char>>,
)
    ensures
        match call_observation(
            mission_id,
            role,
            call,
            calls_after(call, calls),
            terminals_after(call, terminals),
        ) {
            ObservationView::Nothing => true,
            ObservationView::Terminals { terminals: again, .. } => again.len() == 0,
            ObservationView::Artifacts { .. } => false,
        },
        calls_after(call, calls_after(call, calls)) == calls_after(call, calls),
        terminals_after(call, terminals_after(call, terminals)) == terminals_after(call, terminals),
{
    let noted = calls_after(call, calls);
    if call.kind == ToolKind::Execute {
        let after = terminals_after(call, terminals);
        seen_terminals_are_not_new(call.content@, terminals, after);
        assert(after + Seq::<Seq<char>>::empty() =~= after);
    } else if is_finished_edit(call) {
        if !calls.contains(call.id@) {
            assert(noted[calls.len() as int] == call.id@);
        }
        assert(noted.contains(call.id@));
    }
}

} // verus!
