//! The sidebar of a mission: one mission at a time, with its workers, the files they changed,
//! what they recorded, and what waits for the user.

use vstd::prelude::*;
use crate::mission_changes::all_workers;
use crate::mission_changes::change_author_count;
use crate::mission_changes::count_of;
use crate::mission_changes::MissionChange;
use crate::mission_id::hyphenated_form;
use crate::mission_id::MissionId;
use crate::mission_orchestrator::aggregated;
use crate::mission_orchestrator::mission_state;
use crate::mission_orchestrator::mission_states;
use crate::mission_orchestrator::MissionState;
use crate::mission_orchestrator::MissionThreadState;
use crate::mission_snapshot::human_is;
use crate::mission_snapshot::mission_snapshot;
use crate::mission_snapshot::snapshot_fits;
use crate::mission_snapshot::snapshot_is;
use crate::mission_snapshot::states_of;
use crate::mission_snapshot::HumanTeammate;
use crate::mission_snapshot::MissionSnapshot;
use crate::mission_snapshot::WorkerRow;
use crate::mission_snapshot::WorkspaceState;
use crate::mission_tree::build_mission_tree;
use crate::mission_tree::group_threads;
use crate::mission_tree::ungrouped_threads;
use crate::mission_tree::MissionGroup;
use crate::mission_tree::MissionTree;
use crate::shared_context::Artifact;
use crate::shared_context::Decision;
use crate::shared_context::Evidence;
use crate::shared_context::MissionContext;
use crate::text::clone_opt;
use crate::text::decimal;
use crate::text::decimal_text;
use crate::text::join;
use crate::text::joined;
use crate::text::opt_view;
use crate::text::text_eq;
use crate::text::trim;
use crate::text::trimmed;
use crate::text::views;
use crate::thread::Mission;
use crate::thread::ThreadId;
use crate::thread::ThreadMetadata;
use crate::thread::ThreadStatus;
use crate::thread::WorkerSource;
use crate::time::Timestamp;
use crate::ui::bilingual_label;
use crate::ui::empty_section;
use crate::ui::section_header;
use crate::ui::BilingualLabel;
use crate::ui::Color;
use crate::ui::EmptySection;
use crate::ui::Label;
use crate::ui::SectionHeader;
use crate::worker_dashboard::status_of;
use crate::worker_dashboard::worker_status;

verus! {

/// How long ago something was, from the words for the time that has passed.
pub open spec fn ago(elapsed: Seq<char>) -> Seq<char> {
    elapsed + " ago"@
}

/// How long ago something was, from the words for the time that has passed: `10m ago`.
pub fn relative_time(elapsed: &str) -> (r: String)
    ensures
        r@ == ago(elapsed@),
{
    let mut r = elapsed.to_owned();
    r.append(" ago");
    r
}

/// Whether something recorded at `at` is older than the newest artifact.
pub open spec fn is_stale(at: Timestamp, newest_artifact: Option<Timestamp>) -> bool {
    match newest_artifact {
        Some(artifact) => at.before(artifact),
        None => false,
    }
}

/// Whether evidence is older than the newest artifact: the command ran before the last edit
/// and proves nothing of how things are now.
pub fn evidence_is_stale(
    evidence_recorded_at: Timestamp,
    newest_artifact_at: Option<Timestamp>,
) -> (r: bool)
    ensures
        r == is_stale(evidence_recorded_at, newest_artifact_at),
{
    match newest_artifact_at {
        Some(artifact) => evidence_recorded_at.is_before(&artifact),
        None => false,
    }
}

/// When the newest of the artifacts was recorded.
pub open spec fn newest_of(artifacts: Seq<Artifact>) -> Option<Timestamp>
    decreases artifacts.len(),
{
    if artifacts.len() == 0 {
        None
    } else {
        let last = artifacts.last().created_at;
        match newest_of(artifacts.drop_last()) {
            Some(t) => if last.before(t) {
                Some(t)
            } else {
                Some(last)
            },
            None => Some(last),
        }
    }
}

/// When the newest of the artifacts was recorded.
pub fn newest_artifact(artifacts: &Vec<Artifact>) -> (r: Option<Timestamp>)
    ensures
        r == newest_of(artifacts@),
{
    let mut newest: Option<Timestamp> = None;
    let mut i: usize = 0;
    while i < artifacts.len()
        invariant
            i <= artifacts.len(),
            newest == newest_of(artifacts@.take(i as int)),
        decreases artifacts.len() - i,
    {
        assert(artifacts@.take(i + 1).drop_last() =~= artifacts@.take(i as int));
        let at = artifacts[i].created_at;
        newest = match newest {
            Some(t) => if at.is_before(&t) {
                Some(t)
            } else {
                Some(at)
            },
            None => Some(at),
        };
        i += 1;
    }
    assert(artifacts@.take(i as int) =~= artifacts@);
    newest
}

/// The newest artifact is one of them, and none is newer.
pub proof fn newest_is_the_latest(artifacts: Seq<Artifact>)
    ensures
        newest_of(artifacts) is None <==> artifacts.len() == 0,
        newest_of(artifacts) matches Some(t) ==> exists|i: int|
            0 <= i < artifacts.len() && (#[trigger] artifacts[i]).created_at == t,
        newest_of(artifacts) matches Some(t) ==> forall|i: int|
            0 <= i < artifacts.len() ==> !t.before((#[trigger] artifacts[i]).created_at),
    decreases artifacts.len(),
{
    if artifacts.len() > 0 {
        let rest = artifacts.drop_last();
        newest_is_the_latest(rest);
        let t = newest_of(artifacts).unwrap();
        if rest.len() > 0 && artifacts.last().created_at.before(newest_of(rest).unwrap()) {
            let k = choose|k: int| 0 <= k < rest.len() && (#[trigger] rest[k]).created_at == t;
            assert(artifacts[k].created_at == t);
        } else {
            assert(artifacts[artifacts.len() - 1].created_at == t);
        }
        assert forall|i: int| 0 <= i < artifacts.len() implies !t.before(
            (#[trigger] artifacts[i]).created_at,
        ) by {
            if i < rest.len() {
                assert(!newest_of(rest).unwrap().before(rest[i].created_at));
            }
        }
    }
}

/// What there is to show of a mission's shared context.
pub enum MissionContextState {
    NoSelection,
    Loading,
    Empty,
    Populated(MissionContext),
    /// The store did not open, or the query failed: something else than having no records.
    Unavailable,
}

/// Whether `state` is what the outcome of a query shows; `None` where there was no store.
pub open spec fn context_state_is(
    state: MissionContextState,
    result: Option<Result<MissionContext, String>>,
) -> bool {
    match result {
        Some(Ok(context)) => if context.decisions@.len() == 0 && context.artifacts@.len() == 0
            && context.evidence@.len() == 0 {
            state is Empty
        } else {
            state == MissionContextState::Populated(context)
        },
        Some(Err(_)) => state is Unavailable,
        None => state is Unavailable,
    }
}

/// What the outcome of a query shows; having no records is no failure.
pub fn mission_context_state_from_result(result: Option<Result<MissionContext, String>>) -> (r:
    MissionContextState)
    ensures
        context_state_is(r, result),
{
    match result {
        None => MissionContextState::Unavailable,
        Some(Err(_)) => MissionContextState::Unavailable,
        Some(Ok(context)) => {
            if context.decisions.len() == 0 && context.artifacts.len() == 0
                && context.evidence.len() == 0 {
                MissionContextState::Empty
            } else {
                MissionContextState::Populated(context)
            }
        },
    }
}

/// The colour of a mission's state.
pub open spec fn state_color(state: MissionState) -> Color {
    match state {
        MissionState::Created => Color::Muted,
        MissionState::Running => Color::Info,
        MissionState::Waiting => Color::Warning,
        MissionState::Completed => Color::Success,
        MissionState::Failed => Color::Error,
    }
}

/// The colour of a mission's state.
pub fn mission_state_color(state: MissionState) -> (r: Color)
    ensures
        r == state_color(state),
{
    match state {
        MissionState::Created => Color::Muted,
        MissionState::Running => Color::Info,
        MissionState::Waiting => Color::Warning,
        MissionState::Completed => Color::Success,
        MissionState::Failed => Color::Error,
    }
}

/// How a message reaches a worker.
#[derive(Clone, Copy, Debug, PartialEq, Eq, Structural)]
pub enum Delivery {
    /// As the next user turn, at once.
    Send,
    /// Behind the messages that wait for the current turn to finish.
    Queue,
}

/// How a message reaches a worker: at once where it is idle, and otherwise behind those that
/// wait, so that a turn in progress is not interrupted.
pub fn send_to_worker_view(status: ThreadStatus) -> (r: Delivery)
    ensures
        r == if status == ThreadStatus::Idle {
            Delivery::Send
        } else {
            Delivery::Queue
        },
{
    if status == ThreadStatus::Idle {
        Delivery::Send
    } else {
        Delivery::Queue
    }
}

#[derive(Clone, Copy, Debug, PartialEq, Eq, Structural)]
pub enum DockPosition {
    Left,
    Bottom,
    Right,
}

/// What the sidebar asks of what it stands in.
#[derive(Clone, Copy, Debug, PartialEq, Eq, Structural)]
pub enum MissionPanelEvent {
    ShowThreadList,
}

/// The sidebar's state.
pub struct MissionPanel {
    pub position: DockPosition,
    pub tree: MissionTree,
    pub selected_mission: Option<MissionId>,
    pub selected_thread: Option<ThreadId>,
    pub context_state: MissionContextState,
    pub is_active: bool,
    /// What is typed in the field for a new task.
    pub new_task_text: String,
    pub new_task_open: bool,
    /// Whether changes of the store are passed over while the panel is hidden: a panel in a
    /// dock is told when it is shown and catches up then, one in the sidebar is not.
    pub refreshes_only_while_active: bool,
}

/// The ids of the missions of a tree.
pub open spec fn group_ids(groups: Seq<MissionGroup>) -> Seq<MissionId> {
    groups.map_values(|g: MissionGroup| g.mission.id)
}

/// The state of the context right after it was asked for.
pub open spec fn asked(state: MissionContextState, store_available: bool) -> bool {
    if store_available {
        state is Loading
    } else {
        state is Unavailable
    }
}

impl MissionPanel {
    /// Whether nothing is shown yet.
    pub open spec fn is_blank(self) -> bool {
        &&& self.position == DockPosition::Left
        &&& self.tree.groups@.len() == 0
        &&& self.tree.ungrouped@.len() == 0
        &&& self.selected_mission is None
        &&& self.selected_thread is None
        &&& self.context_state is NoSelection
        &&& self.new_task_text@.len() == 0
        &&& !self.new_task_open
    }

    fn blank(is_active: bool, refreshes_only_while_active: bool) -> (r: Self)
        ensures
            r.is_blank(),
            r.is_active == is_active,
            r.refreshes_only_while_active == refreshes_only_while_active,
    {
        MissionPanel {
            position: DockPosition::Left,
            tree: MissionTree { groups: Vec::new(), ungrouped: Vec::new() },
            selected_mission: None,
            selected_thread: None,
            context_state: MissionContextState::NoSelection,
            is_active,
            new_task_text: String::new(),
            new_task_open: false,
            refreshes_only_while_active,
        }
    }

    /// A panel for a dock: hidden at first, and quiet while hidden.
    pub fn new() -> (r: Self)
        ensures
            r.is_blank(),
            !r.is_active,
            r.refreshes_only_while_active,
    {
        Self::blank(false, true)
    }

    /// A panel for the sidebar: shown, and always listening. It is to be refreshed at once.
    pub fn for_workspace() -> (r: Self)
        ensures
            r.is_blank(),
            r.is_active,
            !r.refreshes_only_while_active,
    {
        Self::blank(true, false)
    }

    /// Whether a change of the store of threads makes the panel refresh.
    pub fn refreshes_on_store_change(&self) -> (r: bool)
        ensures
            r == !(self.refreshes_only_while_active && !self.is_active),
    {
        !(self.refreshes_only_while_active && !self.is_active)
    }

    /// Asks for the context of a mission; returns the key to ask the store with, where there
    /// is a store.
    pub fn refresh_context(
        &mut self,
        mission_id: MissionId,
        store_available: bool,
    ) -> (r: Option<String>)
        ensures
            asked(final(self).context_state, store_available),
            final(self).same_but_context(*old(self)),
            opt_view(r) == if store_available {
                Some(hyphenated_form(mission_id.value))
            } else {
                None
            },
    {
        if store_available {
            self.context_state = MissionContextState::Loading;
            Some(mission_id.to_key_string())
        } else {
            self.context_state = MissionContextState::Unavailable;
            None
        }
    }

    /// Whether everything but the context is as in `other`.
    pub open spec fn same_but_context(self, other: Self) -> bool {
        self == MissionPanel { context_state: self.context_state, ..other }
    }

    /// Takes the outcome of a query for the context.
    pub fn context_loaded(&mut self, result: Option<Result<MissionContext, String>>)
        ensures
            context_state_is(final(self).context_state, result),
            final(self).same_but_context(*old(self)),
    {
        self.context_state = mission_context_state_from_result(result);
    }

    /// Starts a refresh: the list of missions is to be read, and the context of the selected
    /// mission asked for; returns the key to ask the store with. Without a store of threads
    /// there is nothing to refresh from.
    pub fn refresh(&mut self, threads_available: bool, store_available: bool) -> (r: Option<String>)
        ensures
            final(self).same_but_context(*old(self)),
            match old(self).selected_mission {
                Some(id) => if threads_available {
                    asked(final(self).context_state, store_available) && opt_view(r)
                        == if store_available {
                        Some(hyphenated_form(id.value))
                    } else {
                        None
                    }
                } else {
                    *final(self) == *old(self) && r is None
                },
                None => *final(self) == *old(self) && r is None,
            },
    {
        if !threads_available {
            return None;
        }
        match self.selected_mission {
            Some(id) => self.refresh_context(id, store_available),
            None => None,
        }
    }

    /// Whether the tree is that of these missions and threads.
    pub open spec fn shows_tree(
        self,
        missions: Seq<Mission>,
        threads: Seq<ThreadMetadata>,
    ) -> bool {
        &&& self.tree.groups@.len() == missions.len()
        &&& forall|k: int|
            0 <= k < missions.len() ==> (#[trigger] self.tree.groups@[k]).mission == missions[k]
                && self.tree.groups@[k].threads@ == group_threads(missions, threads, k)
        &&& self.tree.ungrouped@ == ungrouped_threads(missions, threads)
    }

    /// Takes the list of missions that a refresh has read, which is empty where it could not
    /// be read, and the stored threads. A mission
    /// that is gone is selected no more, and with none selected the first one is: a panel
    /// with missions never shows none. Returns the key to ask the store with, where the
    /// context of another mission is needed.
    pub fn missions_loaded(
        &mut self,
        missions: &Vec<Mission>,
        threads: &Vec<ThreadMetadata>,
        store_available: bool,
    ) -> (r: Option<String>)
        ensures
            final(self).shows_tree(missions@, threads@),
            final(self).position == old(self).position,
            final(self).selected_thread == old(self).selected_thread,
            final(self).is_active == old(self).is_active,
            final(self).new_task_text == old(self).new_task_text,
            final(self).new_task_open == old(self).new_task_open,
            final(self).refreshes_only_while_active == old(self).refreshes_only_while_active,
            match selection_after(old(self).selected_mission, missions@) {
                Selection::Kept => final(self).selected_mission == old(self).selected_mission
                    && final(self).context_state == old(self).context_state && r is None,
                Selection::First => final(self).selected_mission == Some(missions@[0].id) && asked(
                    final(self).context_state,
                    store_available,
                ) && opt_view(r) == if store_available {
                    Some(hyphenated_form(missions@[0].id.value))
                } else {
                    None
                },
                Selection::Lost => final(self).selected_mission is None
                    && final(self).context_state is NoSelection && r is None,
            },
    {
        self.tree = build_mission_tree(missions, threads);
        match self.selected_mission {
            Some(id) => {
                if !lists_mission(missions, id) {
                    self.selected_mission = None;
                    self.context_state = MissionContextState::NoSelection;
                }
            },
            None => {},
        }
        if self.selected_mission.is_none() && missions.len() > 0 {
            let first = missions[0].id;
            self.selected_mission = Some(first);
            return self.refresh_context(first, store_available);
        }
        None
    }

    /// Shows another mission; returns the key to ask the store with.
    pub fn select_mission(
        &mut self,
        mission_id: MissionId,
        store_available: bool,
    ) -> (r: Option<String>)
        ensures
            asked(final(self).context_state, store_available),
            *final(self) == (MissionPanel {
                selected_mission: Some(mission_id),
                new_task_open: false,
                context_state: final(self).context_state,
                ..*old(self)
            }),
            opt_view(r) == if store_available {
                Some(hyphenated_form(mission_id.value))
            } else {
                None
            },
    {
        self.selected_mission = Some(mission_id);
        self.new_task_open = false;
        self.refresh_context(mission_id, store_available)
    }

    /// The position of the selected mission's group, or the number of groups.
    pub open spec fn selected_position(self) -> int {
        match self.selected_mission {
            Some(id) => first_position(group_ids(self.tree.groups@), id),
            None => self.tree.groups@.len() as int,
        }
    }

    /// The selected mission with its threads.
    pub fn selected_group(&self) -> (r: Option<&MissionGroup>)
        ensures
            match r {
                Some(group) => self.selected_position() < self.tree.groups@.len() && *group
                    == self.tree.groups@[self.selected_position()],
                None => self.selected_position() >= self.tree.groups@.len(),
            },
    {
        let id = match self.selected_mission {
            Some(id) => id,
            None => return None,
        };
        let mut i: usize = 0;
        while i < self.tree.groups.len()
            invariant
                i <= self.tree.groups.len(),
                forall|j: int| 0 <= j < i ==> (#[trigger] self.tree.groups@[j]).mission.id != id,
                self.selected_mission == Some(id),
            decreases self.tree.groups.len() - i,
        {
            if self.tree.groups[i].mission.id == id {
                proof {
                    first_position_is(group_ids(self.tree.groups@), id, i as int);
                }
                return Some(&self.tree.groups[i]);
            }
            i += 1;
        }
        proof {
            first_position_is(group_ids(self.tree.groups@), id, i as int);
        }
        None
    }

    /// The selected mission, for which a page is to be opened; none where none is selected or
    /// the workspace is gone.
    pub fn mission_to_open(&self, workspace_alive: bool) -> (r: Option<Mission>)
        ensures
            match r {
                Some(mission) => workspace_alive && self.selected_position()
                    < self.tree.groups@.len() && mission
                    == self.tree.groups@[self.selected_position()].mission,
                None => !workspace_alive || self.selected_position() >= self.tree.groups@.len(),
            },
    {
        if !workspace_alive {
            return None;
        }
        match self.selected_group() {
            Some(group) => Some(group.mission.clone()),
            None => None,
        }
    }

    /// Everything that is drawn of the selected mission.
    pub fn snapshot(&self, workspace: Option<&WorkspaceState>) -> (r: MissionSnapshot)
        requires
            workspace matches Some(state) ==> (self.selected_position() < self.tree.groups@.len()
                ==> snapshot_fits(
                state.sources@,
                self.tree.groups@[self.selected_position()].mission.id,
            )),
        ensures
            if self.selected_position() < self.tree.groups@.len() {
                snapshot_is(
                    r,
                    self.tree.groups@[self.selected_position()].mission,
                    match workspace {
                        Some(state) => Some(*state),
                        None => None,
                    },
                )
            } else {
                r.mission is None && r.workers@.len() == 0 && r.changes@.len() == 0 && human_is(
                    r.human,
                    match workspace {
                        Some(state) => state.user,
                        None => None,
                    },
                    0,
                )
            },
    {
        match self.selected_group() {
            Some(group) => mission_snapshot(&group.mission, workspace),
            None => MissionSnapshot {
                mission: None,
                workers: Vec::new(),
                changes: Vec::new(),
                human: match workspace {
                    Some(state) => HumanTeammate::new(&state.user, 0),
                    None => HumanTeammate::new(&None, 0),
                },
            },
        }
    }

    /// Marks a worker's row; its conversation is to be shown in the panel of agents.
    pub fn activate_thread(&mut self, thread_id: ThreadId)
        ensures
            *final(self) == (MissionPanel { selected_thread: Some(thread_id), ..*old(self) }),
    {
        self.selected_thread = Some(thread_id);
    }

    /// Opens the field for a new task, or closes it; returns whether the field is to take the
    /// focus.
    pub fn toggle_new_task(&mut self) -> (r: bool)
        ensures
            *final(self) == (MissionPanel { new_task_open: !old(self).new_task_open, ..*old(self) }),
            r == final(self).new_task_open,
    {
        self.new_task_open = !self.new_task_open;
        self.new_task_open
    }

    /// Closes the field for a new task; returns whether it was open, so that the key press is
    /// used up.
    pub fn dismiss_new_task(&mut self) -> (r: bool)
        ensures
            *final(self) == (MissionPanel { new_task_open: false, ..*old(self) }),
            r == old(self).new_task_open,
    {
        let was_open = self.new_task_open;
        self.new_task_open = false;
        was_open
    }

    /// Hands the typed task to a worker. Nothing happens without a task. Where the worker's
    /// thread is loaded the task is sent and the field cleared and closed; where it is not,
    /// the worker's conversation is opened and the text is left for the user.
    pub fn delegate_task(&mut self, worker: &WorkerRow) -> (r: Delegation)
        ensures
            if trimmed(old(self).new_task_text@).len() == 0 {
                r is Nothing && *final(self) == *old(self)
            } else if worker.thread_loaded {
                &&& r matches Delegation::Send { thread_id, task } && thread_id
                    == worker.metadata.thread_id && task@ == trimmed(old(self).new_task_text@)
                &&& final(self).new_task_text@.len() == 0
                &&& *final(self) == (MissionPanel {
                    new_task_open: false,
                    new_task_text: final(self).new_task_text,
                    ..*old(self)
                })
            } else {
                &&& r == Delegation::Open(worker.metadata)
                &&& *final(self) == (MissionPanel {
                    selected_thread: Some(worker.metadata.thread_id),
                    ..*old(self)
                })
            },
    {
        let task = trim(self.new_task_text.as_str());
        if task.as_str().unicode_len() == 0 {
            return Delegation::Nothing;
        }
        if !worker.thread_loaded {
            self.activate_thread(worker.metadata.thread_id);
            return Delegation::Open(worker.metadata.clone());
        }
        self.new_task_text = String::new();
        self.new_task_open = false;
        Delegation::Send { thread_id: worker.metadata.thread_id, task }
    }

    /// Whether the panel can stand at a position: anywhere but at the bottom.
    pub fn position_is_valid(&self, position: DockPosition) -> (r: bool)
        ensures
            r == (position != DockPosition::Bottom),
    {
        position != DockPosition::Bottom
    }

    /// Moves the panel.
    pub fn set_position(&mut self, position: DockPosition)
        ensures
            *final(self) == (MissionPanel { position, ..*old(self) }),
    {
        self.position = position;
    }

    /// Shows or hides the panel; returns whether it is to be refreshed.
    pub fn set_active(&mut self, active: bool) -> (r: bool)
        ensures
            *final(self) == (MissionPanel { is_active: active, ..*old(self) }),
            r == active,
    {
        self.is_active = active;
        active
    }
}

/// What becomes of a task that is handed to a worker.
pub enum Delegation {
    Nothing,
    /// The worker's conversation is to be opened.
    Open(ThreadMetadata),
    /// The task is to be sent to the worker as a user message.
    Send { thread_id: ThreadId, task: String },
}

/// What a refresh does to the selection.
pub enum Selection {
    Kept,
    First,
    Lost,
}

/// What a refresh does to the selection: it is kept where the mission is still there, goes to
/// the first mission where it is not, and is lost where there are no missions.
pub open spec fn selection_after(selected: Option<MissionId>, missions: Seq<Mission>) -> Selection {
    match selected {
        Some(id) => if crate::mission_tree::mission_ids(missions).contains(id) {
            Selection::Kept
        } else if missions.len() > 0 {
            Selection::First
        } else {
            Selection::Lost
        },
        None => if missions.len() > 0 {
            Selection::First
        } else {
            Selection::Kept
        },
    }
}

fn lists_mission(missions: &Vec<Mission>, id: MissionId) -> (r: bool)
    ensures
        r == crate::mission_tree::mission_ids(missions@).contains(id),
{
    let mut i: usize = 0;
    while i < missions.len()
        invariant
            i <= missions.len(),
            forall|j: int| 0 <= j < i ==> (#[trigger] missions@[j]).id != id,
        decreases missions.len() - i,
    {
        if missions[i].id == id {
            assert(crate::mission_tree::mission_ids(missions@)[i as int] == id);
            return true;
        }
        i += 1;
    }
    false
}

/// The position of the first `id`, or the number of ids.
pub open spec fn first_position(ids: Seq<MissionId>, id: MissionId) -> int
    decreases ids.len(),
{
    if ids.len() == 0 || ids[0] == id {
        0
    } else {
        1 + first_position(ids.subrange(1, ids.len() as int), id)
    }
}

proof fn first_position_is(ids: Seq<MissionId>, id: MissionId, i: int)
    requires
        0 <= i <= ids.len(),
        i < ids.len() ==> ids[i] == id,
        forall|j: int| 0 <= j < i ==> #[trigger] ids[j] != id,
    ensures
        first_position(ids, id) == i,
    decreases ids.len(),
{
    if i > 0 {
        let rest = ids.subrange(1, ids.len() as int);
        assert(ids[0] != id);
        assert forall|j: int| 0 <= j < i - 1 implies #[trigger] rest[j] != id by {
            assert(rest[j] == ids[j + 1]);
        }
        if i < ids.len() {
            assert(rest[i - 1] == ids[i]);
        }
        first_position_is(rest, id, i - 1);
    }
}

/// After a refresh that found missions, one of them is selected.
pub proof fn a_panel_with_missions_shows_one(
    before: Option<MissionId>,
    after: Option<MissionId>,
    missions: Seq<Mission>,
)
    requires
        missions.len() > 0,
        match selection_after(before, missions) {
            Selection::Kept => after == before,
            Selection::First => after == Some(missions[0].id),
            Selection::Lost => after is None,
        },
    ensures
        after matches Some(id) && crate::mission_tree::mission_ids(missions).contains(id),
{
    assert(crate::mission_tree::mission_ids(missions)[0] == missions[0].id);
}

/// The workers of a group whose threads are loaded, in their order.
pub open spec fn loaded_of(threads: Seq<ThreadMetadata>, loaded: Seq<ThreadId>) -> Seq<ThreadId>
    decreases threads.len(),
{
    if threads.len() == 0 {
        Seq::empty()
    } else {
        let before = loaded_of(threads.drop_last(), loaded);
        if loaded.contains(threads.last().thread_id) {
            before.push(threads.last().thread_id)
        } else {
            before
        }
    }
}

fn contains_thread(ids: &Vec<ThreadId>, id: ThreadId) -> (r: bool)
    ensures
        r == ids@.contains(id),
{
    let mut i: usize = 0;
    while i < ids.len()
        invariant
            i <= ids.len(),
            forall|j: int| 0 <= j < i ==> ids[j] != id,
        decreases ids.len() - i,
    {
        if ids[i] == id {
            assert(ids@[i as int] == id);
            return true;
        }
        i += 1;
    }
    false
}

impl MissionPanel {
    /// The loaded threads of the selected mission's workers: those to be listened to, so that
    /// a worker that becomes blocked shows at once.
    pub fn sync_worker_subscriptions(&self, loaded: &Vec<ThreadId>) -> (r: Vec<ThreadId>)
        ensures
            r@ == if self.selected_position() < self.tree.groups@.len() {
                loaded_of(self.tree.groups@[self.selected_position()].threads@, loaded@)
            } else {
                Seq::empty()
            },
    {
        let group = match self.selected_group() {
            Some(group) => group,
            None => return Vec::new(),
        };
        let threads = &group.threads;
        let mut r: Vec<ThreadId> = Vec::new();
        let mut i: usize = 0;
        assert(r@ =~= loaded_of(threads@.take(0), loaded@));
        while i < threads.len()
            invariant
                i <= threads.len(),
                r@ == loaded_of(threads@.take(i as int), loaded@),
            decreases threads.len() - i,
        {
            assert(threads@.take(i + 1).drop_last() =~= threads@.take(i as int));
            if contains_thread(loaded, threads[i].thread_id) {
                r.push(threads[i].thread_id);
            }
            i += 1;
        }
        assert(threads@.take(i as int) =~= threads@);
        r
    }
}

/// One mission in the menu that switches missions.
pub struct MissionMenuEntry {
    pub mission_id: MissionId,
    pub title: String,
    pub selected: bool,
}

/// The sidebar's header.
pub struct HeaderView {
    pub indicator: Color,
    pub title: String,
    pub switch_tooltip: &'static str,
    pub missions: Vec<MissionMenuEntry>,
    /// The entry for threads outside any mission, where there are some.
    pub ungrouped: Option<String>,
    pub new_mission: &'static str,
    pub thread_list: &'static str,
    pub new_task_tooltip: &'static str,
    pub new_task_color: Color,
}

/// `count` and the word for that many.
pub open spec fn counted(count: int, one: Seq<char>, many: Seq<char>) -> Seq<char> {
    decimal(count as nat) + " "@ + if count == 1 {
        one
    } else {
        many
    }
}

/// `count` and the word for that many.
pub fn counted_text(count: usize, one: &str, many: &str) -> (r: String)
    ensures
        r@ == counted(count as int, one@, many@),
{
    let mut r = decimal_text(count as u64);
    r.append(" ");
    r.append(
        if count == 1 {
            one
        } else {
            many
        },
    );
    r
}

/// Whether `entry` stands for a group in the menu.
pub open spec fn is_menu_entry(
    entry: MissionMenuEntry,
    group: MissionGroup,
    selected: Option<MissionId>,
) -> bool {
    &&& entry.mission_id == group.mission.id
    &&& entry.title == group.mission.title
    &&& entry.selected == (selected == Some(group.mission.id))
}

/// The colour of the header's dot: that of the mission's state where it can be read.
pub open spec fn indicator_color(
    mission: Option<Mission>,
    sources: Option<Seq<WorkerSource>>,
) -> Color {
    match (mission, sources) {
        (Some(m), Some(s)) => state_color(aggregated(mission_states(s, m.id))),
        _ => Color::Muted,
    }
}

/// The sequence behind an optional list.
pub open spec fn deref_vec<T>(list: Option<&Vec<T>>) -> Option<Seq<T>> {
    match list {
        Some(l) => Some(l@),
        None => None,
    }
}

impl MissionPanel {
    /// Whether `r` is the header.
    pub open spec fn shows_header(
        self,
        r: HeaderView,
        snapshot: MissionSnapshot,
        sources: Option<Seq<WorkerSource>>,
    ) -> bool {
        &&& r.indicator == indicator_color(snapshot.mission, sources)
        &&& r.title@ == match snapshot.mission {
            Some(mission) => mission.title@,
            None => "No Mission"@,
        }
        &&& r.missions@.len() == self.tree.groups@.len()
        &&& forall|i: int|
            0 <= i < r.missions@.len() ==> is_menu_entry(
                #[trigger] r.missions@[i],
                self.tree.groups@[i],
                self.selected_mission,
            )
        &&& opt_view(r.ungrouped) == if self.tree.ungrouped@.len() > 0 {
            Some(decimal(self.tree.ungrouped@.len()) + " threads outside any Mission"@)
        } else {
            None
        }
        &&& r.new_mission@ == "New Mission…"@
        &&& r.switch_tooltip@ == "Switch Mission"@
        &&& r.thread_list@ == "Show thread list"@
        &&& r.new_task_tooltip@ == "Delegate a task to a worker"@
        &&& r.new_task_color == if self.new_task_open {
            Color::Accent
        } else {
            Color::Muted
        }
    }

    /// The header: the mission's title and state, the menu of missions, and the button for a
    /// new task. `sources` are the stored threads with what the panel of agents has loaded of
    /// them, where there is such a panel.
    pub fn render_header(
        &self,
        snapshot: &MissionSnapshot,
        sources: Option<&Vec<WorkerSource>>,
    ) -> (r:
        HeaderView)
        ensures
            self.shows_header(r, *snapshot, deref_vec(sources)),
    {
        let title = match &snapshot.mission {
            Some(mission) => mission.title.clone(),
            None => "No Mission".to_owned(),
        };
        let indicator = match (&snapshot.mission, sources) {
            (Some(mission), Some(s)) => mission_state_color(mission_state(s, mission.id)),
            _ => Color::Muted,
        };
        let mut missions: Vec<MissionMenuEntry> = Vec::new();
        let mut i: usize = 0;
        while i < self.tree.groups.len()
            invariant
                i <= self.tree.groups.len(),
                missions.len() == i,
                forall|j: int|
                    0 <= j < i ==> is_menu_entry(
                        #[trigger] missions@[j],
                        self.tree.groups@[j],
                        self.selected_mission,
                    ),
            decreases self.tree.groups.len() - i,
        {
            let mission = &self.tree.groups[i].mission;
            missions.push(
                MissionMenuEntry {
                    mission_id: mission.id,
                    title: mission.title.clone(),
                    selected: self.selected_mission == Some(mission.id),
                },
            );
            i += 1;
        }
        let ungrouped = if self.tree.ungrouped.len() > 0 {
            let mut entry = decimal_text(self.tree.ungrouped.len() as u64);
            entry.append(" threads outside any Mission");
            Some(entry)
        } else {
            None
        };
        HeaderView {
            indicator,
            title,
            switch_tooltip: "Switch Mission",
            missions,
            ungrouped,
            new_mission: "New Mission…",
            thread_list: "Show thread list",
            new_task_tooltip: "Delegate a task to a worker",
            new_task_color: if self.new_task_open {
                Color::Accent
            } else {
                Color::Muted
            },
        }
    }
}

/// One worker that a new task can be handed to.
pub struct AssigneeView {
    pub thread_id: ThreadId,
    pub label: String,
    pub harness: String,
}

/// The field for a new task and those it can be handed to: the workers, the user, or a
/// worker yet to be added.
pub struct NewTaskView {
    pub task_header: BilingualLabel,
    pub placeholder: &'static str,
    pub assign_header: BilingualLabel,
    pub assignees: Vec<AssigneeView>,
    pub human_name: String,
    pub human_status: Label,
    pub new_worker: &'static str,
}

/// Whether `assignee` stands for a worker.
pub open spec fn is_assignee(assignee: AssigneeView, worker: WorkerRow) -> bool {
    &&& assignee.thread_id == worker.metadata.thread_id
    &&& assignee.label == worker.label
    &&& assignee.harness == worker.harness
}

/// Whether `r` shows those that a new task can be handed to.
pub open spec fn new_task_is(r: NewTaskView, snapshot: MissionSnapshot) -> bool {
    &&& r.task_header.reads("NEW TASK"@, "新建任务"@)
    &&& r.placeholder@ == "Describe the task…"@
    &&& r.assign_header.reads("ASSIGN TO"@, "指派给"@)
    &&& r.assignees@.len() == snapshot.workers@.len()
    &&& forall|i: int|
        0 <= i < r.assignees@.len() ==> is_assignee(
            #[trigger] r.assignees@[i],
            snapshot.workers@[i],
        )
    &&& r.human_name == snapshot.human.name
    &&& r.human_status.reads("online"@, Color::Success)
    &&& r.new_worker@ == "New worker…"@
}

impl MissionPanel {
    /// The field for a new task, where it is open.
    pub fn render_new_task_popover(&self, snapshot: &MissionSnapshot) -> (r: Option<NewTaskView>)
        ensures
            r is Some <==> self.new_task_open,
            r matches Some(view) ==> new_task_is(view, *snapshot),
    {
        if !self.new_task_open {
            return None;
        }
        let mut assignees: Vec<AssigneeView> = Vec::new();
        let mut i: usize = 0;
        while i < snapshot.workers.len()
            invariant
                i <= snapshot.workers.len(),
                assignees.len() == i,
                forall|j: int|
                    0 <= j < i ==> is_assignee(#[trigger] assignees@[j], snapshot.workers@[j]),
            decreases snapshot.workers.len() - i,
        {
            let worker = &snapshot.workers[i];
            assignees.push(
                AssigneeView {
                    thread_id: worker.metadata.thread_id,
                    label: worker.label.clone(),
                    harness: worker.harness.clone(),
                },
            );
            i += 1;
        }
        Some(
            NewTaskView {
                task_header: bilingual_label("NEW TASK", "新建任务"),
                placeholder: "Describe the task…",
                assign_header: bilingual_label("ASSIGN TO", "指派给"),
                assignees,
                human_name: snapshot.human.name.clone(),
                human_status: Label::new("online".to_owned(), Color::Success),
                new_worker: "New worker…",
            },
        )
    }

    /// Closes the field for a new task to add a worker instead; returns the mission that the
    /// worker is to be added to.
    pub fn add_new_worker(&mut self) -> (r: Option<Mission>)
        ensures
            *final(self) == (MissionPanel { new_task_open: false, ..*old(self) }),
            match r {
                Some(mission) => old(self).selected_position() < old(self).tree.groups@.len()
                    && mission == old(self).tree.groups@[old(self).selected_position()].mission,
                None => old(self).selected_position() >= old(self).tree.groups@.len(),
            },
    {
        self.new_task_open = false;
        match self.selected_group() {
            Some(group) => Some(group.mission.clone()),
            None => None,
        }
    }
}

/// The strip under the header: how many agents, and how many of them are blocked.
pub struct SummaryView {
    pub agents: String,
    pub teammates: &'static str,
    pub blocked: Option<Label>,
}

/// Whether `r` sums a mission up.
pub open spec fn shows_summary(r: SummaryView, snapshot: MissionSnapshot) -> bool {
    let blocked = count_of(states_of(snapshot.workers@), MissionThreadState::Waiting);
    &&& r.agents@ == counted(snapshot.workers@.len() as int, "agent"@, "agents"@)
    &&& r.teammates@ == "1 teammate"@
    &&& match r.blocked {
        Some(label) => blocked > 0 && label.reads(decimal(blocked) + " blocked"@, Color::Warning),
        None => blocked == 0,
    }
}

/// The strip under the header.
pub fn render_summary(snapshot: &MissionSnapshot) -> (r: SummaryView)
    ensures
        shows_summary(r, *snapshot),
{
    let counts = snapshot.counts();
    let blocked = if counts.blocked > 0 {
        let mut text = decimal_text(counts.blocked as u64);
        text.append(" blocked");
        Some(Label::new(text, Color::Warning))
    } else {
        None
    };
    SummaryView {
        agents: counted_text(counts.agents, "agent", "agents"),
        teammates: "1 teammate",
        blocked,
    }
}

/// One worker's row.
pub struct WorkerRowView {
    pub thread_id: ThreadId,
    pub focused: bool,
    pub label: String,
    pub subtitle: String,
    pub status: Label,
}

/// The user's row.
pub struct HumanRowView {
    pub avatar: Option<String>,
    pub initials: String,
    pub name: String,
    pub you: &'static str,
    pub description: &'static str,
    pub to_review: Option<Label>,
}

/// The section of workers.
pub struct WorkersView {
    pub header: SectionHeader,
    pub rows: Vec<WorkerRowView>,
    pub human: HumanRowView,
    pub empty: Option<&'static str>,
}

/// The line under a worker's name: what runs it, and what it is doing.
pub open spec fn worker_subtitle(worker: WorkerRow) -> Seq<char> {
    match worker.activity {
        Some(activity) => worker.harness@ + " · "@ + activity@,
        None => worker.harness@,
    }
}

/// Whether `row` shows a worker.
pub open spec fn shows_worker(
    row: WorkerRowView,
    worker: WorkerRow,
    selected: Option<ThreadId>,
) -> bool {
    &&& row.thread_id == worker.metadata.thread_id
    &&& row.focused == (selected == Some(worker.metadata.thread_id))
    &&& row.label == worker.label
    &&& row.subtitle@ == worker_subtitle(worker)
    &&& row.status.reads(status_of(worker.state).0, status_of(worker.state).1)
}

/// Whether `row` shows the user.
pub open spec fn shows_human(row: HumanRowView, human: HumanTeammate) -> bool {
    &&& row.avatar == human.avatar
    &&& row.initials == human.initials
    &&& row.name == human.name
    &&& row.you@ == "· you"@
    &&& row.description@ == "Human · owner & approver"@
    &&& match row.to_review {
        Some(label) => human.to_review > 0 && label.reads(
            decimal(human.to_review as nat) + " to review"@,
            Color::Warning,
        ),
        None => human.to_review == 0,
    }
}

/// The user's row, with how much waits for them.
pub fn render_human_row(human: &HumanTeammate) -> (r: HumanRowView)
    ensures
        shows_human(r, *human),
{
    let to_review = if human.to_review > 0 {
        let mut text = decimal_text(human.to_review as u64);
        text.append(" to review");
        Some(Label::new(text, Color::Warning))
    } else {
        None
    };
    HumanRowView {
        avatar: clone_opt(&human.avatar),
        initials: human.initials.clone(),
        name: human.name.clone(),
        you: "· you",
        description: "Human · owner & approver",
        to_review,
    }
}

impl MissionPanel {
    /// Whether `r` is the section of workers.
    pub open spec fn shows_workers(self, r: WorkersView, snapshot: MissionSnapshot) -> bool {
        &&& r.header.reads("WORKERS"@, "工作单元"@, Some("harness · role"@))
        &&& r.rows@.len() == snapshot.workers@.len()
        &&& forall|i: int|
            0 <= i < r.rows@.len() ==> shows_worker(
                #[trigger] r.rows@[i],
                snapshot.workers@[i],
                self.selected_thread,
            )
        &&& shows_human(r.human, snapshot.human)
        &&& match r.empty {
            Some(text) => snapshot.workers@.len() == 0 && text@
                == "No workers yet. Create a Mission to add some."@,
            None => snapshot.workers@.len() > 0,
        }
    }

    /// The section of workers: each with its state, then the user.
    pub fn render_workers(&self, snapshot: &MissionSnapshot) -> (r: WorkersView)
        ensures
            self.shows_workers(r, *snapshot),
    {
        let mut rows: Vec<WorkerRowView> = Vec::new();
        let mut i: usize = 0;
        while i < snapshot.workers.len()
            invariant
                i <= snapshot.workers.len(),
                rows.len() == i,
                forall|j: int|
                    0 <= j < i ==> shows_worker(
                        #[trigger] rows@[j],
                        snapshot.workers@[j],
                        self.selected_thread,
                    ),
            decreases snapshot.workers.len() - i,
        {
            let worker = &snapshot.workers[i];
            let (status_label, status_color) = worker_status(worker.state);
            let mut subtitle = worker.harness.clone();
            match &worker.activity {
                Some(activity) => {
                    subtitle.append(" · ");
                    subtitle.append(activity.as_str());
                },
                None => {},
            }
            rows.push(
                WorkerRowView {
                    thread_id: worker.metadata.thread_id,
                    focused: self.selected_thread == Some(worker.metadata.thread_id),
                    label: worker.label.clone(),
                    subtitle,
                    status: Label::new(status_label.to_owned(), status_color),
                },
            );
            i += 1;
        }
        WorkersView {
            header: section_header("WORKERS", "工作单元", Some("harness · role".to_owned())),
            rows,
            human: render_human_row(&snapshot.human),
            empty: if snapshot.workers.len() == 0 {
                Some("No workers yet. Create a Mission to add some.")
            } else {
                None
            },
        }
    }
}

/// One changed file's row.
pub struct ChangeRowView {
    pub name: String,
    pub tooltip: String,
    /// The thread whose diff the row opens: that of the first worker that touched the file,
    /// where it is loaded.
    pub diff_thread: Option<ThreadId>,
    pub contended: bool,
    pub added: Label,
    pub removed: Label,
}

/// The section of changed files.
pub struct ChangesView {
    pub header: SectionHeader,
    pub rows: Vec<ChangeRowView>,
}

/// The first worker with a label.
pub open spec fn worker_named(workers: Seq<WorkerRow>, label: Seq<char>) -> Option<WorkerRow>
    decreases workers.len(),
{
    if workers.len() == 0 {
        None
    } else if workers[0].label@ == label {
        Some(workers[0])
    } else {
        worker_named(workers.subrange(1, workers.len() as int), label)
    }
}

/// The first worker with a label.
pub fn find_worker<'a>(workers: &'a Vec<WorkerRow>, label: &str) -> (r: Option<&'a WorkerRow>)
    ensures
        match r {
            Some(worker) => worker_named(workers@, label@) == Some(*worker),
            None => worker_named(workers@, label@) is None,
        },
{
    let mut i: usize = 0;
    assert(workers@.subrange(0, workers@.len() as int) =~= workers@);
    while i < workers.len()
        invariant
            i <= workers.len(),
            worker_named(workers@, label@) == worker_named(
                workers@.subrange(i as int, workers@.len() as int),
                label@,
            ),
        decreases workers.len() - i,
    {
        let ghost rest = workers@.subrange(i as int, workers@.len() as int);
        assert(rest[0] == workers@[i as int]);
        assert(rest.subrange(1, rest.len() as int) =~= workers@.subrange(
            i + 1,
            workers@.len() as int,
        ));
        if text_eq(workers[i].label.as_str(), label) {
            return Some(&workers[i]);
        }
        i += 1;
    }
    None
}

/// The thread whose diff stands for a changed file: that of the first worker that touched it,
/// where it is loaded.
pub open spec fn diff_thread_of(
    change: MissionChange,
    workers: Seq<WorkerRow>,
) -> Option<ThreadId> {
    if change.workers@.len() == 0 {
        None
    } else {
        match worker_named(workers, change.workers@[0]@) {
            Some(worker) => if worker.thread_loaded {
                Some(worker.metadata.thread_id)
            } else {
                None
            },
            None => None,
        }
    }
}

/// The thread whose diff stands for a changed file.
pub fn diff_thread(change: &MissionChange, workers: &Vec<WorkerRow>) -> (r: Option<ThreadId>)
    ensures
        r == diff_thread_of(*change, workers@),
{
    if change.workers.len() == 0 {
        return None;
    }
    match find_worker(workers, change.workers[0].as_str()) {
        Some(worker) => if worker.thread_loaded {
            Some(worker.metadata.thread_id)
        } else {
            None
        },
        None => None,
    }
}

/// Whether `row` shows a changed file.
pub open spec fn shows_change(
    row: ChangeRowView,
    change: MissionChange,
    workers: Seq<WorkerRow>,
) -> bool {
    &&& row.name == change.name
    &&& row.tooltip@ == "Changed by "@ + joined(views(change.workers@), " and "@)
    &&& row.diff_thread == diff_thread_of(change, workers)
    &&& row.contended == change.contended()
    &&& row.added.reads("+"@ + decimal(change.lines_added as nat), Color::Created)
    &&& row.removed.reads("−"@ + decimal(change.lines_removed as nat), Color::Deleted)
}

/// The note in the header of the changed files: how many files, by how many authors.
pub open spec fn changes_meta(changes: Seq<MissionChange>) -> Seq<char> {
    counted(changes.len() as int, "file"@, "files"@) + " · "@ + counted(
        all_workers(changes).to_set().len() as int,
        "author"@,
        "authors"@,
    )
}

/// Whether `r` is the section of changed files; there is none where nothing was changed.
pub open spec fn shows_changes(r: Option<ChangesView>, snapshot: MissionSnapshot) -> bool {
    match r {
        Some(view) => {
            &&& snapshot.changes@.len() > 0
            &&& view.header.reads("CHANGES"@, "变更"@, Some(changes_meta(snapshot.changes@)))
            &&& view.rows@.len() == snapshot.changes@.len()
            &&& forall|i: int|
                0 <= i < view.rows@.len() ==> shows_change(
                    #[trigger] view.rows@[i],
                    snapshot.changes@[i],
                    snapshot.workers@,
                )
        },
        None => snapshot.changes@.len() == 0,
    }
}

/// The section of changed files; none where nothing was changed.
pub fn render_changes(snapshot: &MissionSnapshot) -> (r: Option<ChangesView>)
    ensures
        shows_changes(r, *snapshot),
{
    if snapshot.changes.len() == 0 {
        return None;
    }
    let authors: usize = change_author_count(&snapshot.changes);
    let mut meta = counted_text(snapshot.changes.len(), "file", "files");
    meta.append(" · ");
    meta.append(counted_text(authors, "author", "authors").as_str());
    let mut rows: Vec<ChangeRowView> = Vec::new();
    let mut i: usize = 0;
    while i < snapshot.changes.len()
        invariant
            i <= snapshot.changes.len(),
            rows.len() == i,
            forall|j: int|
                0 <= j < i ==> shows_change(
                    #[trigger] rows@[j],
                    snapshot.changes@[j],
                    snapshot.workers@,
                ),
        decreases snapshot.changes.len() - i,
    {
        let change = &snapshot.changes[i];
        let mut tooltip = "Changed by ".to_owned();
        tooltip.append(join(&change.workers, " and ").as_str());
        let mut added = "+".to_owned();
        added.append(decimal_text(change.lines_added as u64).as_str());
        let mut removed = "−".to_owned();
        removed.append(decimal_text(change.lines_removed as u64).as_str());
        rows.push(
            ChangeRowView {
                name: change.name.clone(),
                tooltip,
                diff_thread: diff_thread(change, &snapshot.workers),
                contended: change.is_contended(),
                added: Label::new(added, Color::Created),
                removed: Label::new(removed, Color::Deleted),
            },
        );
        i += 1;
    }
    Some(ChangesView { header: section_header("CHANGES", "变更", Some(meta)), rows })
}

/// Whose a row of shared context is shown to be: the worker's, by its role, or else whoever
/// recorded it.
pub open spec fn attributed_to(role: Option<String>, author: String) -> Seq<char> {
    match role {
        Some(r) => r@,
        None => author@,
    }
}

/// Whose a row of shared context is shown to be.
pub fn attribution(role: &Option<String>, author: &String) -> (r: String)
    ensures
        r@ == attributed_to(*role, *author),
{
    match role {
        Some(r) => r.clone(),
        None => author.clone(),
    }
}

/// Who did something and how long ago.
pub open spec fn byline_text(name: Seq<char>, elapsed: Seq<char>) -> Seq<char> {
    name + " · "@ + ago(elapsed)
}

/// One decision in the sidebar.
pub struct DecisionLine {
    pub value: String,
    pub name: String,
    pub created_at: Timestamp,
}

impl DecisionLine {
    /// Who decided and how long ago, from the words for the time that has passed.
    pub fn byline(&self, elapsed: &str) -> (r: String)
        ensures
            r@ == byline_text(self.name@, elapsed@),
    {
        let mut r = self.name.clone();
        r.append(" · ");
        r.append(relative_time(elapsed).as_str());
        r
    }
}

/// One piece of evidence in the sidebar.
pub struct EvidenceLine {
    pub command: String,
    pub stale: bool,
    pub created_at: Timestamp,
}

impl EvidenceLine {
    /// Whether the evidence is stale, or else how long ago it was recorded, from the words for
    /// the time that has passed.
    pub fn trailing(&self, elapsed: &str) -> (r: Label)
        ensures
            if self.stale {
                r.reads("stale"@, Color::Warning)
            } else {
                r.reads(ago(elapsed@), Color::Muted)
            },
    {
        if self.stale {
            Label::new("stale".to_owned(), Color::Warning)
        } else {
            Label::new(relative_time(elapsed), Color::Muted)
        }
    }
}

/// The section of shared context.
pub enum SharedContextSection {
    Message(EmptySection),
    Trail {
        header: SectionHeader,
        decisions_title: &'static str,
        decision_count: String,
        decisions: Vec<DecisionLine>,
        evidence_title: BilingualLabel,
        evidence_count: String,
        evidence: Vec<EvidenceLine>,
    },
}

/// How many of the latest rows the sidebar shows of a list.
pub const SIDEBAR_ROWS: usize = 3;

/// How many rows the sidebar shows of a list of `n`.
pub open spec fn sidebar_rows(n: int) -> int {
    if n < SIDEBAR_ROWS {
        n
    } else {
        SIDEBAR_ROWS as int
    }
}

/// Whether `line` shows a decision.
pub open spec fn shows_decision(line: DecisionLine, decision: Decision) -> bool {
    &&& line.value == decision.value
    &&& line.name@ == attributed_to(decision.role, decision.author)
    &&& line.created_at == decision.created_at
}

/// Whether `line` shows a piece of evidence.
pub open spec fn shows_evidence(
    line: EvidenceLine,
    evidence: Evidence,
    newest: Option<Timestamp>,
) -> bool {
    &&& line.command == evidence.command
    &&& line.stale == is_stale(evidence.created_at, newest)
    &&& line.created_at == evidence.created_at
}

/// Whether `section` shows a context: the latest decisions and evidence, newest first.
pub open spec fn shows_trail(section: SharedContextSection, context: MissionContext) -> bool {
    match section {
        SharedContextSection::Message(_) => false,
        SharedContextSection::Trail {
            header,
            decisions_title,
            decision_count,
            decisions,
            evidence_title,
            evidence_count,
            evidence,
        } => {
            let n = context.decisions@.len() as int;
            let m = context.evidence@.len() as int;
            &&& header.reads("SHARED CONTEXT"@, "共享上下文"@, None)
            &&& decisions_title@ == "Decisions"@
            &&& decision_count@ == decimal(n as nat)
            &&& decisions@.len() == sidebar_rows(n)
            &&& forall|i: int|
                0 <= i < decisions@.len() ==> shows_decision(
                    #[trigger] decisions@[i],
                    context.decisions@[n - 1 - i],
                )
            &&& evidence_title.reads("Evidence"@, "验证证据"@)
            &&& evidence_count@ == decimal(m as nat)
            &&& evidence@.len() == sidebar_rows(m)
            &&& forall|i: int|
                0 <= i < evidence@.len() ==> shows_evidence(
                    #[trigger] evidence@[i],
                    context.evidence@[m - 1 - i],
                    newest_of(context.artifacts@),
                )
        },
    }
}

/// Whether `section` says `message` in place of a trail.
pub open spec fn shows_message(section: SharedContextSection, message: Seq<char>) -> bool {
    section matches SharedContextSection::Message(m) && m.reads(
        "SHARED CONTEXT"@,
        "共享上下文"@,
        message,
    )
}

/// Whether `section` shows what there is of a context, or why there is nothing.
pub open spec fn shows_context(section: SharedContextSection, state: MissionContextState) -> bool {
    match state {
        MissionContextState::NoSelection => shows_message(section, "Select a Mission."@),
        MissionContextState::Loading => shows_message(section, "Loading…"@),
        MissionContextState::Unavailable => shows_message(section, "Shared context is unavailable."@),
        MissionContextState::Empty => shows_message(section, "Nothing recorded yet."@),
        MissionContextState::Populated(context) => shows_trail(section, context),
    }
}

fn latest_decisions(context: &MissionContext) -> (r: Vec<DecisionLine>)
    ensures
        r@.len() == sidebar_rows(context.decisions@.len() as int),
        forall|i: int|
            0 <= i < r@.len() ==> shows_decision(
                #[trigger] r@[i],
                context.decisions@[context.decisions@.len() - 1 - i],
            ),
{
    let n: usize = context.decisions.len();
    let mut lines: Vec<DecisionLine> = Vec::new();
    let mut i: usize = 0;
    while i < n && i < SIDEBAR_ROWS
        invariant
            n == context.decisions@.len(),
            i <= n,
            i <= SIDEBAR_ROWS,
            lines.len() == i,
            forall|j: int|
                0 <= j < i ==> shows_decision(#[trigger] lines@[j], context.decisions@[n - 1 - j]),
        decreases n - i,
    {
        let decision = &context.decisions[n - 1 - i];
        lines.push(
            DecisionLine {
                value: decision.value.clone(),
                name: attribution(&decision.role, &decision.author),
                created_at: decision.created_at,
            },
        );
        i += 1;
    }
    lines
}

fn latest_evidence(context: &MissionContext) -> (r: Vec<EvidenceLine>)
    ensures
        r@.len() == sidebar_rows(context.evidence@.len() as int),
        forall|i: int|
            0 <= i < r@.len() ==> shows_evidence(
                #[trigger] r@[i],
                context.evidence@[context.evidence@.len() - 1 - i],
                newest_of(context.artifacts@),
            ),
{
    let newest = newest_artifact(&context.artifacts);
    let n: usize = context.evidence.len();
    let mut lines: Vec<EvidenceLine> = Vec::new();
    let mut i: usize = 0;
    while i < n && i < SIDEBAR_ROWS
        invariant
            newest == newest_of(context.artifacts@),
            n == context.evidence@.len(),
            i <= n,
            i <= SIDEBAR_ROWS,
            lines.len() == i,
            forall|j: int|
                0 <= j < i ==> shows_evidence(
                    #[trigger] lines@[j],
                    context.evidence@[n - 1 - j],
                    newest,
                ),
        decreases n - i,
    {
        let row = &context.evidence[n - 1 - i];
        lines.push(
            EvidenceLine {
                command: row.command.clone(),
                stale: evidence_is_stale(row.created_at, newest),
                created_at: row.created_at,
            },
        );
        i += 1;
    }
    lines
}

impl MissionPanel {
    /// The section of shared context: the latest decisions and evidence, or why there are
    /// none.
    pub fn render_shared_context(&self) -> (r: SharedContextSection)
        ensures
            shows_context(r, self.context_state),
    {
        let message = match &self.context_state {
            MissionContextState::NoSelection => "Select a Mission.",
            MissionContextState::Loading => "Loading…",
            MissionContextState::Unavailable => "Shared context is unavailable.",
            MissionContextState::Empty => "Nothing recorded yet.",
            MissionContextState::Populated(context) => {
                return SharedContextSection::Trail {
                    header: section_header("SHARED CONTEXT", "共享上下文", None),
                    decisions_title: "Decisions",
                    decision_count: decimal_text(context.decisions.len() as u64),
                    decisions: latest_decisions(context),
                    evidence_title: bilingual_label("Evidence", "验证证据"),
                    evidence_count: decimal_text(context.evidence.len() as u64),
                    evidence: latest_evidence(context),
                };
            },
        };
        SharedContextSection::Message(empty_section("SHARED CONTEXT", "共享上下文", message))
    }

    /// Whether `r` is the footer.
    pub open spec fn shows_footer(self, r: FooterView) -> bool {
        let others = if self.tree.groups@.len() > 0 {
            self.tree.groups@.len() - 1
        } else {
            0
        };
        r.label@ == "Past missions"@ && r.count@ == decimal(others as nat)
    }

    /// The footer: how many missions there are besides the one shown.
    pub fn render_footer(&self) -> (r: FooterView)
        ensures
            self.shows_footer(r),
    {
        let groups: usize = self.tree.groups.len();
        let count: usize = if groups > 0 {
            groups - 1
        } else {
            0
        };
        FooterView { label: "Past missions", count: decimal_text(count as u64) }
    }
}

/// The sidebar, from top to bottom.
pub struct PanelView {
    pub header: HeaderView,
    pub summary: SummaryView,
    pub workers: WorkersView,
    pub changes: Option<ChangesView>,
    pub shared_context: SharedContextSection,
    pub footer: FooterView,
    pub new_task: Option<NewTaskView>,
}

impl MissionPanel {
    /// The sidebar, from top to bottom, all of it from one snapshot of the selected mission.
    pub fn render(
        &self,
        snapshot: &MissionSnapshot,
        sources: Option<&Vec<WorkerSource>>,
    ) -> (r: PanelView)
        ensures
            self.shows_header(r.header, *snapshot, deref_vec(sources)),
            shows_summary(r.summary, *snapshot),
            self.shows_workers(r.workers, *snapshot),
            shows_changes(r.changes, *snapshot),
            shows_context(r.shared_context, self.context_state),
            self.shows_footer(r.footer),
            r.new_task is Some <==> self.new_task_open,
            r.new_task matches Some(view) ==> new_task_is(view, *snapshot),
    {
        PanelView {
            header: self.render_header(snapshot, sources),
            summary: render_summary(snapshot),
            workers: self.render_workers(snapshot),
            changes: render_changes(snapshot),
            shared_context: self.render_shared_context(),
            footer: self.render_footer(),
            new_task: self.render_new_task_popover(snapshot),
        }
    }
}

/// The sidebar's footer.
pub struct FooterView {
    pub label: &'static str,
    pub count: String,
}

} // verus!
