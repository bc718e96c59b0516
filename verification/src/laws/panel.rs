//! Laws about the sidebar: what is selected, what is refreshed, what a task is handed to, and
//! what is shown.

use vstd::prelude::*;
use crate::laws::lists::filter_from_the_end;
use crate::laws::texts::blank;
use crate::laws::texts::is_bare;
use crate::laws::texts::trimming_cuts_the_white_space_at_the_ends;
use crate::laws::views::a_position_is_the_first;
use crate::laws::views::a_state_is_counted_by_its_workers;
use crate::laws::views::is_before_an_artifact;
use crate::laws::views::is_state_of;
use crate::laws::views::name_of;
use crate::laws::views::workers_in;
use crate::mission_changes::change_author_count;
use crate::mission_changes::MissionChange;
use crate::mission_id::hyphenated_form;
use crate::mission_id::MissionId;
use crate::mission_orchestrator::mission_state;
use crate::mission_orchestrator::MissionState;
use crate::mission_orchestrator::MissionThreadState;
use crate::mission_panel::attribution;
use crate::mission_panel::counted_text;
use crate::mission_panel::diff_thread;
use crate::mission_panel::find_worker;
use crate::mission_panel::group_ids;
use crate::mission_panel::loaded_of;
use crate::mission_panel::mission_context_state_from_result;
use crate::mission_panel::mission_state_color;
use crate::mission_panel::newest_artifact;
use crate::mission_panel::relative_time;
use crate::mission_panel::render_changes;
use crate::mission_panel::render_human_row;
use crate::mission_panel::render_summary;
use crate::mission_panel::send_to_worker_view;
use crate::mission_panel::ChangesView;
use crate::mission_panel::DecisionLine;
use crate::mission_panel::Delegation;
use crate::mission_panel::Delivery;
use crate::mission_panel::DockPosition;
use crate::mission_panel::EvidenceLine;
use crate::mission_panel::FooterView;
use crate::mission_panel::HeaderView;
use crate::mission_panel::HumanRowView;
use crate::mission_panel::MissionContextState;
use crate::mission_panel::MissionPanel;
use crate::mission_panel::NewTaskView;
use crate::mission_panel::PanelView;
use crate::mission_panel::SharedContextSection;
use crate::mission_panel::SummaryView;
use crate::mission_panel::WorkersView;
use crate::mission_snapshot::mission_snapshot;
use crate::mission_snapshot::HumanTeammate;
use crate::mission_snapshot::MissionSnapshot;
use crate::mission_snapshot::WorkerRow;
use crate::mission_snapshot::WorkspaceState;
use crate::mission_tree::build_mission_tree;
use crate::mission_tree::MissionGroup;
use crate::mission_tree::MissionTree;
use crate::shared_context::Artifact;
use crate::shared_context::MissionContext;
use crate::text::decimal;
use crate::text::joined;
use crate::text::views;
use crate::thread::Mission;
use crate::thread::ThreadId;
use crate::thread::ThreadMetadata;
use crate::thread::ThreadStatus;
use crate::thread::WorkerSource;
use crate::time::Timestamp;
use crate::ui::Color;
use crate::ui::Label;
use crate::worker_dashboard::worker_status;

verus! {

/// A message goes at once to a worker at rest and is queued for one that works.
pub proof fn a_message_does_not_interrupt(status: ThreadStatus, r: Delivery)
    requires
        call_ensures(send_to_worker_view, (status,), r),
    ensures
        r is Send <==> status is Idle,
        r is Queue <==> status is Generating,
{
}

/// Each state of a mission has its colour, and no two the same.
pub proof fn each_mission_state_has_its_colour(state: MissionState, r: Color)
    requires
        call_ensures(mission_state_color, (state,), r),
    ensures
        r is Error <==> state is Failed,
        r is Warning <==> state is Waiting,
        r is Info <==> state is Running,
        r is Success <==> state is Completed,
        r is Muted <==> state is Created,
{
}

/// What a reading shows: what was read, that nothing is recorded, or that it could not be read.
pub proof fn a_reading_shows_what_was_read(
    result: Option<Result<MissionContext, String>>,
    r: MissionContextState,
)
    requires
        call_ensures(mission_context_state_from_result, (result,), r),
    ensures
        is_state_of(r, result),
{
}

/// A panel opens with nothing selected, typed or shown; one in a dock waits until it is shown, one
/// in the sidebar follows every change of the store.
pub proof fn a_panel_opens_blank(docked: MissionPanel, beside: MissionPanel)
    requires
        call_ensures(MissionPanel::new, (), docked),
        call_ensures(MissionPanel::for_workspace, (), beside),
    ensures
        opens_blank(docked),
        opens_blank(beside),
        !docked.is_active,
        docked.refreshes_only_while_active,
        beside.is_active,
        !beside.refreshes_only_while_active,
{
}

/// Whether a panel has nothing selected, typed or shown.
pub open spec fn opens_blank(panel: MissionPanel) -> bool {
    &&& panel.position is Left
    &&& panel.tree.groups@.len() == 0
    &&& panel.tree.ungrouped@.len() == 0
    &&& panel.selected_mission is None
    &&& panel.selected_thread is None
    &&& panel.context_state is NoSelection
    &&& panel.new_task_text@.len() == 0
    &&& !panel.new_task_open
}

/// A change of the store is followed by a panel that is shown and by one that always follows it,
/// and by no other.
pub proof fn a_hidden_panel_waits(panel: MissionPanel, r: bool)
    requires
        call_ensures(MissionPanel::refreshes_on_store_change, (&panel,), r),
    ensures
        r <==> panel.is_active || !panel.refreshes_only_while_active,
{
}

/// Whether the selected mission's group is the `i`-th.
pub open spec fn is_selected_at(panel: MissionPanel, i: int) -> bool {
    &&& 0 <= i < panel.tree.groups@.len()
    &&& panel.selected_mission == Some(panel.tree.groups@[i].mission.id)
    &&& forall|j: int|
        0 <= j < i ==> panel.selected_mission != Some((#[trigger] panel.tree.groups@[j]).mission.id)
}

/// Whether no group is that of the selected mission.
pub open spec fn has_no_selection(panel: MissionPanel) -> bool {
    forall|j: int|
        0 <= j < panel.tree.groups@.len() ==> panel.selected_mission != Some(
            (#[trigger] panel.tree.groups@[j]).mission.id,
        )
}

proof fn where_the_selection_is(panel: MissionPanel, i: int)
    ensures
        is_selected_at(panel, i) ==> panel.selected_position() == i,
        has_no_selection(panel) ==> panel.selected_position() == panel.tree.groups@.len(),
        panel.selected_position() >= panel.tree.groups@.len() ==> has_no_selection(panel),
{
    let groups = panel.tree.groups@;
    let ids = group_ids(groups);
    assert(ids.len() == groups.len());
    assert forall|j: int| 0 <= j < groups.len() implies #[trigger] ids[j] == groups[j].mission.id by {}
    match panel.selected_mission {
        Some(id) => {
            a_position_is_the_first(ids, id);
            let p = panel.selected_position();
            if is_selected_at(panel, i) {
                if p < i {
                    assert(ids[p] == groups[p].mission.id);
                    assert(panel.selected_mission != Some(groups[p].mission.id));
                }
                if i < p {
                    assert(ids[i] != id);
                }
            }
            if has_no_selection(panel) && p < groups.len() {
                assert(ids[p] == groups[p].mission.id);
                assert(panel.selected_mission != Some(groups[p].mission.id));
            }
            if p >= groups.len() {
                assert forall|j: int| 0 <= j < groups.len() implies panel.selected_mission != Some(
                    (#[trigger] groups[j]).mission.id,
                ) by {
                    assert(ids[j] != id);
                }
            }
        },
        None => {},
    }
}

/// The selected group is the first one of the selected mission, and its mission is the one that is
/// opened, where there is a workspace to open it in; without such a group there is none.
pub proof fn the_selected_group_is_that_of_the_mission(
    panel: MissionPanel,
    i: int,
    group: Option<&MissionGroup>,
    alive: bool,
    mission: Option<Mission>,
)
    requires
        call_ensures(MissionPanel::selected_group, (&panel,), group),
        call_ensures(MissionPanel::mission_to_open, (&panel, alive), mission),
    ensures
        is_selected_at(panel, i) ==> group == Some(&panel.tree.groups@[i]),
        has_no_selection(panel) ==> group is None,
        is_selected_at(panel, i) && alive ==> mission == Some(panel.tree.groups@[i].mission),
        has_no_selection(panel) || !alive ==> mission is None,
{
    where_the_selection_is(panel, i);
}

/// A panel's snapshot is that of the selected mission; without one it is of nobody's work.
pub proof fn a_panels_snapshot_is_of_the_selected_mission(
    panel: MissionPanel,
    i: int,
    workspace: WorkspaceState,
    r: MissionSnapshot,
)
    requires
        call_ensures(MissionPanel::snapshot, (&panel, Some(&workspace)), r),
    ensures
        is_selected_at(panel, i) ==> r.mission == Some(panel.tree.groups@[i].mission)
            && crate::mission_snapshot::snapshot_is(
            r,
            panel.tree.groups@[i].mission,
            Some(workspace),
        ),
        has_no_selection(panel) ==> r.mission is None && r.workers@.len() == 0 && r.changes@.len()
            == 0 && r.human.to_review == 0 && crate::laws::snapshot::is_name_of(
            r.human.name@,
            workspace.user,
        ),
{
    where_the_selection_is(panel, i);
}

/// Whether a panel is as it was but for the context that it shows.
pub open spec fn is_as_it_was(a: MissionPanel, b: MissionPanel) -> bool {
    &&& a.position == b.position
    &&& a.tree == b.tree
    &&& a.selected_mission == b.selected_mission
    &&& a.selected_thread == b.selected_thread
    &&& a.is_active == b.is_active
    &&& a.new_task_text == b.new_task_text
    &&& a.new_task_open == b.new_task_open
    &&& a.refreshes_only_while_active == b.refreshes_only_while_active
}

/// Whether a panel asks for the context of a mission: where there is a store it loads and the
/// mission's key is asked for, and otherwise the context is not available.
pub open spec fn asks_for(
    panel: MissionPanel,
    store: bool,
    key: Option<String>,
    id: MissionId,
) -> bool {
    if store {
        panel.context_state is Loading && (key matches Some(k) && k@ == hyphenated_form(id.value))
    } else {
        panel.context_state is Unavailable && key is None
    }
}

/// A refresh asks for the context of the mission at hand and changes nothing else; without a
/// selected mission, or without threads, it does nothing.
pub proof fn a_refresh_asks_for_the_selected_mission(
    asked: &mut MissionPanel,
    id: MissionId,
    store: bool,
    key: Option<String>,
    refreshed: &mut MissionPanel,
    threads: bool,
    other: Option<String>,
    told: &mut MissionPanel,
    result: Option<Result<MissionContext, String>>,
)
    requires
        call_ensures(MissionPanel::refresh_context, (asked, id, store), key),
        call_ensures(MissionPanel::refresh, (refreshed, threads, store), other),
        call_ensures(MissionPanel::context_loaded, (told, result), ()),
    ensures
        is_as_it_was(*final(asked), *old(asked)),
        asks_for(*final(asked), store, key, id),
        is_as_it_was(*final(refreshed), *old(refreshed)),
        old(refreshed).selected_mission matches Some(selected) ==> (threads ==> asks_for(
            *final(refreshed),
            store,
            other,
            selected,
        )),
        old(refreshed).selected_mission is None || !threads ==> *final(refreshed) == *old(refreshed)
            && other is None,
        is_as_it_was(*final(told), *old(told)),
        is_state_of(final(told).context_state, result),
{
}

/// When the missions are listed anew the panel shows their tree. The selection stays where its
/// mission is still listed, with what is shown of it; otherwise it goes to the first mission,
/// whose context is asked for; and where there is none it is lost, and nothing is shown. The
/// rest of the panel stays.
pub proof fn a_selection_stays_with_its_mission(
    panel: &mut MissionPanel,
    missions: Vec<Mission>,
    threads: Vec<ThreadMetadata>,
    store: bool,
    key: Option<String>,
    tree: MissionTree,
    k: int,
)
    requires
        call_ensures(MissionPanel::missions_loaded, (panel, &missions, &threads, store), key),
        call_ensures(build_mission_tree, (&missions, &threads), tree),
    ensures
        final(panel).tree.groups@.len() == missions@.len(),
        0 <= k < missions@.len() ==> final(panel).tree.groups@[k].mission == missions@[k]
            && final(panel).tree.groups@[k].threads@ == tree.groups@[k].threads@,
        final(panel).tree.ungrouped@ == tree.ungrouped@,
        ({
            let kept = old(panel).selected_mission matches Some(id)
                && crate::laws::snapshot::is_listed(missions@, id);
            &&& kept ==> final(panel).selected_mission == old(panel).selected_mission
                && final(panel).context_state == old(panel).context_state && key is None
            &&& !kept && missions@.len() > 0 ==> final(panel).selected_mission == Some(missions@[0].id)
                && asks_for(*final(panel), store, key, missions@[0].id)
            &&& missions@.len() == 0 ==> final(panel).selected_mission is None && key is None && (old(panel).selected_mission is Some ==> final(panel).context_state is NoSelection)
        }),
        final(panel).position == old(panel).position,
        final(panel).selected_thread == old(panel).selected_thread,
        final(panel).is_active == old(panel).is_active,
        final(panel).new_task_text == old(panel).new_task_text,
        final(panel).new_task_open == old(panel).new_task_open,
        final(panel).refreshes_only_while_active == old(panel).refreshes_only_while_active,
{
    let ids = crate::mission_tree::mission_ids(missions@);
    match old(panel).selected_mission {
        Some(id) => {
            assert(ids.contains(id) <==> crate::laws::snapshot::is_listed(missions@, id)) by {
                if ids.contains(id) {
                    let j = choose|j: int| 0 <= j < ids.len() && ids[j] == id;
                    assert(missions@[j].id == id);
                }
                if crate::laws::snapshot::is_listed(missions@, id) {
                    let j = choose|j: int| 0 <= j < missions@.len() && (#[trigger] missions@[j]).id == id;
                    assert(ids[j] == id);
                }
            }
        },
        None => {},
    }
}

/// Selecting a mission asks for its context and closes the field for a task; nothing else of the
/// panel changes.
pub proof fn selecting_a_mission_asks_for_it(
    panel: &mut MissionPanel,
    id: MissionId,
    store: bool,
    key: Option<String>,
)
    requires
        call_ensures(MissionPanel::select_mission, (panel, id, store), key),
    ensures
        final(panel).selected_mission == Some(id),
        !final(panel).new_task_open,
        asks_for(*final(panel), store, key, id),
        final(panel).tree == old(panel).tree,
        final(panel).selected_thread == old(panel).selected_thread,
        final(panel).new_task_text == old(panel).new_task_text,
        final(panel).position == old(panel).position,
        final(panel).is_active == old(panel).is_active,
{
}

/// The field for a task opens and closes, and what is typed in it stays; dismissing it closes it
/// and says whether it was open. Activating a thread selects it. None of these changes anything
/// else.
pub proof fn the_field_for_a_task_opens_and_closes(
    toggled: &mut MissionPanel,
    open: bool,
    dismissed: &mut MissionPanel,
    was_open: bool,
    activated: &mut MissionPanel,
    thread: ThreadId,
)
    requires
        call_ensures(MissionPanel::toggle_new_task, (toggled,), open),
        call_ensures(MissionPanel::dismiss_new_task, (dismissed,), was_open),
        call_ensures(MissionPanel::activate_thread, (activated, thread), ()),
    ensures
        open != old(toggled).new_task_open,
        final(toggled).new_task_open == open,
        final(toggled).new_task_text == old(toggled).new_task_text,
        final(toggled).selected_mission == old(toggled).selected_mission,
        final(toggled).context_state == old(toggled).context_state,
        !final(dismissed).new_task_open,
        was_open == old(dismissed).new_task_open,
        final(dismissed).new_task_text == old(dismissed).new_task_text,
        final(dismissed).selected_mission == old(dismissed).selected_mission,
        final(activated).selected_thread == Some(thread),
        final(activated).selected_mission == old(activated).selected_mission,
        final(activated).new_task_open == old(activated).new_task_open,
        final(activated).new_task_text == old(activated).new_task_text,
{
}

/// A task goes, without the white space around it, to a worker whose thread is loaded, and the
/// field is cleared and closed; for a worker whose thread is not, the conversation is opened and
/// the typed task stays. A blank task goes nowhere.
pub proof fn a_task_goes_to_a_loaded_worker(
    panel: &mut MissionPanel,
    worker: WorkerRow,
    r: Delegation,
)
    requires
        call_ensures(MissionPanel::delegate_task, (panel, &worker), r),
    ensures
        r is Nothing <==> blank(old(panel).new_task_text@),
        r is Nothing ==> *final(panel) == *old(panel),
        r is Send <==> !blank(old(panel).new_task_text@) && worker.thread_loaded,
        r matches Delegation::Send { thread_id, task } ==> thread_id == worker.metadata.thread_id
            && task@.len() > 0 && is_bare(old(panel).new_task_text@, task@)
            && final(panel).new_task_text@.len() == 0 && !final(panel).new_task_open
            && final(panel).selected_thread == old(panel).selected_thread,
        r matches Delegation::Open(metadata) ==> metadata == worker.metadata
            && final(panel).new_task_text == old(panel).new_task_text && final(panel).new_task_open
            == old(panel).new_task_open && final(panel).selected_thread == Some(
            worker.metadata.thread_id,
        ),
        final(panel).selected_mission == old(panel).selected_mission,
        final(panel).context_state == old(panel).context_state,
        final(panel).tree == old(panel).tree,
{
    trimming_cuts_the_white_space_at_the_ends(old(panel).new_task_text@);
}

/// A panel stands at the left or the right and never at the bottom; it takes the place it is given,
/// and asks to be refreshed when it is shown.
pub proof fn a_panel_stands_at_a_side(
    panel: MissionPanel,
    position: DockPosition,
    valid: bool,
    placed: &mut MissionPanel,
    shown: &mut MissionPanel,
    active: bool,
    r: bool,
)
    requires
        call_ensures(MissionPanel::position_is_valid, (&panel, position), valid),
        call_ensures(MissionPanel::set_position, (placed, position), ()),
        call_ensures(MissionPanel::set_active, (shown, active), r),
    ensures
        valid <==> position is Left || position is Right,
        final(placed).position == position,
        final(placed).selected_mission == old(placed).selected_mission,
        final(placed).context_state == old(placed).context_state,
        final(placed).is_active == old(placed).is_active,
        final(shown).is_active == active,
        r == active,
        final(shown).position == old(shown).position,
        final(shown).selected_mission == old(shown).selected_mission,
        final(shown).context_state == old(shown).context_state,
{
}

proof fn loaded_threads_of(threads: Seq<ThreadMetadata>, loaded: Seq<ThreadId>)
    ensures
        loaded_of(threads, loaded).len() == threads.filter(
            |t: ThreadMetadata| loaded.contains(t.thread_id),
        ).len(),
        forall|k: int|
            0 <= k < loaded_of(threads, loaded).len() ==> #[trigger] loaded_of(threads, loaded)[k]
                == threads.filter(|t: ThreadMetadata| loaded.contains(t.thread_id))[k].thread_id,
    decreases threads.len(),
{
    filter_from_the_end(threads, |t: ThreadMetadata| loaded.contains(t.thread_id));
    if threads.len() > 0 {
        loaded_threads_of(threads.drop_last(), loaded);
    }
}

/// A panel listens to the loaded threads of the selected mission, all of them, in their order, and
/// to no other; without a selected mission it listens to none.
pub proof fn a_panel_listens_to_the_selected_workers(
    panel: MissionPanel,
    i: int,
    loaded: Vec<ThreadId>,
    r: Vec<ThreadId>,
    k: int,
)
    requires
        call_ensures(MissionPanel::sync_worker_subscriptions, (&panel, &loaded), r),
    ensures
        has_no_selection(panel) ==> r@.len() == 0,
        is_selected_at(panel, i) ==> {
            let mine = panel.tree.groups@[i].threads@.filter(
                |t: ThreadMetadata| loaded@.contains(t.thread_id),
            );
            r@.len() == mine.len() && (0 <= k < mine.len() ==> r@[k] == mine[k].thread_id)
        },
{
    where_the_selection_is(panel, i);
    if is_selected_at(panel, i) {
        loaded_threads_of(panel.tree.groups@[i].threads@, loaded@);
    }
}

/// A count of one has the word for one, and any other count the word for many.
pub proof fn a_count_has_its_word(count: usize, one: &str, many: &str, r: String)
    requires
        call_ensures(counted_text, (count, one, many), r),
    ensures
        count == 1 ==> r@ == decimal(1) + " "@ + one@,
        count != 1 ==> r@ == decimal(count as nat) + " "@ + many@,
{
}

/// The head of the panel has the title of the mission and the colour of its state, an entry for
/// each mission with the selected one marked, and says how many threads are outside any, where
/// there are some.
pub proof fn the_head_of_the_panel(
    panel: MissionPanel,
    snapshot: MissionSnapshot,
    sources: Vec<WorkerSource>,
    r: HeaderView,
    without: HeaderView,
    k: int,
    id: MissionId,
    state: MissionState,
    color: Color,
)
    requires
        call_ensures(MissionPanel::render_header, (&panel, &snapshot, Some(&sources)), r),
        call_ensures(MissionPanel::render_header, (&panel, &snapshot, None), without),
        call_ensures(mission_state, (&sources, id), state),
        call_ensures(mission_state_color, (state,), color),
    ensures
        (snapshot.mission matches Some(m) && m.id == id) ==> r.indicator == color,
        snapshot.mission is None ==> r.indicator is Muted,
        without.indicator is Muted,
        snapshot.mission matches Some(m) ==> r.title@ == m.title@,
        snapshot.mission is None ==> r.title@ == "No Mission"@,
        r.missions@.len() == panel.tree.groups@.len(),
        0 <= k < panel.tree.groups@.len() ==> r.missions@[k].mission_id
            == panel.tree.groups@[k].mission.id && r.missions@[k].title@
            == panel.tree.groups@[k].mission.title@ && (r.missions@[k].selected
            <==> panel.selected_mission == Some(panel.tree.groups@[k].mission.id)),
        r.ungrouped is Some <==> panel.tree.ungrouped@.len() > 0,
        r.ungrouped matches Some(text) ==> text@ == decimal(panel.tree.ungrouped@.len())
            + " threads outside any Mission"@,
        r.new_task_color is Accent <==> panel.new_task_open,
        r.new_task_color is Muted <==> !panel.new_task_open,
{
}

/// The field for a task is shown exactly while it is open, and offers every worker, under its label
/// and what runs it.
pub proof fn a_task_can_go_to_every_worker(
    panel: MissionPanel,
    snapshot: MissionSnapshot,
    r: Option<NewTaskView>,
    k: int,
)
    requires
        call_ensures(MissionPanel::render_new_task_popover, (&panel, &snapshot), r),
    ensures
        r is Some <==> panel.new_task_open,
        r matches Some(view) ==> view.assignees@.len() == snapshot.workers@.len() && (0 <= k
            < snapshot.workers@.len() ==> view.assignees@[k].thread_id
            == snapshot.workers@[k].metadata.thread_id && view.assignees@[k].label@
            == snapshot.workers@[k].label@ && view.assignees@[k].harness@
            == snapshot.workers@[k].harness@) && view.human_name@ == snapshot.human.name@,
{
}

/// Adding a worker closes the field for a task and goes to the selected mission, where there is one.
pub proof fn a_worker_is_added_to_the_selected_mission(
    panel: &mut MissionPanel,
    r: Option<Mission>,
    i: int,
)
    requires
        call_ensures(MissionPanel::add_new_worker, (panel,), r),
    ensures
        is_selected_at(*old(panel), i) ==> r == Some(old(panel).tree.groups@[i].mission),
        has_no_selection(*old(panel)) ==> r is None,
        !final(panel).new_task_open,
        final(panel).new_task_text == old(panel).new_task_text,
        final(panel).selected_mission == old(panel).selected_mission,
        final(panel).tree == old(panel).tree,
        final(panel).context_state == old(panel).context_state,
{
    where_the_selection_is(*old(panel), i);
}

/// A mission is summed up by how many agents it has, and, in the colour of warnings, how many of
/// them wait for the user, where any does.
pub proof fn a_mission_is_summed_up(snapshot: MissionSnapshot, r: SummaryView)
    requires
        call_ensures(render_summary, (&snapshot,), r),
    ensures
        snapshot.workers@.len() == 1 ==> r.agents@ == decimal(1) + " "@ + "agent"@,
        snapshot.workers@.len() != 1 ==> r.agents@ == decimal(snapshot.workers@.len()) + " "@
            + "agents"@,
        r.blocked is Some <==> workers_in(snapshot.workers@, MissionThreadState::Waiting) > 0,
        r.blocked matches Some(label) ==> label.color is Warning && label.text@ == decimal(
            workers_in(snapshot.workers@, MissionThreadState::Waiting),
        ) + " blocked"@,
{
    a_state_is_counted_by_its_workers(snapshot.workers@, MissionThreadState::Waiting);
}

/// A row has its worker's name, what runs it and what it does, and the word and colour of its
/// state; it is marked where its thread is selected. Without workers the section says so. The
/// user has a row, which says how much waits for them, where anything does.
pub proof fn the_section_of_workers(
    panel: MissionPanel,
    snapshot: MissionSnapshot,
    r: WorkersView,
    k: int,
    status: (&'static str, Color),
    human: HumanRowView,
)
    requires
        call_ensures(MissionPanel::render_workers, (&panel, &snapshot), r),
        0 <= k < snapshot.workers@.len(),
        call_ensures(worker_status, (snapshot.workers@[k].state,), status),
        call_ensures(render_human_row, (&snapshot.human,), human),
    ensures
        r.rows@.len() == snapshot.workers@.len(),
        r.empty is None,
        ({
            let worker = snapshot.workers@[k];
            let row = r.rows@[k];
            &&& row.thread_id == worker.metadata.thread_id
            &&& row.focused <==> panel.selected_thread == Some(worker.metadata.thread_id)
            &&& row.label@ == worker.label@
            &&& worker.activity matches Some(activity) ==> row.subtitle@ == worker.harness@ + " · "@
                + activity@
            &&& worker.activity is None ==> row.subtitle@ == worker.harness@
            &&& row.status.text@ == status.0@
            &&& row.status.color == status.1
        }),
        shows_the_user(r.human, snapshot.human),
        shows_the_user(human, snapshot.human),
{
}

/// Whether a row shows the user, with how much waits for them, where anything does.
pub open spec fn shows_the_user(row: HumanRowView, human: HumanTeammate) -> bool {
    &&& row.name@ == human.name@
    &&& row.initials@ == human.initials@
    &&& row.avatar == human.avatar
    &&& row.to_review is Some <==> human.to_review > 0
    &&& row.to_review matches Some(label) ==> label.color is Warning && label.text@ == decimal(
        human.to_review as nat,
    ) + " to review"@
}

/// The section of workers says that there are none exactly where there are none.
pub proof fn a_section_without_workers_says_so(
    panel: MissionPanel,
    snapshot: MissionSnapshot,
    r: WorkersView,
)
    requires
        call_ensures(MissionPanel::render_workers, (&panel, &snapshot), r),
    ensures
        r.empty is Some <==> snapshot.workers@.len() == 0,
        r.rows@.len() == snapshot.workers@.len(),
{
}

/// A changed file leads to the diff of the first worker that touched it, where that worker's thread
/// is loaded.
pub proof fn a_file_leads_to_its_first_authors_diff(
    change: MissionChange,
    workers: Vec<WorkerRow>,
    r: Option<ThreadId>,
    label: &str,
    worker: Option<&WorkerRow>,
)
    requires
        call_ensures(diff_thread, (&change, &workers), r),
        change.workers@.len() > 0,
        label@ == change.workers@[0]@,
        call_ensures(find_worker, (&workers, label), worker),
    ensures
        r matches Some(id) ==> (worker matches Some(w) && w.thread_loaded && id
            == w.metadata.thread_id),
        r is None <==> !(worker matches Some(w) && w.thread_loaded),
{
}

/// The section of changes is there exactly where a file changed, and counts the files and their
/// authors; a row has the file's name, its workers, its lines in their colours, the thread whose
/// diff it opens, and whether more than one worker touched it.
pub proof fn the_section_of_changes(
    snapshot: MissionSnapshot,
    r: Option<ChangesView>,
    k: int,
    thread: Option<ThreadId>,
)
    requires
        call_ensures(render_changes, (&snapshot,), r),
        0 <= k < snapshot.changes@.len() ==> call_ensures(
            diff_thread,
            (&snapshot.changes@[k], &snapshot.workers),
            thread,
        ),
    ensures
        r is Some <==> snapshot.changes@.len() > 0,
        r matches Some(view) ==> view.rows@.len() == snapshot.changes@.len(),
        (r matches Some(view) && 0 <= k < snapshot.changes@.len()) ==> {
            let row = r.unwrap().rows@[k];
            let change = snapshot.changes@[k];
            &&& row.name@ == change.name@
            &&& row.contended <==> change.workers@.len() >= 2
            &&& row.diff_thread == thread
            &&& row.tooltip@ == "Changed by "@ + joined(views(change.workers@), " and "@)
            &&& row.added.text@ == "+"@ + decimal(change.lines_added as nat)
            &&& row.added.color is Created
            &&& row.removed.text@ == "−"@ + decimal(change.lines_removed as nat)
            &&& row.removed.color is Deleted
        },
{
}

/// The header of the changes counts the files and the different workers named for them.
pub proof fn changes_are_counted(snapshot: MissionSnapshot, r: Option<ChangesView>, authors: usize)
    requires
        call_ensures(render_changes, (&snapshot,), r),
        call_ensures(change_author_count, (&snapshot.changes,), authors),
    ensures
        r matches Some(view) ==> (view.header.meta matches Some(text) && text@ == (decimal(
            snapshot.changes@.len(),
        ) + " "@ + (if snapshot.changes@.len() == 1 {
            "file"@
        } else {
            "files"@
        })) + " · "@ + (decimal(authors as nat) + " "@ + (if authors == 1 {
            "author"@
        } else {
            "authors"@
        }))),
{
}

/// Whose a row is: its role's, or else its author's. How long ago something was is said behind it.
pub proof fn a_row_is_its_roles(
    role: Option<String>,
    author: String,
    name: String,
    elapsed: &str,
    since: String,
    line: DecisionLine,
    byline: String,
    evidence: EvidenceLine,
    trailing: Label,
)
    requires
        call_ensures(attribution, (&role, &author), name),
        call_ensures(relative_time, (elapsed,), since),
        call_ensures(DecisionLine::byline, (&line, elapsed), byline),
        call_ensures(EvidenceLine::trailing, (&evidence, elapsed), trailing),
    ensures
        name@ == name_of(role, author),
        since@ == elapsed@ + " ago"@,
        byline@ == line.name@ + " · "@ + since@,
        evidence.stale ==> trailing.text@ == "stale"@ && trailing.color is Warning,
        !evidence.stale ==> trailing.text@ == since@ && trailing.color is Muted,
{
}

/// The newest artifact's time is the time of some artifact, and none is later; without artifacts
/// there is none.
pub proof fn the_newest_artifact_is_the_latest(artifacts: Vec<Artifact>, r: Option<Timestamp>, i: int)
    requires
        call_ensures(newest_artifact, (&artifacts,), r),
    ensures
        r is None <==> artifacts@.len() == 0,
        r matches Some(t) ==> exists|k: int|
            0 <= k < artifacts@.len() && (#[trigger] artifacts@[k]).created_at == t,
        r matches Some(t) ==> (0 <= i < artifacts@.len() ==> !crate::laws::views::is_earlier(
            t,
            artifacts@[i].created_at,
        )),
{
    crate::mission_panel::newest_is_the_latest(artifacts@);
}

/// The sidebar shows the three latest decisions and the three latest pieces of evidence, the newest
/// first, or all where there are fewer, and counts all there are; evidence is stale exactly where
/// an artifact was recorded after it.
pub proof fn the_sidebar_shows_the_latest_rows(
    panel: MissionPanel,
    context: MissionContext,
    r: SharedContextSection,
    k: int,
)
    requires
        call_ensures(MissionPanel::render_shared_context, (&panel,), r),
        panel.context_state == MissionContextState::Populated(context),
    ensures
        match r {
            SharedContextSection::Trail {
                header,
                decisions_title,
                decision_count,
                decisions,
                evidence_title,
                evidence_count,
                evidence,
            } => {
                let n = context.decisions@.len();
                let m = context.evidence@.len();
                &&& n <= 3 ==> decisions@.len() == n
                &&& n > 3 ==> decisions@.len() == 3
                &&& m <= 3 ==> evidence@.len() == m
                &&& m > 3 ==> evidence@.len() == 3
                &&& decision_count@ == decimal(n)
                &&& evidence_count@ == decimal(m)
                &&& 0 <= k < decisions@.len() ==> {
                    let d = context.decisions@[n - 1 - k];
                    decisions@[k].value@ == d.value@ && decisions@[k].name@ == name_of(
                        d.role,
                        d.author,
                    ) && decisions@[k].created_at == d.created_at
                }
                &&& 0 <= k < evidence@.len() ==> {
                    let e = context.evidence@[m - 1 - k];
                    evidence@[k].command@ == e.command@ && evidence@[k].created_at == e.created_at && (
                    evidence@[k].stale <==> is_before_an_artifact(e.created_at, context.artifacts@))
                }
            },
            _ => false,
        },
{
    let m = context.evidence@.len();
    if 0 <= k < m {
        crate::laws::views::staleness(context.evidence@[m - 1 - k].created_at, context.artifacts@);
    }
}

/// The sidebar says why it shows no rows: no mission is selected, the context loads, could not be
/// read, or is empty.
pub proof fn the_sidebar_says_why_it_shows_no_rows(panel: MissionPanel, r: SharedContextSection)
    requires
        call_ensures(MissionPanel::render_shared_context, (&panel,), r),
    ensures
        r is Trail <==> panel.context_state is Populated,
        panel.context_state is NoSelection ==> (r matches SharedContextSection::Message(m) && m.message@
            == "Select a Mission."@),
        panel.context_state is Loading ==> (r matches SharedContextSection::Message(m) && m.message@
            == "Loading…"@),
        panel.context_state is Unavailable ==> (r matches SharedContextSection::Message(m) && m.message@
            == "Shared context is unavailable."@),
        panel.context_state is Empty ==> (r matches SharedContextSection::Message(m) && m.message@
            == "Nothing recorded yet."@),
{
}

/// The foot of the panel counts the other missions.
pub proof fn the_foot_counts_the_other_missions(panel: MissionPanel, r: FooterView)
    requires
        call_ensures(MissionPanel::render_footer, (&panel,), r),
    ensures
        panel.tree.groups@.len() == 0 ==> r.count@ == decimal(0),
        panel.tree.groups@.len() > 0 ==> r.count@ == decimal((panel.tree.groups@.len() - 1) as nat),
{
}

/// The panel is drawn from one snapshot: its parts are those that are drawn of it one by one.
pub proof fn the_panel_is_drawn_from_its_parts(
    panel: MissionPanel,
    snapshot: MissionSnapshot,
    sources: Option<&Vec<WorkerSource>>,
    r: PanelView,
    k: int,
)
    requires
        call_ensures(MissionPanel::render, (&panel, &snapshot, sources), r),
    ensures
        r.workers.rows@.len() == snapshot.workers@.len(),
        0 <= k < snapshot.workers@.len() ==> r.workers.rows@[k].label@ == snapshot.workers@[k].label@,
        r.changes is Some <==> snapshot.changes@.len() > 0,
        r.new_task is Some <==> panel.new_task_open,
        r.shared_context is Trail <==> panel.context_state is Populated,
        snapshot.mission matches Some(m) ==> r.header.title@ == m.title@,
        r.header.missions@.len() == panel.tree.groups@.len(),
        r.summary.blocked is Some <==> workers_in(snapshot.workers@, MissionThreadState::Waiting) > 0,
        panel.tree.groups@.len() > 0 ==> r.footer.count@ == decimal(
            (panel.tree.groups@.len() - 1) as nat,
        ),
        panel.tree.groups@.len() == 0 ==> r.footer.count@ == decimal(0),
        shows_the_user(r.workers.human, snapshot.human),
{
    a_state_is_counted_by_its_workers(snapshot.workers@, MissionThreadState::Waiting);
}

} // verus!
