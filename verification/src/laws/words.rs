//! Laws about the words that the surfaces show whatever they show besides, and about pages that
//! are put together from parts.

use vstd::prelude::*;
use crate::mission_changes::MissionChange;
use crate::mission_id::hyphenated_form;
use crate::mission_orchestrator::MissionOrchestratorModal;
use crate::mission_orchestrator::OrchestratorModalView;
use crate::mission_panel::render_changes;
use crate::mission_panel::render_human_row;
use crate::mission_panel::render_summary;
use crate::mission_panel::ChangesView;
use crate::mission_panel::FooterView;
use crate::mission_panel::HeaderView;
use crate::mission_panel::HumanRowView;
use crate::mission_panel::MissionPanel;
use crate::mission_panel::NewTaskView;
use crate::mission_panel::SharedContextSection;
use crate::mission_panel::SummaryView;
use crate::mission_panel::WorkersView;
use crate::mission_snapshot::HumanTeammate;
use crate::mission_snapshot::MissionSnapshot;
use crate::mission_snapshot::WorkerRow;
use crate::mission_views::render_conflict_card;
use crate::mission_views::render_evidence;
use crate::mission_views::render_permission_card;
use crate::mission_views::render_standup;
use crate::mission_views::ConflictCard;
use crate::mission_views::ContextBody;
use crate::mission_views::EvidenceCard;
use crate::mission_views::EvidencePage;
use crate::mission_views::EvidenceView;
use crate::mission_views::MissionQueueView;
use crate::mission_views::MissionStatusIndicator;
use crate::mission_views::PermissionCard;
use crate::mission_views::QueuePage;
use crate::mission_views::SharedContextPage;
use crate::mission_views::SharedContextView;
use crate::mission_views::Standup;
use crate::mission_views::StatusView;
use crate::shared_context::Evidence;
use crate::text::decimal;
use crate::thread::Thread;
use crate::thread::ThreadMetadata;
use crate::thread::WorkerSource;
use crate::time::Timestamp;
use crate::ui::bilingual_label;
use crate::ui::empty_section;
use crate::ui::section_header;
use crate::ui::BilingualLabel;
use crate::ui::Button;
use crate::ui::Color;
use crate::ui::EmptySection;
use crate::ui::Label;
use crate::ui::SectionHeader;
use crate::worker_dashboard::recorded_views;
use crate::worker_dashboard::AgentNames;
use crate::worker_dashboard::ComposerView;
use crate::worker_dashboard::DashboardHeader;
use crate::worker_dashboard::DashboardView;
use crate::worker_dashboard::RecordedLine;
use crate::worker_dashboard::WorkerDashboard;
use crate::worker_dashboard::WorkerSnapshot;

verus! {

/// A label, a button, a name and a header hold what they are made of.
pub proof fn pieces_hold_what_they_are_made_of(
    text: String,
    color: Color,
    label: Label,
    words: &'static str,
    tooltip: Option<&'static str>,
    button: Button,
    english: &'static str,
    chinese: &'static str,
    name: BilingualLabel,
    meta: Option<String>,
    header: SectionHeader,
    message: &'static str,
    empty: EmptySection,
)
    requires
        call_ensures(Label::new, (text, color), label),
        call_ensures(Button::new, (words, tooltip), button),
        call_ensures(bilingual_label, (english, chinese), name),
        call_ensures(section_header, (english, chinese, meta), header),
        call_ensures(empty_section, (english, chinese, message), empty),
    ensures
        label.text@ == text@,
        label.color == color,
        button.text@ == words@,
        button.tooltip is Some <==> tooltip is Some,
        button.tooltip matches Some(a) ==> (tooltip matches Some(b) && a@ == b@),
        name.english@ == english@,
        name.chinese@ == chinese@,
        header.title.english@ == english@,
        header.title.chinese@ == chinese@,
        header.meta is Some <==> meta is Some,
        header.meta matches Some(a) ==> (meta matches Some(b) && a@ == b@),
        empty.header.title.english@ == english@,
        empty.header.title.chinese@ == chinese@,
        empty.header.meta is None,
        empty.message@ == message@,
{
}

/// Whether a button has a text and no tooltip.
pub open spec fn is_plain(button: Button, text: Seq<char>) -> bool {
    button.text@ == text && button.tooltip is None
}

/// Whether a button has a text and a tooltip.
pub open spec fn is_explained(button: Button, text: Seq<char>, tooltip: Seq<char>) -> bool {
    button.text@ == text && (button.tooltip matches Some(t) && t@ == tooltip)
}

/// Whether a name is these words in the two languages.
pub open spec fn is_name(name: BilingualLabel, english: Seq<char>, chinese: Seq<char>) -> bool {
    name.english@ == english && name.chinese@ == chinese
}

/// The words of the head of a worker's page.
pub proof fn the_words_of_a_pages_head(
    page: WorkerDashboard,
    thread: Option<Thread>,
    names: Option<AgentNames>,
    threads: Vec<ThreadMetadata>,
    r: DashboardHeader,
)
    requires
        call_ensures(WorkerDashboard::render_header, (&page, &thread, &names, &threads), r),
    ensures
        is_explained(
            r.open_thread,
            "Open thread"@,
            "Show this worker's thread in the agent panel"@,
        ),
        r.hand_off matches Some(b) ==> is_explained(
            b,
            "Hand off…"@,
            "Pass this worker's current task to another worker"@,
        ),
        r.stop matches Some(b) ==> is_plain(b, "Stop"@),
{
}

/// The words of the field for an instruction.
pub proof fn the_words_of_the_field(
    page: WorkerDashboard,
    loaded: bool,
    queued: usize,
    modifier: bool,
    r: ComposerView,
)
    requires
        call_ensures(WorkerDashboard::render_composer, (&page, loaded, queued, modifier), r),
    ensures
        r.placeholder@ == "Send an instruction to this worker…"@,
        is_plain(r.send, "Send"@),
        r.restore matches Some(b) ==> is_plain(b, "Restore failed instruction"@),
{
}

/// A worker's page is put together from its parts: what it shows of the thread, of the instruction
/// and the response, and of what was recorded, is what each part shows by itself.
pub proof fn a_workers_page_is_put_together_from_its_parts(
    page: WorkerDashboard,
    thread: Thread,
    names: Option<AgentNames>,
    threads: Vec<ThreadMetadata>,
    modifier: bool,
    r: DashboardView,
    s: WorkerSnapshot,
    lines: Vec<RecordedLine>,
    i: int,
)
    requires
        call_ensures(WorkerDashboard::render, (&page, &Some(thread), &names, &threads, modifier), r),
        call_ensures(WorkerDashboard::snapshot, (&page, Some(&thread)), s),
        call_ensures(WorkerDashboard::render_recorded, (&page,), lines),
    ensures
        r.recent_instruction is Some <==> s.recent_instruction is Some,
        r.recent_instruction matches Some(section) ==> (s.recent_instruction matches Some(text)
            && section.text@ == text@ && is_name(section.title, "LATEST INSTRUCTION"@, "最近指令"@)),
        r.recent_response is Some <==> s.recent_response is Some,
        r.recent_response matches Some(section) ==> (s.recent_response matches Some(text)
            && section.text@ == text@ && is_name(section.title, "LATEST RESPONSE"@, "最新回复"@)),
        r.current_tool_call matches Some(shown) ==> (s.current_tool_call matches Some(call)
            && shown.1.label@ == call.label@ && is_name(
            shown.0,
            "CURRENT TOOL CALL"@,
            "当前工具调用"@,
        )),
        r.changes matches Some(shown) ==> is_name(shown.0, "ITS CHANGES"@, "本 Worker 的变更"@) && (0
            <= i < thread.changes@.len() ==> shown.1@[i].name@ == thread.changes@[i].name@
            && shown.1@[i].added.text@ == "+"@ + decimal(thread.changes@[i].lines_added as nat)
            && shown.1@[i].removed.text@ == "-"@ + decimal(thread.changes@[i].lines_removed as nat)),
        r.permission matches Some(view) ==> (s.permission matches Some(p) && view.label@ == p.label@
            && (view.allow is Some <==> p.allow is Some) && (view.reject is Some <==> p.reject is Some)),
        r.queued matches Some(label) ==> label.color is Warning,
        recorded_views(r.recorded@) == recorded_views(lines@),
        is_name(r.recorded_title, "RECORDED TO SHARED CONTEXT"@, "写入共享上下文"@),
        r.summary matches Some(line) ==> (s.permission matches Some(p) ==> line.blocked.text@
            == "blocked: "@ + p.label@),
        r.composer matches Some(c) ==> c.placeholder@ == "Send an instruction to this worker…"@,
{
}

/// A worker's page says how to see a thread that is not loaded.
pub proof fn the_words_for_a_thread_that_is_not_loaded(
    page: WorkerDashboard,
    names: Option<AgentNames>,
    threads: Vec<ThreadMetadata>,
    modifier: bool,
    r: DashboardView,
    lines: Vec<RecordedLine>,
)
    requires
        call_ensures(WorkerDashboard::render, (&page, &None, &names, &threads, modifier), r),
        call_ensures(WorkerDashboard::render_recorded, (&page,), lines),
    ensures
        r.not_loaded matches Some(said) && said.0@ == "This worker's thread isn't loaded"@ && said.1@
            == "Open the thread to see what it is running right now."@,
        r.recent_instruction is None,
        r.recent_response is None,
        r.permission is None,
        r.queued is None,
        r.changes is None,
        r.current_tool_call is None,
        recorded_views(r.recorded@) == recorded_views(lines@),
{
}

/// The words of the dialog.
pub proof fn the_words_of_the_dialog(modal: MissionOrchestratorModal, r: OrchestratorModalView)
    requires
        call_ensures(MissionOrchestratorModal::render, (&modal,), r),
    ensures
        modal.existing_mission is Some ==> r.description@
            == "Choose the Harnesses and roles to add to this Mission."@,
        modal.existing_mission is None ==> r.description@
            == "Choose the Harnesses and roles for this Mission."@,
        r.title_label@ == "Mission title"@,
        r.title_placeholder@ == "Mission title"@,
        r.list_label@ == "Harnesses and roles"@,
{
}

/// Our own agent goes by its name in the dialog.
pub proof fn our_agent_goes_by_its_name(
    external: Vec<crate::mission_orchestrator::ExternalAgent>,
    mission: Option<crate::thread::Mission>,
    r: MissionOrchestratorModal,
)
    requires
        call_ensures(MissionOrchestratorModal::new, (mission, &external), r),
    ensures
        r.agents@.len() == external@.len() + 1,
        r.agents@[0].label@ == "Zed Agent"@,
        r.agents@[0].role_text@ == "Zed Agent"@,
        r.agents@[0].selected,
        r.existing_mission == mission,
        !r.creating,
        r.error is None,
        mission is None <==> !r.title_read_only,
{
}

/// The words of the page of shared context.
pub proof fn the_words_of_the_page_of_shared_context(
    page: SharedContextView,
    snapshot: MissionSnapshot,
    r: SharedContextPage,
)
    requires
        call_ensures(SharedContextView::render, (&page, &snapshot), r),
    ensures
        is_name(r.title, "Shared context"@, "共享上下文"@),
        r.subtitle@ == "· mission "@ + hyphenated_form(page.mission.id.value).take(8)
            + " · written by "@ + decimal(snapshot.workers@.len()) + " workers · read by all"@,
        r.reload is RotateCw,
        r.search_placeholder@ == "Search context"@,
        is_name(r.subscribed, "SUBSCRIBED"@, "订阅者"@),
        match r.body {
            ContextBody::Trail {
                decisions_header,
                artifacts_header,
                evidence_header,
                open_all,
                ..
            } => {
                &&& is_name(decisions_header.title, "DECISIONS"@, "决策"@)
                &&& is_name(artifacts_header.title, "ARTIFACTS"@, "产出物"@)
                &&& is_name(evidence_header.title, "EVIDENCE"@, "验证证据"@)
                &&& open_all@ == "Open all"@
            },
            _ => true,
        },
{
}

/// The words of the page of evidence and of a card that is stale.
pub proof fn the_words_of_the_page_of_evidence(
    page: EvidenceView,
    workers: Vec<WorkerRow>,
    r: EvidencePage,
    e: Evidence,
    newest: Option<Timestamp>,
    card: EvidenceCard,
)
    requires
        call_ensures(EvidenceView::render, (&page, &workers), r),
        call_ensures(render_evidence, (&e, newest, &workers), card),
    ensures
        is_name(r.title, "Evidence"@, "验证证据"@),
        r.subtitle@ == "· every claim links to a command that actually ran"@,
        r.reload is RotateCw,
        card.stale matches Some(note) ==> note.text@ == "stale — ran before the last recorded edit"@
            && (note.rerun matches Some(b) ==> b.tooltip@
            == "Opens the worker's conversation; re-running is its call, not Zed's"@),
{
}

/// The words of the queue.
pub proof fn the_words_of_the_queue(
    queue: MissionQueueView,
    snapshot: MissionSnapshot,
    total_cost: Option<String>,
    r: QueuePage,
    standup: Standup,
)
    requires
        call_ensures(MissionQueueView::render, (&queue, &snapshot, &total_cost), r),
        call_ensures(render_standup, (&snapshot, &total_cost), standup),
    ensures
        r.description@ == "· you · Human teammate · owner & approver"@,
        is_name(r.asked_header.title, "ASKED OF YOU"@, "待你处理"@),
        r.nothing matches Some(text) ==> text@ == "Nothing is waiting on you right now."@,
        is_name(r.comment_header.title, "YOUR COMMENT"@, "留言"@),
        r.comment_header.meta is None,
        r.comment_placeholder@ == "Reply to the mission — goes to every worker"@,
        is_plain(r.send, "Send"@),
        is_name(standup.header.title, "STANDUP"@, "状态汇报"@),
        standup.header.meta is None,
        standup.total_label@ == "Mission total"@,
        r.standup.total@ == standup.total@,
        r.standup.total_label@ == standup.total_label@,
        is_name(r.standup.header.title, "STANDUP"@, "状态汇报"@),
        r.standup.lines@.len() == standup.lines@.len(),
        forall|i: int|
            0 <= i < standup.lines@.len() ==> (#[trigger] standup.lines@[i]).meta@
                == r.standup.lines@[i].meta@ && standup.lines@[i].text.text@
                == r.standup.lines@[i].text.text@,
{
}

/// The words of the cards in the queue.
pub proof fn the_words_of_the_cards(
    worker: WorkerRow,
    card: Option<PermissionCard>,
    change: MissionChange,
    conflict: ConflictCard,
)
    requires
        call_ensures(render_permission_card, (&worker,), card),
        call_ensures(render_conflict_card, (&change,), conflict),
    ensures
        card matches Some(c) ==> is_plain(c.open_session, "Open session"@),
        conflict.text@ == "Both workers edited "@ + change.name@ + "."@,
        is_explained(
            conflict.open_diff,
            "Open diff"@,
            "The Mission's workers share one working tree, so this shows the first author's diff against HEAD"@,
        ),
{
}

/// The queue's cards are those of its workers and files.
pub proof fn a_queue_is_put_together_from_its_cards(
    queue: MissionQueueView,
    snapshot: MissionSnapshot,
    total_cost: Option<String>,
    r: QueuePage,
    i: int,
)
    requires
        call_ensures(MissionQueueView::render, (&queue, &snapshot, &total_cost), r),
    ensures
        ({
            let blocked = snapshot.workers@.filter(
                |w: WorkerRow| crate::laws::views::is_blocked(w),
            );
            let contended = snapshot.changes@.filter(
                |c: MissionChange| crate::laws::views::is_contended(c),
            );
            &&& 0 <= i < blocked.len() ==> (r.permissions@[i] matches Some(card) ==> (
            blocked[i].permission matches Some(p) && card.label@ == p.label@ && card.asked@
                == blocked[i].label@ + " asked"@ && (card.allow is Some <==> p.allow is Some) && (
            card.reject is Some <==> p.reject is Some)))
            &&& 0 <= i < contended.len() ==> r.conflicts@[i].text@ == "Both workers edited "@
                + contended[i].name@ + "."@
        }),
{
    crate::laws::views::blocked_and_contended_are_all_of_those(
        snapshot.workers@,
        snapshot.changes@,
    );
}

/// The words of the status bar.
pub proof fn the_words_of_the_status_bar(
    indicator: MissionStatusIndicator,
    snapshot: MissionSnapshot,
    r: Option<StatusView>,
    blank: MissionStatusIndicator,
)
    requires
        call_ensures(MissionStatusIndicator::render, (&indicator, &snapshot), r),
        call_ensures(MissionStatusIndicator::new, (), blank),
    ensures
        r matches Some(view) ==> view.tooltip@ == "Open this Mission's queue"@,
        blank.mission is None,
{
}

/// Pages open on their mission, with nothing typed and nothing read.
pub proof fn pages_open_on_their_mission(
    mission: crate::thread::Mission,
    shared: SharedContextView,
    evidence: EvidenceView,
    queue: MissionQueueView,
)
    requires
        call_ensures(SharedContextView::new, (mission,), shared),
        call_ensures(EvidenceView::new, (mission,), evidence),
        call_ensures(MissionQueueView::new, (mission,), queue),
    ensures
        shared.mission == mission,
        shared.context_state is Loading,
        shared.filter_text@.len() == 0,
        evidence.mission == mission,
        evidence.context_state is Loading,
        queue.mission == mission,
        queue.comment_text@.len() == 0,
{
}

/// The words of the sidebar.
pub proof fn the_words_of_the_sidebar(
    panel: MissionPanel,
    snapshot: MissionSnapshot,
    sources: Option<&Vec<WorkerSource>>,
    header: HeaderView,
    task: Option<NewTaskView>,
    summary: SummaryView,
    workers: WorkersView,
    changes: Option<ChangesView>,
    section: SharedContextSection,
    footer: FooterView,
    human: HumanTeammate,
    row: HumanRowView,
)
    requires
        call_ensures(MissionPanel::render_header, (&panel, &snapshot, sources), header),
        call_ensures(MissionPanel::render_new_task_popover, (&panel, &snapshot), task),
        call_ensures(render_summary, (&snapshot,), summary),
        call_ensures(MissionPanel::render_workers, (&panel, &snapshot), workers),
        call_ensures(render_changes, (&snapshot,), changes),
        call_ensures(MissionPanel::render_shared_context, (&panel,), section),
        call_ensures(MissionPanel::render_footer, (&panel,), footer),
        call_ensures(render_human_row, (&human,), row),
    ensures
        header.new_mission@ == "New Mission…"@,
        header.switch_tooltip@ == "Switch Mission"@,
        header.thread_list@ == "Show thread list"@,
        header.new_task_tooltip@ == "Delegate a task to a worker"@,
        task matches Some(view) ==> is_name(view.task_header, "NEW TASK"@, "新建任务"@)
            && view.placeholder@ == "Describe the task…"@ && is_name(
            view.assign_header,
            "ASSIGN TO"@,
            "指派给"@,
        ) && view.human_status.text@ == "online"@ && view.human_status.color is Success
            && view.new_worker@ == "New worker…"@,
        summary.teammates@ == "1 teammate"@,
        is_name(workers.header.title, "WORKERS"@, "工作单元"@),
        workers.header.meta matches Some(text) && text@ == "harness · role"@,
        workers.empty matches Some(text) ==> text@ == "No workers yet. Create a Mission to add some."@,
        changes matches Some(view) ==> is_name(view.header.title, "CHANGES"@, "变更"@),
        match section {
            SharedContextSection::Trail { header, decisions_title, evidence_title, .. } => {
                &&& is_name(header.title, "SHARED CONTEXT"@, "共享上下文"@)
                &&& header.meta is None
                &&& decisions_title@ == "Decisions"@
                &&& is_name(evidence_title, "Evidence"@, "验证证据"@)
            },
            SharedContextSection::Message(m) => is_name(
                m.header.title,
                "SHARED CONTEXT"@,
                "共享上下文"@,
            ),
        },
        footer.label@ == "Past missions"@,
        row.you@ == "· you"@,
        row.description@ == "Human · owner & approver"@,
{
}

} // verus!
