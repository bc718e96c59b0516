//! Laws about a worker's page: what it shows of the thread and of what was recorded, what
//! becomes of instructions, and hand-offs.

use vstd::prelude::*;
use crate::laws::lists::filter_from_the_end;
use crate::laws::lists::what_a_filter_keeps;
use crate::laws::texts::blank;
use crate::laws::texts::is_bare;
use crate::laws::texts::trimming_cuts_the_white_space_at_the_ends;
use crate::laws::threads::a_thread_executes_its_last_running_call;
use crate::laws::threads::runs_at;
use crate::laws::threads::the_last_user_message_is_the_last;
use crate::mission_id::hyphenated_form;
use crate::mission_id::MissionId;
use crate::mission_orchestrator::thread_mission_state;
use crate::mission_orchestrator::Agent;
use crate::mission_orchestrator::MissionThreadState;
use crate::shared_context::Decision;
use crate::shared_context::Evidence;
use crate::shared_context::MissionContext;
use crate::text::has_prefix;
use crate::text::joined;
use crate::text::views;
use crate::thread::last_assistant_summary;
use crate::thread::last_user;
use crate::thread::running_call;
use crate::thread::worker_label;
use crate::thread::ChangedFile;
use crate::thread::MessageChunk;
use crate::thread::PendingPermission;
use crate::thread::PermissionOption;
use crate::thread::Thread;
use crate::thread::ThreadEntry;
use crate::thread::ThreadId;
use crate::thread::ThreadMetadata;
use crate::thread::ThreadStatus;
use crate::token_count::format_token_count;
use crate::ui::Color;
use crate::ui::IconName;
use crate::ui::Label;
use crate::worker_dashboard::answer_button;
use crate::worker_dashboard::authorize_worker;
use crate::worker_dashboard::decisions_by;
use crate::worker_dashboard::evidence_by;
use crate::worker_dashboard::harness_icon;
use crate::worker_dashboard::last_response;
use crate::worker_dashboard::message_text;
use crate::worker_dashboard::page_position;
use crate::worker_dashboard::recorded_views;
use crate::worker_dashboard::render_changes;
use crate::worker_dashboard::render_current_tool_call;
use crate::worker_dashboard::render_permission_request;
use crate::worker_dashboard::spoken;
use crate::worker_dashboard::worker_status;
use crate::worker_dashboard::AgentNames;
use crate::worker_dashboard::AnswerButton;
use crate::worker_dashboard::Authorization;
use crate::worker_dashboard::ComposerView;
use crate::worker_dashboard::CurrentToolCall;
use crate::worker_dashboard::DashboardHeader;
use crate::worker_dashboard::DashboardSummary;
use crate::worker_dashboard::DashboardView;
use crate::worker_dashboard::Deployment;
use crate::worker_dashboard::FileLine;
use crate::worker_dashboard::HandOff;
use crate::worker_dashboard::HarnessIcon;
use crate::worker_dashboard::PermissionView;
use crate::worker_dashboard::RecordedLine;
use crate::worker_dashboard::RecordedView;
use crate::worker_dashboard::Submission;
use crate::worker_dashboard::ToolCallView;
use crate::worker_dashboard::WorkerContextState;
use crate::worker_dashboard::WorkerDashboard;
use crate::worker_dashboard::WorkerSnapshot;

verus! {

/// Whether a row is of a role.
pub open spec fn is_of_role(role: Option<String>, wanted: Seq<char>) -> bool {
    match role {
        Some(text) => text@ == wanted,
        None => false,
    }
}

/// Whether a line shows a piece of evidence: its command, with a check in the colour of success
/// where it exited with 0, and a cross in the colour of errors where it exited with anything
/// else or with no code at all.
pub open spec fn shows_evidence(line: RecordedLine, e: Evidence) -> bool {
    match line {
        RecordedLine::Evidence { icon, color, command } => {
            &&& command@ == e.command@
            &&& e.exit_code == Some(0i32) ==> icon is Check && color is Success
            &&& e.exit_code != Some(0i32) ==> icon is XCircle && color is Error
        },
        _ => false,
    }
}

/// Whether a line shows a decision: its key and its value.
pub open spec fn shows_decision(line: RecordedLine, d: Decision) -> bool {
    match line {
        RecordedLine::Decision { key, value } => key@ == d.key@ && value@ == d.value@,
        _ => false,
    }
}

proof fn decisions_are_listed(decisions: Seq<Decision>, role: Seq<char>)
    ensures
        decisions_by(decisions, role).len() == decisions.filter(
            |d: Decision| is_of_role(d.role, role),
        ).len(),
        forall|k: int|
            0 <= k < decisions_by(decisions, role).len() ==> {
                let d = decisions.filter(|d: Decision| is_of_role(d.role, role))[k];
                #[trigger] decisions_by(decisions, role)[k] == (RecordedView::Decision {
                    key: d.key@,
                    value: d.value@,
                })
            },
    decreases decisions.len(),
{
    let of_role = |d: Decision| is_of_role(d.role, role);
    filter_from_the_end(decisions, of_role);
    if decisions.len() > 0 {
        decisions_are_listed(decisions.drop_last(), role);
    }
}

proof fn evidence_is_listed(evidence: Seq<Evidence>, role: Seq<char>)
    ensures
        evidence_by(evidence, role).len() == evidence.filter(
            |e: Evidence| is_of_role(e.role, role),
        ).len(),
        forall|k: int|
            0 <= k < evidence_by(evidence, role).len() ==> {
                let e = evidence.filter(|e: Evidence| is_of_role(e.role, role))[k];
                match #[trigger] evidence_by(evidence, role)[k] {
                    RecordedView::Evidence { icon, color, command } => {
                        &&& command == e.command@
                        &&& e.exit_code == Some(0i32) ==> icon is Check && color is Success
                        &&& e.exit_code != Some(0i32) ==> icon is XCircle && color is Error
                    },
                    _ => false,
                }
            },
    decreases evidence.len(),
{
    let of_role = |e: Evidence| is_of_role(e.role, role);
    filter_from_the_end(evidence, of_role);
    if evidence.len() > 0 {
        evidence_is_listed(evidence.drop_last(), role);
    }
}

/// A page shows the decisions of its worker's role and then the evidence of that role, each
/// once, in the order of the loaded context, and nothing else.
pub proof fn a_page_lists_what_its_role_recorded(
    page: WorkerDashboard,
    context: MissionContext,
    lines: Vec<RecordedLine>,
)
    requires
        call_ensures(WorkerDashboard::render_recorded, (&page,), lines),
        page.context_state == WorkerContextState::Loaded(context),
    ensures
        ({
            let decisions = context.decisions@.filter(|d: Decision| is_of_role(d.role, page.role@));
            let evidence = context.evidence@.filter(|e: Evidence| is_of_role(e.role, page.role@));
            &&& decisions.len() + evidence.len() > 0 ==> {
                &&& lines@.len() == decisions.len() + evidence.len()
                &&& forall|k: int|
                    0 <= k < decisions.len() ==> shows_decision(#[trigger] lines@[k], decisions[k])
                &&& forall|k: int|
                    decisions.len() <= k < lines@.len() ==> shows_evidence(
                        #[trigger] lines@[k],
                        evidence[k - decisions.len()],
                    )
            }
            &&& decisions.len() + evidence.len() == 0 ==> lines@.len() == 1 && lines@[0]
                is Message
        }),
{
    let role = page.role@;
    decisions_are_listed(context.decisions@, role);
    evidence_is_listed(context.evidence@, role);
    let shown = recorded_views(lines@);
    assert(shown.len() == lines@.len());
    assert forall|k: int| 0 <= k < lines@.len() implies #[trigger] shown[k] == lines@[k]@ by {}
    let d = decisions_by(context.decisions@, role);
    let e = evidence_by(context.evidence@, role);
    if d.len() + e.len() > 0 {
        assert(shown == d + e);
        assert forall|k: int| 0 <= k < d.len() implies shows_decision(
            #[trigger] lines@[k],
            context.decisions@.filter(|d: Decision| is_of_role(d.role, page.role@))[k],
        ) by {
            assert(shown[k] == d[k]);
            assert(d[k] == decisions_by(context.decisions@, role)[k]);
        }
        assert forall|k: int| d.len() <= k < lines@.len() implies shows_evidence(
            #[trigger] lines@[k],
            context.evidence@.filter(|e: Evidence| is_of_role(e.role, page.role@))[k - d.len()],
        ) by {
            assert(shown[k] == e[k - d.len()]);
            assert(e[k - d.len()] == evidence_by(context.evidence@, role)[k - d.len()]);
        }
    } else {
        assert(shown[0] == lines@[0]@);
    }
}

/// Every piece of evidence of the worker's role is on its page, with a check where it exited
/// with 0 and a cross otherwise; and every line of evidence on the page shows such a piece.
pub proof fn a_workers_evidence_is_on_its_page(
    page: WorkerDashboard,
    context: MissionContext,
    lines: Vec<RecordedLine>,
)
    requires
        call_ensures(WorkerDashboard::render_recorded, (&page,), lines),
        page.context_state == WorkerContextState::Loaded(context),
    ensures
        forall|i: int|
            0 <= i < context.evidence@.len() && is_of_role(
                (#[trigger] context.evidence@[i]).role,
                page.role@,
            ) ==> exists|k: int|
                0 <= k < lines@.len() && shows_evidence(#[trigger] lines@[k], context.evidence@[i]),
        forall|k: int|
            0 <= k < lines@.len() && (#[trigger] lines@[k] is Evidence) ==> exists|i: int|
                0 <= i < context.evidence@.len() && is_of_role(
                    (#[trigger] context.evidence@[i]).role,
                    page.role@,
                ) && shows_evidence(lines@[k], context.evidence@[i]),
{
    a_page_lists_what_its_role_recorded(page, context, lines);
    let of_role = |e: Evidence| is_of_role(e.role, page.role@);
    let decisions = context.decisions@.filter(|d: Decision| is_of_role(d.role, page.role@));
    let evidence = context.evidence@.filter(of_role);
    what_a_filter_keeps(context.evidence@, of_role);
    assert forall|i: int|
        0 <= i < context.evidence@.len() && is_of_role(
            (#[trigger] context.evidence@[i]).role,
            page.role@,
        ) implies exists|k: int|
        0 <= k < lines@.len() && shows_evidence(#[trigger] lines@[k], context.evidence@[i]) by {
        assert(of_role(context.evidence@[i]));
        assert(evidence.contains(context.evidence@[i]));
        let j = choose|j: int| 0 <= j < evidence.len() && evidence[j] == context.evidence@[i];
        assert(shows_evidence(lines@[decisions.len() + j], evidence[j]));
    }
    assert forall|k: int| 0 <= k < lines@.len() && (#[trigger] lines@[k] is Evidence) implies exists|
        i: int,
    |
        0 <= i < context.evidence@.len() && is_of_role((#[trigger] context.evidence@[i]).role, page.role@)
            && shows_evidence(lines@[k], context.evidence@[i]) by {
        assert(decisions.len() + evidence.len() > 0);
        if k < decisions.len() {
            assert(shows_decision(lines@[k], decisions[k]));
        }
        let e = evidence[k - decisions.len()];
        assert(evidence.contains(e));
        let i = choose|i: int| 0 <= i < context.evidence@.len() && context.evidence@[i] == e;
        assert(of_role(context.evidence@[i]));
    }
}

/// Every decision of the worker's role is on its page, and every decision on the page is one of
/// that role.
pub proof fn a_page_shows_the_decisions_of_its_role(
    page: WorkerDashboard,
    context: MissionContext,
    lines: Vec<RecordedLine>,
)
    requires
        call_ensures(WorkerDashboard::render_recorded, (&page,), lines),
        page.context_state == WorkerContextState::Loaded(context),
    ensures
        forall|i: int|
            0 <= i < context.decisions@.len() && is_of_role(
                (#[trigger] context.decisions@[i]).role,
                page.role@,
            ) ==> exists|k: int|
                0 <= k < lines@.len() && shows_decision(#[trigger] lines@[k], context.decisions@[i]),
        forall|k: int|
            0 <= k < lines@.len() && (#[trigger] lines@[k] is Decision) ==> exists|i: int|
                0 <= i < context.decisions@.len() && is_of_role(
                    (#[trigger] context.decisions@[i]).role,
                    page.role@,
                ) && shows_decision(lines@[k], context.decisions@[i]),
{
    a_page_lists_what_its_role_recorded(page, context, lines);
    let of_role = |d: Decision| is_of_role(d.role, page.role@);
    let decisions = context.decisions@.filter(of_role);
    let evidence = context.evidence@.filter(|e: Evidence| is_of_role(e.role, page.role@));
    what_a_filter_keeps(context.decisions@, of_role);
    assert forall|i: int|
        0 <= i < context.decisions@.len() && is_of_role(
            (#[trigger] context.decisions@[i]).role,
            page.role@,
        ) implies exists|k: int|
        0 <= k < lines@.len() && shows_decision(#[trigger] lines@[k], context.decisions@[i]) by {
        assert(of_role(context.decisions@[i]));
        assert(decisions.contains(context.decisions@[i]));
        let j = choose|j: int| 0 <= j < decisions.len() && decisions[j] == context.decisions@[i];
        assert(shows_decision(lines@[j], decisions[j]));
    }
    assert forall|k: int| 0 <= k < lines@.len() && (#[trigger] lines@[k] is Decision) implies exists|
        i: int,
    |
        0 <= i < context.decisions@.len() && is_of_role(
            (#[trigger] context.decisions@[i]).role,
            page.role@,
        ) && shows_decision(lines@[k], context.decisions@[i]) by {
        assert(decisions.len() + evidence.len() > 0);
        if k >= decisions.len() {
            assert(shows_evidence(lines@[k], evidence[k - decisions.len()]));
        }
        let d = decisions[k];
        assert(decisions.contains(d));
        let i = choose|i: int| 0 <= i < context.decisions@.len() && context.decisions@[i] == d;
        assert(of_role(context.decisions@[i]));
    }
}

/// A page that has nothing of its worker to show says why: the context loads, is not available,
/// or holds nothing of the role.
pub proof fn a_page_says_why_it_shows_nothing(page: WorkerDashboard, lines: Vec<RecordedLine>)
    requires
        call_ensures(WorkerDashboard::render_recorded, (&page,), lines),
    ensures
        page.context_state is Loading ==> lines@.len() == 1 && (lines@[0] matches
            RecordedLine::Message(text) && text@ == "Loading…"@),
        page.context_state is Unavailable ==> lines@.len() == 1 && (lines@[0] matches
            RecordedLine::Message(text) && text@ == "Shared Context unavailable"@),
        page.context_state matches WorkerContextState::Loaded(context) ==> (lines@.len() == 1 && (
        lines@[0] matches RecordedLine::Message(text) && text@ == "Nothing recorded yet"@) <==> (
        forall|i: int|
            0 <= i < context.decisions@.len() ==> !is_of_role(
                (#[trigger] context.decisions@[i]).role,
                page.role@,
            )) && (forall|i: int|
            0 <= i < context.evidence@.len() ==> !is_of_role(
                (#[trigger] context.evidence@[i]).role,
                page.role@,
            ))),
{
    let shown = recorded_views(lines@);
    assert(shown.len() == lines@.len());
    if lines@.len() > 0 {
        assert(shown[0] == lines@[0]@);
    }
    match page.context_state {
        WorkerContextState::Loaded(context) => {
            a_page_lists_what_its_role_recorded(page, context, lines);
            let d = |d: Decision| is_of_role(d.role, page.role@);
            let e = |e: Evidence| is_of_role(e.role, page.role@);
            what_a_filter_keeps(context.decisions@, d);
            what_a_filter_keeps(context.evidence@, e);
            decisions_are_listed(context.decisions@, page.role@);
            evidence_is_listed(context.evidence@, page.role@);
            assert forall|i: int| 0 <= i < context.decisions@.len() implies d(
                #[trigger] context.decisions@[i],
            ) == is_of_role(context.decisions@[i].role, page.role@) by {}
            assert forall|i: int| 0 <= i < context.evidence@.len() implies e(
                #[trigger] context.evidence@[i],
            ) == is_of_role(context.evidence@[i].role, page.role@) by {}
            let n = context.decisions@.filter(d).len();
            if n + context.evidence@.filter(e).len() > 0 {
                if n > 0 {
                    assert(shows_decision(lines@[0], context.decisions@.filter(d)[0]));
                } else {
                    assert(shows_evidence(lines@[0], context.evidence@.filter(e)[0]));
                }
            }
        },
        _ => {},
    }
}

/// Each state has its word and its colour: only failure is in the colour of errors, only waiting
/// in that of warnings, only work in that of success.
pub proof fn each_state_has_its_word_and_colour(state: MissionThreadState, r: (&'static str, Color))
    requires
        call_ensures(worker_status, (state,), r),
    ensures
        r.1 is Error <==> state is Failed,
        r.1 is Warning <==> state is Waiting,
        r.1 is Success <==> state is Running,
        r.1 is Muted <==> state is Created || state is Completed,
        state is Created ==> r.0@ == "Not started"@,
        state is Running ==> r.0@ == "Working"@,
        state is Waiting ==> r.0@ == "Waiting for you"@,
        state is Completed ==> r.0@ == "Idle"@,
        state is Failed ==> r.0@ == "Failed"@,
{
}

/// An agent with a picture of its own is shown by it; without one, our own agent and the others
/// have a built-in picture each.
pub proof fn an_agents_own_picture_comes_first(agent: Agent, svg: Option<String>, r: HarnessIcon)
    requires
        call_ensures(harness_icon, (&agent, &svg), r),
    ensures
        svg matches Some(own) ==> (r matches HarnessIcon::External(shown) && shown@ == own@),
        svg is None && agent is NativeAgent ==> r == HarnessIcon::BuiltIn(IconName::ZedAgent),
        svg is None && agent is Custom ==> r == HarnessIcon::BuiltIn(IconName::Terminal),
{
}

/// A page that is open for a worker is shown again, the first one where there are several; where
/// none is open, one is opened.
pub proof fn an_open_page_is_shown_again(pages: Vec<ThreadId>, thread_id: ThreadId, r: Deployment)
    requires
        call_ensures(WorkerDashboard::deploy, (&pages, thread_id), r),
    ensures
        r matches Deployment::Activate(i) ==> (i as int) < pages@.len() && pages@[i as int]
            == thread_id && forall|j: int| 0 <= j < i ==> #[trigger] pages@[j] != thread_id,
        r is Open ==> !pages@.contains(thread_id),
{
    a_page_stands_first(pages@, thread_id);
    if pages@.contains(thread_id) {
        let k = choose|k: int| 0 <= k < pages@.len() && pages@[k] == thread_id;
        assert(pages@[k] == thread_id);
    }
}

proof fn a_page_stands_first(pages: Seq<ThreadId>, thread_id: ThreadId)
    ensures
        0 <= page_position(pages, thread_id) <= pages.len(),
        page_position(pages, thread_id) < pages.len() ==> pages[page_position(pages, thread_id)]
            == thread_id,
        forall|j: int| 0 <= j < page_position(pages, thread_id) ==> #[trigger] pages[j] != thread_id,
    decreases pages.len(),
{
    if pages.len() > 0 && pages[0] != thread_id {
        let rest = pages.subrange(1, pages.len() as int);
        a_page_stands_first(rest, thread_id);
        assert forall|j: int| 0 <= j < page_position(pages, thread_id) implies #[trigger] pages[j]
            != thread_id by {
            if j > 0 {
                assert(rest[j - 1] == pages[j]);
            }
        }
    }
}

/// A new page is that of its thread and mission, under the name of the worker, with nothing
/// typed, sent or said, and its context still loading.
pub proof fn a_new_page_is_empty(
    mission_id: MissionId,
    title: String,
    metadata: ThreadMetadata,
    r: WorkerDashboard,
    label: String,
)
    requires
        call_ensures(WorkerDashboard::new, (mission_id, title, &metadata), r),
        call_ensures(worker_label, (&metadata,), label),
    ensures
        r.mission_id == mission_id,
        r.mission_title@ == title@,
        r.thread_id == metadata.thread_id,
        r.role@ == label@,
        r.instruction_text@.len() == 0,
        r.context_state is Loading,
        r.feedback is None,
        r.latest_submitted_instruction is None,
        r.failed_instructions@.len() == 0,
        r.observed_thread is None,
        r.observed_thread_view is None,
{
}

/// The peers of a worker are the other threads of its mission, all of them, in their order.
pub proof fn peers_are_the_other_workers_of_the_mission(
    page: WorkerDashboard,
    threads: Vec<ThreadMetadata>,
    r: Vec<ThreadMetadata>,
)
    requires
        call_ensures(WorkerDashboard::peer_workers, (&page, &threads), r),
    ensures
        r@ == threads@.filter(
            |t: ThreadMetadata| t.mission_id == Some(page.mission_id) && t.thread_id != page.thread_id,
        ),
{
    peers_are_filtered(page, threads@);
}

proof fn peers_are_filtered(page: WorkerDashboard, threads: Seq<ThreadMetadata>)
    ensures
        page.peers(threads) == threads.filter(
            |t: ThreadMetadata| t.mission_id == Some(page.mission_id) && t.thread_id != page.thread_id,
        ),
    decreases threads.len(),
{
    filter_from_the_end(
        threads,
        |t: ThreadMetadata| t.mission_id == Some(page.mission_id) && t.thread_id != page.thread_id,
    );
    if threads.len() > 0 {
        peers_are_filtered(page, threads.drop_last());
    }
}

/// An instruction is sent where it is not blank and the thread is shown: at once to a thread at
/// rest, queued for one that works. It goes without the white space around it, the field is
/// cleared, it is remembered as the last one submitted, and nothing else of the page changes but
/// its count and its feedback. Otherwise nothing is sent and nothing changes.
pub proof fn an_instruction_is_sent_where_it_says_something(
    page: &mut WorkerDashboard,
    view: Option<ThreadStatus>,
    r: Option<Submission>,
)
    requires
        call_ensures(WorkerDashboard::send_instruction, (page, view), r),
    ensures
        r is Some <==> view is Some && !blank(old(page).instruction_text@),
        r is None ==> *final(page) == *old(page),
        r matches Some(s) ==> {
            &&& s.instruction@.len() > 0
            &&& is_bare(old(page).instruction_text@, s.instruction@)
            &&& s.delivery is Send <==> view == Some(ThreadStatus::Idle)
            &&& s.submission_id == final(page).submission_id
            &&& final(page).submission_id != old(page).submission_id
            &&& final(page).instruction_text@.len() == 0
            &&& final(page).latest_submitted_instruction matches Some(text) && text@ == s.instruction@
            &&& final(page).failed_instructions@ == old(page).failed_instructions@
            &&& final(page).role == old(page).role
            &&& final(page).mission_id == old(page).mission_id
            &&& final(page).thread_id == old(page).thread_id
            &&& final(page).context_state == old(page).context_state
            &&& s.delivery is Queue ==> (final(page).feedback matches Some(text) && text@
                == "Queued — will send when the current turn finishes"@)
            &&& s.delivery is Send ==> (final(page).feedback matches Some(text) && text@
                == "Submitted — waiting for response"@)
        },
{
    trimming_cuts_the_white_space_at_the_ends(old(page).instruction_text@);
}

/// An instruction that failed is kept behind those that failed before, and said where it is still
/// the last one sent; one that went through is not kept, and the feedback on it ends where it
/// was sent at once and is still the last. Nothing else changes.
pub proof fn a_failed_instruction_is_kept(
    page: &mut WorkerDashboard,
    submission: Submission,
    result: Result<(), String>,
)
    requires
        call_ensures(WorkerDashboard::submission_finished, (page, &submission, result), ()),
    ensures
        result is Ok ==> final(page).failed_instructions@ == old(page).failed_instructions@,
        result is Ok && submission.delivery is Send && old(page).submission_id
            == submission.submission_id ==> final(page).feedback is None,
        result is Ok && (submission.delivery is Queue || old(page).submission_id
            != submission.submission_id) ==> final(page).feedback == old(page).feedback,
        result is Err ==> final(page).failed_instructions@.len() == old(page).failed_instructions@.len() + 1 && final(page).failed_instructions@.drop_last() == old(page).failed_instructions@ && final(page).failed_instructions@.last()@
            == submission.instruction@,
        result matches Err(e) ==> if old(page).submission_id == submission.submission_id {
            final(page).feedback matches Some(text) && text@ == "Send failed: "@ + e@
        } else {
            final(page).feedback == old(page).feedback
        },
        final(page).instruction_text == old(page).instruction_text,
        final(page).latest_submitted_instruction == old(page).latest_submitted_instruction,
        final(page).submission_id == old(page).submission_id,
        final(page).context_state == old(page).context_state,
{
    assert(old(page).failed_instructions@.push(submission.instruction).drop_last()
        =~= old(page).failed_instructions@);
}

/// The oldest instruction that failed comes back into a field that is blank; a field that is not,
/// is never overwritten, and no instruction is lost.
pub proof fn the_oldest_failed_instruction_comes_back(page: &mut WorkerDashboard)
    requires
        call_ensures(WorkerDashboard::restore_failed_instruction, (page,), ()),
    ensures
        !blank(old(page).instruction_text@) ==> *final(page) == *old(page),
        old(page).failed_instructions@.len() == 0 ==> *final(page) == *old(page),
        blank(old(page).instruction_text@) && old(page).failed_instructions@.len() > 0 ==> seq![
            final(page).instruction_text,
        ] + final(page).failed_instructions@ == old(page).failed_instructions@,
        final(page).latest_submitted_instruction == old(page).latest_submitted_instruction,
        final(page).feedback == old(page).feedback,
        final(page).submission_id == old(page).submission_id,
{
    trimming_cuts_the_white_space_at_the_ends(old(page).instruction_text@);
    if blank(old(page).instruction_text@) && old(page).failed_instructions@.len() > 0 {
        assert(seq![final(page).instruction_text] + final(page).failed_instructions@ =~= old(page).failed_instructions@);
    }
}

/// An instruction that the thread shows as its last user message is no longer shown as submitted;
/// until then it is. Nothing else changes.
pub proof fn a_submitted_instruction_is_shown_until_the_thread_shows_it(
    page: &mut WorkerDashboard,
    thread: Thread,
    i: int,
    text: String,
    submitted: String,
)
    requires
        call_ensures(
            WorkerDashboard::clear_submitted_instruction_if_reflected,
            (page, Some(&thread)),
            (),
        ),
        0 <= i < thread.entries@.len(),
        thread.entries@[i] == ThreadEntry::UserMessage(text),
        forall|j: int| i < j < thread.entries@.len() ==> !(#[trigger] thread.entries@[j] is UserMessage),
        old(page).latest_submitted_instruction == Some(submitted),
    ensures
        text@ == submitted@ ==> final(page).latest_submitted_instruction is None,
        text@ != submitted@ ==> final(page).latest_submitted_instruction == Some(submitted),
        final(page).feedback == old(page).feedback,
        final(page).instruction_text == old(page).instruction_text,
        final(page).failed_instructions == old(page).failed_instructions,
{
    last_user_is(thread.entries@, i);
}

proof fn last_user_is(entries: Seq<ThreadEntry>, i: int)
    requires
        0 <= i < entries.len(),
        entries[i] is UserMessage,
        forall|j: int| i < j < entries.len() ==> !(#[trigger] entries[j] is UserMessage),
    ensures
        last_user(entries) == i,
{
    the_last_user_message_is_the_last(entries);
    let k = last_user(entries);
    if k < i {
        assert(!(entries[i] is UserMessage));
    }
    if i < k {
        assert(!(entries[k] is UserMessage));
    }
}

/// A page takes up a thread and its view, and says whether either is new to it.
pub proof fn a_page_takes_up_what_is_new(
    page: &mut WorkerDashboard,
    thread: Option<u64>,
    view: Option<u64>,
    r: bool,
)
    requires
        call_ensures(WorkerDashboard::observe_thread_of, (page, thread, view), r),
    ensures
        final(page).observed_thread == thread,
        final(page).observed_thread_view == view,
        !r <==> thread == old(page).observed_thread && view == old(page).observed_thread_view,
        final(page).instruction_text == old(page).instruction_text,
        final(page).context_state == old(page).context_state,
{
}

/// A page asks for the context of its own mission; without a store, and where the reading fails,
/// the context is not available, and where it succeeds the page has it.
pub proof fn a_page_has_the_context_that_was_read(
    asking: &mut WorkerDashboard,
    available: bool,
    asked: Option<String>,
    told: &mut WorkerDashboard,
    result: Option<Result<MissionContext, String>>,
)
    requires
        call_ensures(WorkerDashboard::refresh_context, (asking, available), asked),
        call_ensures(WorkerDashboard::context_loaded, (told, result), ()),
    ensures
        asked is Some <==> available,
        asked matches Some(id) ==> id@ == hyphenated_form(old(asking).mission_id.value) && *final(asking) == *old(asking),
        !available ==> final(asking).context_state is Unavailable,
        result matches Some(Ok(context)) ==> final(told).context_state
            == WorkerContextState::Loaded(context),
        !(result matches Some(Ok(context))) ==> final(told).context_state is Unavailable,
        final(asking).role == old(asking).role,
        final(told).role == old(told).role,
        final(told).instruction_text == old(told).instruction_text,
        final(told).feedback == old(told).feedback,
{
}

/// A hand-off to a worker whose thread is not loaded sends nothing. One to a loaded worker says
/// who hands off, and the typed note, or else where the worker left off; it goes at once to a
/// thread at rest and is queued for one that works.
pub proof fn a_hand_off_says_who_and_what(
    page: WorkerDashboard,
    thread: Thread,
    target: Option<ThreadStatus>,
    r: HandOff,
    summary: Option<String>,
)
    requires
        call_ensures(WorkerDashboard::hand_off, (&page, Some(&thread), target), r),
        call_ensures(last_assistant_summary, (&thread,), summary),
    ensures
        r is Open <==> target is None,
        r matches HandOff::Send { message, delivery, note } ==> {
            &&& has_prefix(message@, "Handing off from "@ + page.role@)
            &&& is_bare(page.instruction_text@, note@)
            &&& delivery is Send <==> target == Some(ThreadStatus::Idle)
            &&& !blank(page.instruction_text@) ==> message@ == "Handing off from "@ + page.role@
                + ": "@ + note@
            &&& blank(page.instruction_text@) ==> match summary {
                Some(line) => message@ == "Handing off from "@ + page.role@
                    + ". Where it left off: "@ + line@,
                None => message@ == "Handing off from "@ + page.role@ + ". Please pick this up."@,
            }
        },
{
    trimming_cuts_the_white_space_at_the_ends(page.instruction_text@);
    match r {
        HandOff::Send { message, delivery, note } => {
            let head = "Handing off from "@ + page.role@;
            assert(message@.subrange(0, head.len() as int) =~= head);
        },
        HandOff::Open => {},
    }
}

/// A hand-off that was sent clears the field where it still holds the note, and nothing else; one
/// that was not sent changes nothing.
pub proof fn a_hand_off_clears_its_own_note(page: &mut WorkerDashboard, note: &str, sent: bool)
    requires
        call_ensures(WorkerDashboard::hand_off_finished, (page, note, sent), ()),
    ensures
        !sent ==> *final(page) == *old(page),
        sent && is_bare(old(page).instruction_text@, note@) ==> final(page).instruction_text@.len()
            == 0,
        sent && !is_bare(old(page).instruction_text@, note@) ==> *final(page) == *old(page),
        final(page).failed_instructions == old(page).failed_instructions,
        final(page).context_state == old(page).context_state,
        final(page).role == old(page).role,
        final(page).submission_id == old(page).submission_id,
        final(page).latest_submitted_instruction == old(page).latest_submitted_instruction,
        final(page).feedback == old(page).feedback,
{
    trimming_cuts_the_white_space_at_the_ends(old(page).instruction_text@);
    if is_bare(old(page).instruction_text@, note@) {
        crate::laws::texts::there_is_one_way_to_trim(old(page).instruction_text@, note@);
    }
}

/// A worker is idle exactly where its thread is loaded, does not generate, asks for nothing and
/// executes nothing, whatever it changed or has queued.
pub proof fn idle_is_loaded_and_at_rest(s: WorkerSnapshot, r: bool)
    requires
        call_ensures(WorkerSnapshot::is_idle, (&s,), r),
    ensures
        r <==> s.thread_loaded && !s.generating && s.permission is None && s.current_tool_call
            is None,
{
}

/// What a message says is its pieces that are meant for the reader, in their order, and none of
/// its thoughts.
pub proof fn thoughts_are_not_spoken(chunks: Seq<MessageChunk>)
    ensures
        spoken(chunks).len() == chunks.filter(|c: MessageChunk| c is Message).len(),
        forall|k: int|
            0 <= k < spoken(chunks).len() ==> (chunks.filter(|c: MessageChunk| c is Message)[k]
                matches MessageChunk::Message(text) && text@ == #[trigger] spoken(chunks)[k]),
    decreases chunks.len(),
{
    filter_from_the_end(chunks, |c: MessageChunk| c is Message);
    if chunks.len() > 0 {
        thoughts_are_not_spoken(chunks.drop_last());
    }
}

/// Whether an entry is a message of the assistant that says something to the reader.
pub open spec fn speaks(entry: ThreadEntry) -> bool {
    entry matches ThreadEntry::AssistantMessage(message) && !blank(message_text(message.chunks@))
}

proof fn the_last_response_is_the_last(entries: Seq<ThreadEntry>, from: int)
    requires
        0 <= from,
    ensures
        match last_response(entries, from) {
            Some(text) => exists|i: int|
                from <= i < entries.len() && #[trigger] speaks(entries[i]) && (entries[i] matches
                    ThreadEntry::AssistantMessage(m) && text == message_text(m.chunks@)) && forall|
                    j: int,
                |
                    i < j < entries.len() ==> !#[trigger] speaks(entries[j]),
            None => forall|i: int| from <= i < entries.len() ==> !#[trigger] speaks(entries[i]),
        },
    decreases entries.len(),
{
    if entries.len() > from {
        let rest = entries.drop_last();
        let n = rest.len() as int;
        the_last_response_is_the_last(rest, from);
        assert(forall|j: int| 0 <= j < n ==> #[trigger] rest[j] == entries[j]);
        assert(entries[n] == entries.last());
        match entries.last() {
            ThreadEntry::AssistantMessage(message) => {
                trimming_cuts_the_white_space_at_the_ends(message_text(message.chunks@));
            },
            _ => {},
        }
        if speaks(entries[n]) {
        } else {
            match last_response(rest, from) {
                Some(text) => {
                    let i = choose|i: int|
                        from <= i < rest.len() && #[trigger] speaks(rest[i]) && (rest[i] matches
                            ThreadEntry::AssistantMessage(m) && text == message_text(m.chunks@))
                            && forall|j: int| i < j < rest.len() ==> !#[trigger] speaks(rest[j]);
                    assert(speaks(entries[i]));
                    assert forall|j: int| i < j < entries.len() implies !#[trigger] speaks(entries[j]) by {
                        if j < n {
                            assert(!speaks(rest[j]));
                        }
                    }
                },
                None => {
                    assert forall|j: int| from <= j < entries.len() implies !#[trigger] speaks(
                        entries[j],
                    ) by {
                        if j < n {
                            assert(!speaks(rest[j]));
                        }
                    }
                },
            }
        }
    }
}

/// A page shows the instruction that was just submitted, or else the last one that the thread
/// shows; and as the response the last message of the assistant to that instruction that says
/// something. While the thread does not show a submitted instruction there is no response to it,
/// and what was said before the user's last message is not shown as one.
pub proof fn a_response_is_one_to_the_last_instruction(
    page: WorkerDashboard,
    thread: Thread,
    i: int,
    text: String,
    s: WorkerSnapshot,
)
    requires
        call_ensures(WorkerDashboard::snapshot, (&page, Some(&thread)), s),
        0 <= i < thread.entries@.len(),
        thread.entries@[i] == ThreadEntry::UserMessage(text),
        forall|j: int| i < j < thread.entries@.len() ==> !(#[trigger] thread.entries@[j] is UserMessage),
    ensures
        page.latest_submitted_instruction matches Some(submitted) ==> (s.recent_instruction matches
            Some(shown) && shown@ == submitted@),
        page.latest_submitted_instruction is None ==> (s.recent_instruction matches Some(shown)
            && shown@ == text@),
        page.latest_submitted_instruction matches Some(submitted) ==> (submitted@ != text@
            ==> s.recent_response is None),
        page.latest_submitted_instruction is None || (page.latest_submitted_instruction matches Some(
            submitted,
        ) && submitted@ == text@) ==> match s.recent_response {
            Some(response) => exists|k: int|
                i < k < thread.entries@.len() && #[trigger] speaks(thread.entries@[k]) && (
                thread.entries@[k] matches ThreadEntry::AssistantMessage(m) && response@
                    == message_text(m.chunks@)) && forall|j: int|
                    k < j < thread.entries@.len() ==> !#[trigger] speaks(thread.entries@[j]),
            None => forall|k: int|
                i < k < thread.entries@.len() ==> !#[trigger] speaks(thread.entries@[k]),
        },
{
    last_user_is(thread.entries@, i);
    the_last_response_is_the_last(thread.entries@, i + 1);
}

/// What a page draws of a thread: whether it generates, what it executes and where, what it
/// changed, and how many instructions wait; of a thread that is not loaded, nothing.
pub proof fn a_page_draws_what_the_thread_does(
    page: WorkerDashboard,
    thread: Thread,
    s: WorkerSnapshot,
    unloaded: WorkerSnapshot,
    prompt: Option<PendingPermission>,
    i: int,
)
    requires
        call_ensures(WorkerDashboard::snapshot, (&page, Some(&thread)), s),
        call_ensures(WorkerDashboard::snapshot, (&page, None), unloaded),
        call_ensures(PendingPermission::for_thread, (&thread,), prompt),
    ensures
        s.thread_loaded,
        s.generating <==> thread.status is Generating,
        s.permission is Some <==> prompt is Some,
        s.permission matches Some(p) ==> (prompt matches Some(q) && p.tool_call_id@ == q.tool_call_id@
            && p.label@ == q.label@ && p.allow == q.allow && p.reject == q.reject),
        s.queued_messages == thread.queued_messages,
        s.changes@.len() == thread.changes@.len(),
        0 <= i < thread.changes@.len() ==> s.changes@[i].name@ == thread.changes@[i].name@
            && s.changes@[i].lines_added == thread.changes@[i].lines_added
            && s.changes@[i].lines_removed == thread.changes@[i].lines_removed,
        runs_at(thread.entries@, i) && (forall|j: int| i < j ==> !runs_at(thread.entries@, j)) ==> (
        s.current_tool_call matches Some(call) && (thread.entries@[i] matches ThreadEntry::ToolCall(
            c,
        ) && call.label@ == c.label@ && call.locations@ == joined(views(c.locations@), ", "@))),
        (forall|j: int| !runs_at(thread.entries@, j)) ==> s.current_tool_call is None,
        !unloaded.thread_loaded,
        !unloaded.generating,
        unloaded.permission is None,
        unloaded.current_tool_call is None,
        unloaded.changes@.len() == 0,
        unloaded.recent_instruction is None,
        unloaded.recent_response is None,
        unloaded.queued_messages == 0,
{
    let entries = thread.entries@;
    a_thread_executes_its_last_running_call(entries);
    if runs_at(entries, i) && (forall|j: int| i < j ==> !runs_at(entries, j)) {
        let call = running_call(entries).unwrap();
        let k = choose|k: int|
            #[trigger] runs_at(entries, k) && entries[k] == ThreadEntry::ToolCall(call)
                && forall|j: int| k < j ==> !runs_at(entries, j);
        assert(k == i);
    }
}

/// An answer to a prompt goes to the call that asks, with the option's own id and kind; where the
/// prompt does not offer it there is no button for it.
pub proof fn an_answer_goes_to_the_call_that_asks(
    text: &'static str,
    id: String,
    option: Option<PermissionOption>,
    button: Option<AnswerButton>,
    chosen: PermissionOption,
    authorization: Authorization,
)
    requires
        call_ensures(answer_button, (text, &id, &option), button),
        call_ensures(authorize_worker, (id, chosen), authorization),
    ensures
        button is Some <==> option is Some,
        button matches Some(b) ==> (option matches Some(o) && b.text@ == text@
            && b.authorization.tool_call_id@ == id@ && b.authorization.option_id@ == o.option_id@
            && b.authorization.option_kind == o.kind),
        authorization.tool_call_id@ == id@,
        authorization.option_id@ == chosen.option_id@,
        authorization.option_kind == chosen.kind,
{
}

/// A prompt on the page has the label of the prompt, a button that allows where it offers to
/// allow, and one that rejects where it offers to reject, each giving that option as the answer.
pub proof fn a_prompt_offers_its_own_answers(p: PendingPermission, r: PermissionView)
    requires
        call_ensures(render_permission_request, (&p,), r),
    ensures
        r.label@ == p.label@,
        r.title@ == "Permission needed"@,
        r.allow is Some <==> p.allow is Some,
        r.reject is Some <==> p.reject is Some,
        r.allow matches Some(b) ==> (p.allow matches Some(o) && b.text@ == "Allow"@
            && b.authorization.tool_call_id@ == p.tool_call_id@ && b.authorization.option_id@
            == o.option_id@ && b.authorization.option_kind == o.kind),
        r.reject matches Some(b) ==> (p.reject matches Some(o) && b.text@ == "Reject"@
            && b.authorization.tool_call_id@ == p.tool_call_id@ && b.authorization.option_id@
            == o.option_id@ && b.authorization.option_kind == o.kind),
{
}

/// A tool call on the page has its label, and a line for its paths where it has any; a changed
/// file has its name and, in their colours, the lines added and removed.
pub proof fn calls_and_files_are_shown(
    call: CurrentToolCall,
    view: ToolCallView,
    files: Vec<ChangedFile>,
    lines: Vec<FileLine>,
    i: int,
)
    requires
        call_ensures(render_current_tool_call, (&call,), view),
        call_ensures(render_changes, (&files,), lines),
    ensures
        view.label@ == call.label@,
        view.locations is Some <==> call.locations@.len() > 0,
        view.locations matches Some(text) ==> text@ == call.locations@,
        lines@.len() == files@.len(),
        0 <= i < files@.len() ==> lines@[i].name@ == files@[i].name@ && lines@[i].added.text@ == "+"@
            + crate::text::decimal(files@[i].lines_added as nat) && lines@[i].added.color is Created
            && lines@[i].removed.text@ == "-"@ + crate::text::decimal(
            files@[i].lines_removed as nat,
        ) && lines@[i].removed.color is Deleted,
{
}

/// The head of a page names the worker, its mission and its state; a worker that runs and executes
/// nothing waits for a response. It can be stopped exactly while it runs, and handed off exactly
/// where there is another worker, to each of them by name.
pub proof fn the_head_of_a_page(
    page: WorkerDashboard,
    thread: Option<Thread>,
    names: Option<AgentNames>,
    threads: Vec<ThreadMetadata>,
    r: DashboardHeader,
    state: MissionThreadState,
    status: (&'static str, Color),
    peers: Vec<ThreadMetadata>,
    i: int,
)
    requires
        call_ensures(WorkerDashboard::render_header, (&page, &thread, &names, &threads), r),
        call_ensures(thread_mission_state, (&thread,), state),
        call_ensures(worker_status, (state,), status),
        call_ensures(WorkerDashboard::peer_workers, (&page, &threads), peers),
    ensures
        r.role@ == page.role@,
        r.status.color == status.1,
        r.stop is Some <==> state is Running,
        !(state is Running) ==> r.status.text@ == status.0@,
        state is Running && (thread matches Some(t) && forall|j: int| !runs_at(t.entries@, j))
            ==> r.status.text@ == "Waiting for response"@,
        state is Running && (thread matches Some(t) && exists|j: int| runs_at(t.entries@, j))
            ==> r.status.text@ == "Working"@,
        r.hand_off is Some <==> peers@.len() > 0,
        r.peers@.len() == peers@.len(),
        0 <= i < peers@.len() ==> r.peers@[i].thread_id == peers@[i].thread_id && (peers@[i].role
            matches Some(role) ==> r.peers@[i].label@ == role@) && (peers@[i].role is None
            ==> r.peers@[i].label@ == peers@[i].display_title@),
        r.mission@ == "sub-session of "@ + page.mission_title@,
        names is None ==> r.agent_label is None,
        names matches Some(n) ==> (r.agent_label matches Some(label) && match n.display_name {
            Some(name) => label@ == name@,
            None => label@ == n.agent_label@,
        }),
{
    match thread {
        Some(t) => {
            a_thread_executes_its_last_running_call(t.entries@);
        },
        None => {},
    }
}

/// The line under the head says what the thread has used and cost, where that is known, and what
/// it is blocked on, in the colour of warnings, where it is.
pub proof fn the_line_under_the_head(
    page: WorkerDashboard,
    thread: Option<Thread>,
    s: WorkerSnapshot,
    r: DashboardSummary,
    tokens: u64,
    count: String,
)
    requires
        call_ensures(WorkerDashboard::render_summary, (&page, &thread, &s), r),
        call_ensures(format_token_count, (tokens,), count),
    ensures
        r.tokens is Some <==> (thread matches Some(t) && t.used_tokens is Some),
        (thread matches Some(t) && t.used_tokens == Some(tokens)) ==> (r.tokens matches Some(text)
            && text@ == count@ + " tokens"@),
        r.cost is Some <==> (thread matches Some(t) && t.cost is Some),
        thread matches Some(t) ==> (t.cost matches Some(cost) ==> (r.cost matches Some(text) && text@
            == "$"@ + cost@)),
        s.permission matches Some(p) ==> r.blocked.text@ == "blocked: "@ + p.label@
            && r.blocked.color is Warning,
        s.permission is None ==> r.blocked.text@ == "not blocked"@ && r.blocked.color is Muted,
{
}

/// An instruction can be sent exactly where the thread is loaded and the field is not blank, and a
/// failed one restored exactly where the field is blank and one failed. Feedback is shown, but
/// not one that says an instruction waits where none does any more.
pub proof fn the_field_says_what_can_be_done(
    page: WorkerDashboard,
    loaded: bool,
    queued: usize,
    modifier: bool,
    r: ComposerView,
)
    requires
        call_ensures(WorkerDashboard::render_composer, (&page, loaded, queued, modifier), r),
    ensures
        r.can_send <==> loaded && !blank(page.instruction_text@),
        r.can_restore <==> blank(page.instruction_text@),
        r.restore is Some <==> page.failed_instructions@.len() > 0,
        page.feedback matches Some(text) ==> (queued > 0 || !has_prefix(text@, "Queued"@)
            ==> r.hint@ == text@),
        (page.feedback is None || (page.feedback matches Some(text) && has_prefix(text@, "Queued"@)
            && queued == 0)) ==> r.hint@ == if r.can_send {
            if modifier {
                "Modifier+Enter sends · Enter inserts a newline"@
            } else {
                "Enter sends · Shift+Enter inserts a newline"@
            }
        } else if loaded {
            "Type an instruction to send"@
        } else {
            "Open the thread first to send an instruction"@
        },
{
    trimming_cuts_the_white_space_at_the_ends(page.instruction_text@);
}

/// A page has a line under its head and a field for instructions exactly where its thread is
/// loaded, and otherwise says that it is not; it shows a prompt, what is executed, what changed
/// and what waits exactly where there is any of it.
pub proof fn a_page_shows_what_there_is(
    page: WorkerDashboard,
    thread: Option<Thread>,
    names: Option<AgentNames>,
    threads: Vec<ThreadMetadata>,
    modifier: bool,
    r: DashboardView,
    prompt: Option<PendingPermission>,
)
    requires
        call_ensures(WorkerDashboard::render, (&page, &thread, &names, &threads, modifier), r),
        thread matches Some(t) ==> call_ensures(PendingPermission::for_thread, (&t,), prompt),
    ensures
        r.summary is Some <==> thread is Some,
        r.composer is Some <==> thread is Some,
        r.not_loaded is Some <==> thread is None,
        r.permission is Some <==> (thread is Some && prompt is Some),
        r.permission matches Some(view) ==> (prompt matches Some(p) && view.label@ == p.label@),
        r.current_tool_call is Some <==> (thread matches Some(t) && exists|j: int|
            runs_at(t.entries@, j)),
        r.changes is Some <==> (thread matches Some(t) && t.changes@.len() > 0),
        r.changes matches Some(shown) ==> (thread matches Some(t) && shown.1@.len() == t.changes@.len()),
        r.queued is Some <==> (thread matches Some(t) && t.queued_messages > 0),
        r.queued matches Some(label) ==> (thread matches Some(t) && label.text@
            == crate::text::decimal(t.queued_messages as nat) + " instruction(s) queued"@),
        thread matches Some(t) ==> (t.status is Idle && prompt is None && (forall|j: int|
            !runs_at(t.entries@, j)) <==> (r.notice matches Some(text) && text@
            == "Nothing in flight right now"@)),
        thread matches Some(t) ==> (t.status is Generating && prompt is None && (forall|j: int|
            !runs_at(t.entries@, j)) <==> (r.notice matches Some(text) && text@
            == "Waiting for response"@)),
        thread is None ==> r.notice is None,
        r.header.role@ == page.role@,
{
    reveal_strlit("Nothing in flight right now");
    reveal_strlit("Waiting for response");
    assert("Nothing in flight right now"@.len() != "Waiting for response"@.len());
    match thread {
        Some(t) => {
            a_thread_executes_its_last_running_call(t.entries@);
        },
        None => {},
    }
}

/// The tab of a page has the worker's name, dimmed unless it is selected, and the colour of the
/// worker's state.
pub proof fn a_tab_has_the_workers_name(
    page: WorkerDashboard,
    thread: Option<Thread>,
    selected: bool,
    r: (Label, Color),
    state: MissionThreadState,
    status: (&'static str, Color),
)
    requires
        call_ensures(WorkerDashboard::tab_content, (&page, &thread, selected), r),
        call_ensures(thread_mission_state, (&thread,), state),
        call_ensures(worker_status, (state,), status),
    ensures
        r.0.text@ == page.role@,
        r.0.color is Default <==> selected,
        r.0.color is Muted <==> !selected,
        r.1 == status.1,
{
}

} // verus!
