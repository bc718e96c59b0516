//! The page of one worker: what it runs right now, what it has changed, what it is blocked
//! on, what it has recorded, and a line to send it an instruction.

use std::collections::VecDeque;
use vstd::prelude::*;
use crate::lists::contains_after_push;
use crate::lists::contains_in_sum;
use crate::mission_id::hyphenated_form;
use crate::mission_id::MissionId;
use crate::mission_orchestrator::state_of;
use crate::mission_orchestrator::state_of_source;
use crate::mission_orchestrator::thread_mission_state;
use crate::mission_orchestrator::Agent;
use crate::mission_orchestrator::MissionThreadState;
use crate::mission_panel::send_to_worker_view;
use crate::mission_panel::Delivery;
use crate::mission_snapshot::harness_name;
use crate::shared_context::Decision;
use crate::shared_context::Evidence;
use crate::shared_context::MissionContext;
use crate::text::decimal;
use crate::text::decimal_text;
use crate::text::has_prefix;
use crate::text::join;
use crate::text::joined;
use crate::text::opt_view;
use crate::text::starts_with;
use crate::text::text_eq;
use crate::text::trim;
use crate::text::trimmed;
use crate::text::views;
use crate::thread::active_tool_call;
use crate::thread::assistant_summary;
use crate::thread::label_of;
use crate::thread::last_assistant_summary;
use crate::thread::last_user;
use crate::thread::last_user_message;
use crate::thread::pending_call;
use crate::thread::permission_is;
use crate::thread::running_call;
use crate::thread::worker_label;
use crate::thread::ChangedFile;
use crate::thread::MessageChunk;
use crate::thread::PendingPermission;
use crate::thread::PermissionOption;
use crate::thread::PermissionOptionKind;
use crate::thread::Thread;
use crate::thread::ThreadEntry;
use crate::thread::ThreadId;
use crate::thread::ThreadMetadata;
use crate::thread::ThreadStatus;
use crate::thread::ToolCall;
use crate::token_count::format_token_count;
use crate::token_count::token_count;
use crate::ui::bilingual_label;
use crate::ui::opt_str;
use crate::ui::BilingualLabel;
use crate::ui::Button;
use crate::ui::Color;
use crate::ui::IconName;
use crate::ui::Label;

verus! {

/// The name and colour of a worker's state.
pub open spec fn status_of(state: MissionThreadState) -> (Seq<char>, Color) {
    match state {
        MissionThreadState::Created => ("Not started"@, Color::Muted),
        MissionThreadState::Running => ("Working"@, Color::Success),
        MissionThreadState::Waiting => ("Waiting for you"@, Color::Warning),
        MissionThreadState::Completed => ("Idle"@, Color::Muted),
        MissionThreadState::Failed => ("Failed"@, Color::Error),
    }
}

/// The name and colour of a worker's state, the same on every surface.
pub fn worker_status(state: MissionThreadState) -> (r: (&'static str, Color))
    ensures
        (r.0@, r.1) == status_of(state),
{
    match state {
        MissionThreadState::Created => ("Not started", Color::Muted),
        MissionThreadState::Running => ("Working", Color::Success),
        MissionThreadState::Waiting => ("Waiting for you", Color::Warning),
        MissionThreadState::Completed => ("Idle", Color::Muted),
        MissionThreadState::Failed => ("Failed", Color::Error),
    }
}

/// The picture that stands for what runs a worker, always muted: a picture of its own where
/// the agent's server ships one, or else a built-in one.
pub enum HarnessIcon {
    External(String),
    BuiltIn(IconName),
}

/// The picture that stands for what runs a worker.
pub fn harness_icon(agent: &Agent, external_svg: &Option<String>) -> (r: HarnessIcon)
    ensures
        match *external_svg {
            Some(svg) => r == HarnessIcon::External(svg),
            None => r == HarnessIcon::BuiltIn(
                if agent is NativeAgent {
                    IconName::ZedAgent
                } else {
                    IconName::Terminal
                },
            ),
        },
{
    match external_svg {
        Some(svg) => HarnessIcon::External(svg.clone()),
        None => match agent {
            Agent::NativeAgent => HarnessIcon::BuiltIn(IconName::ZedAgent),
            Agent::Custom { .. } => HarnessIcon::BuiltIn(IconName::Terminal),
        },
    }
}

/// What a worker is executing.
pub struct CurrentToolCall {
    pub label: String,
    /// The paths that the call is about, in one line.
    pub locations: String,
}

/// Everything that a worker's page draws of its thread.
pub struct WorkerSnapshot {
    /// Whether the thread is loaded; where it is not, nothing of what it does can be read.
    pub thread_loaded: bool,
    pub generating: bool,
    pub permission: Option<PendingPermission>,
    pub current_tool_call: Option<CurrentToolCall>,
    pub changes: Vec<ChangedFile>,
    pub recent_instruction: Option<String>,
    pub recent_response: Option<String>,
    pub queued_messages: usize,
}

impl Default for WorkerSnapshot {
    /// The snapshot of a thread that is not loaded.
    fn default() -> (r: Self)
        ensures
            r.is_unloaded(),
    {
        WorkerSnapshot {
            thread_loaded: false,
            generating: false,
            permission: None,
            current_tool_call: None,
            changes: Vec::new(),
            recent_instruction: None,
            recent_response: None,
            queued_messages: 0,
        }
    }
}

impl WorkerSnapshot {
    /// Whether this is the snapshot of a thread that is not loaded.
    pub open spec fn is_unloaded(self) -> bool {
        &&& !self.thread_loaded
        &&& !self.generating
        &&& self.permission is None
        &&& self.current_tool_call is None
        &&& self.changes@.len() == 0
        &&& self.recent_instruction is None
        &&& self.recent_response is None
        &&& self.queued_messages == 0
    }

    /// Whether the thread is loaded and nothing is in flight.
    pub open spec fn idle(self) -> bool {
        &&& self.thread_loaded
        &&& !self.generating
        &&& self.permission is None
        &&& self.current_tool_call is None
    }

    /// Whether the thread is loaded and nothing is in flight; what it has changed before does
    /// not matter, and a thread that is not loaded is not idle.
    pub fn is_idle(&self) -> (r: bool)
        ensures
            r == self.idle(),
    {
        self.thread_loaded && !self.generating && self.permission.is_none()
            && self.current_tool_call.is_none()
    }
}

/// The answer to a permission prompt, as it goes to the thread.
pub struct Authorization {
    pub tool_call_id: String,
    pub option_id: String,
    pub option_kind: PermissionOptionKind,
}

/// The answer to a permission prompt, as it goes to the thread.
pub fn authorize_worker(tool_call_id: String, option: PermissionOption) -> (r: Authorization)
    ensures
        r == (Authorization {
            tool_call_id,
            option_id: option.option_id,
            option_kind: option.kind,
        }),
{
    Authorization { tool_call_id, option_id: option.option_id, option_kind: option.kind }
}

/// What there is to show of what the mission's workers recorded.
pub enum WorkerContextState {
    Loading,
    Loaded(MissionContext),
    /// The store did not open, or the query failed.
    Unavailable,
}

/// The page of one worker.
pub struct WorkerDashboard {
    pub mission_id: MissionId,
    pub mission_title: String,
    pub thread_id: ThreadId,
    pub role: String,
    /// What is typed in the field for an instruction.
    pub instruction_text: String,
    pub context_state: WorkerContextState,
    /// The thread and its view that the page listens to, by their handles.
    pub observed_thread: Option<u64>,
    pub observed_thread_view: Option<u64>,
    pub feedback: Option<String>,
    pub latest_submitted_instruction: Option<String>,
    /// Counts the instructions that were sent, so that an answer can be told to be the last.
    pub submission_id: u64,
    /// The instructions that could not be sent, the oldest first.
    pub failed_instructions: VecDeque<String>,
}

/// The position of the first page for a thread, or the number of pages.
pub open spec fn page_position(pages: Seq<ThreadId>, thread_id: ThreadId) -> int
    decreases pages.len(),
{
    if pages.len() == 0 || pages[0] == thread_id {
        0
    } else {
        1 + page_position(pages.subrange(1, pages.len() as int), thread_id)
    }
}

/// The page that is to be shown for a worker: one that is open already, or a new one.
#[derive(Clone, Copy, Debug, PartialEq, Eq, Structural)]
pub enum Deployment {
    Activate(usize),
    Open,
}

/// The text of the last user message.
pub open spec fn last_user_text(entries: Seq<ThreadEntry>) -> Option<Seq<char>> {
    let i = last_user(entries);
    if 0 <= i < entries.len() {
        match entries[i] {
            ThreadEntry::UserMessage(text) => Some(text@),
            _ => None,
        }
    } else {
        None
    }
}

fn last_user_message_text(entries: &Vec<ThreadEntry>) -> (r: Option<String>)
    ensures
        opt_view(r) == last_user_text(entries@),
{
    match last_user_message(entries) {
        Some(i) => match &entries[i] {
            ThreadEntry::UserMessage(text) => Some(text.clone()),
            _ => None,
        },
        None => None,
    }
}

/// The texts of the pieces of a message that are meant for the reader.
pub open spec fn spoken(chunks: Seq<MessageChunk>) -> Seq<Seq<char>>
    decreases chunks.len(),
{
    if chunks.len() == 0 {
        Seq::empty()
    } else {
        match chunks.last() {
            MessageChunk::Message(text) => spoken(chunks.drop_last()).push(text@),
            MessageChunk::Thought(_) => spoken(chunks.drop_last()),
        }
    }
}

/// What a message says, without its thoughts.
pub open spec fn message_text(chunks: Seq<MessageChunk>) -> Seq<char> {
    joined(spoken(chunks), "\n\n"@)
}

fn spoken_text(chunks: &Vec<MessageChunk>) -> (r: String)
    ensures
        r@ == message_text(chunks@),
{
    let mut parts: Vec<String> = Vec::new();
    let mut i: usize = 0;
    assert(views(parts@) =~= spoken(chunks@.take(0)));
    while i < chunks.len()
        invariant
            i <= chunks.len(),
            views(parts@) == spoken(chunks@.take(i as int)),
        decreases chunks.len() - i,
    {
        assert(chunks@.take(i + 1).drop_last() =~= chunks@.take(i as int));
        match &chunks[i] {
            MessageChunk::Message(text) => {
                let ghost before = views(parts@);
                parts.push(text.clone());
                assert(views(parts@) =~= before.push(text@));
            },
            MessageChunk::Thought(_) => {},
        }
        i += 1;
    }
    assert(chunks@.take(i as int) =~= chunks@);
    join(&parts, "\n\n")
}

/// What the assistant last said from `from` on that is not blank.
pub open spec fn last_response(entries: Seq<ThreadEntry>, from: int) -> Option<Seq<char>>
    decreases entries.len(),
{
    if entries.len() <= from || entries.len() == 0 {
        None
    } else {
        match entries.last() {
            ThreadEntry::AssistantMessage(message) => {
                let text = message_text(message.chunks@);
                if trimmed(text).len() > 0 {
                    Some(text)
                } else {
                    last_response(entries.drop_last(), from)
                }
            },
            _ => last_response(entries.drop_last(), from),
        }
    }
}

fn latest_response(entries: &Vec<ThreadEntry>, from: usize) -> (r: Option<String>)
    ensures
        opt_view(r) == last_response(entries@, from as int),
{
    let mut i: usize = entries.len();
    assert(entries@.take(i as int) =~= entries@);
    while i > from
        invariant
            i <= entries.len(),
            last_response(entries@, from as int) == last_response(
                entries@.take(i as int),
                from as int,
            ),
        decreases i,
    {
        let ghost here = entries@.take(i as int);
        assert(here.last() == entries[i - 1]);
        assert(here.drop_last() =~= entries@.take(i - 1));
        match &entries[i - 1] {
            ThreadEntry::AssistantMessage(message) => {
                let text = spoken_text(&message.chunks);
                if trim(text.as_str()).as_str().unicode_len() > 0 {
                    return Some(text);
                }
            },
            _ => {},
        }
        i -= 1;
    }
    None
}

/// The instruction that is shown as the latest: the one just sent, or else the thread's.
pub open spec fn shown_instruction(submitted: Option<Seq<char>>, said: Option<Seq<char>>) -> Option<
    Seq<char>,
> {
    match submitted {
        Some(text) => Some(text),
        None => said,
    }
}

/// The response that is shown: the thread's last one to its last instruction, unless an
/// instruction was just sent that the thread does not show yet.
pub open spec fn shown_response(submitted: Option<Seq<char>>, entries: Seq<ThreadEntry>) -> Option<
    Seq<char>,
> {
    let said = last_user_text(entries);
    if said is None || (submitted is Some && submitted != said) {
        None
    } else {
        last_response(entries, last_user(entries) + 1)
    }
}

/// Whether `call` shows what is being executed.
pub open spec fn shows_call(call: Option<CurrentToolCall>, running: Option<ToolCall>) -> bool {
    match running {
        Some(c) => call matches Some(shown) && shown.label == c.label && shown.locations@ == joined(
            views(c.locations@),
            ", "@,
        ),
        None => call is None,
    }
}

/// Whether `copy` is the list of changed files.
pub open spec fn files_copied(copy: Seq<ChangedFile>, files: Seq<ChangedFile>) -> bool {
    &&& copy.len() == files.len()
    &&& forall|i: int|
        0 <= i < copy.len() ==> (#[trigger] copy[i]).name == files[i].name && copy[i].lines_added
            == files[i].lines_added && copy[i].lines_removed == files[i].lines_removed
}

fn copy_files(files: &Vec<ChangedFile>) -> (r: Vec<ChangedFile>)
    ensures
        files_copied(r@, files@),
{
    let mut r: Vec<ChangedFile> = Vec::new();
    let mut i: usize = 0;
    while i < files.len()
        invariant
            i <= files.len(),
            files_copied(r@, files@.take(i as int)),
        decreases files.len() - i,
    {
        r.push(
            ChangedFile {
                name: files[i].name.clone(),
                lines_added: files[i].lines_added,
                lines_removed: files[i].lines_removed,
            },
        );
        i += 1;
    }
    assert(files@.take(i as int) =~= files@);
    r
}

/// Whether `s` is the snapshot of a loaded thread, `submitted` being the instruction just
/// sent.
pub open spec fn worker_snapshot_is(
    s: WorkerSnapshot,
    thread: Thread,
    submitted: Option<Seq<char>>,
) -> bool {
    &&& s.thread_loaded
    &&& s.generating == (thread.status == ThreadStatus::Generating)
    &&& permission_is(thread.entries@, s.permission)
    &&& shows_call(s.current_tool_call, running_call(thread.entries@))
    &&& files_copied(s.changes@, thread.changes@)
    &&& opt_view(s.recent_instruction) == shown_instruction(
        submitted,
        last_user_text(thread.entries@),
    )
    &&& opt_view(s.recent_response) == shown_response(submitted, thread.entries@)
    &&& s.queued_messages == thread.queued_messages
}

/// An instruction on its way to a worker.
pub struct Submission {
    pub submission_id: u64,
    pub instruction: String,
    pub delivery: Delivery,
}

/// What a hand-off says: the typed note, or else where the worker left off, or else just that
/// the work is to be picked up.
pub open spec fn hand_off_text(role: Seq<char>, note: Seq<char>, summary: Option<Seq<char>>) -> Seq<
    char,
> {
    if trimmed(note).len() > 0 {
        "Handing off from "@ + role + ": "@ + trimmed(note)
    } else {
        match summary {
            Some(line) => "Handing off from "@ + role + ". Where it left off: "@ + line,
            None => "Handing off from "@ + role + ". Please pick this up."@,
        }
    }
}

/// What becomes of a hand-off. Either way the receiving worker's conversation is opened.
pub enum HandOff {
    /// The receiving worker's thread is not loaded, so that the user has to start it.
    Open,
    /// The message is to be sent; `note` tells, once it is, whether the field still holds what
    /// was handed on.
    Send { message: String, delivery: Delivery, note: String },
}

impl WorkerDashboard {
    /// Whether a page that is open is to be shown again, or a new one opened.
    pub fn deploy(open_pages: &Vec<ThreadId>, thread_id: ThreadId) -> (r: Deployment)
        ensures
            match r {
                Deployment::Activate(i) => i == page_position(open_pages@, thread_id) && i
                    < open_pages.len(),
                Deployment::Open => page_position(open_pages@, thread_id) == open_pages.len(),
            },
    {
        let mut i: usize = 0;
        assert(open_pages@.subrange(0, open_pages@.len() as int) =~= open_pages@);
        while i < open_pages.len()
            invariant
                i <= open_pages.len(),
                page_position(open_pages@, thread_id) == i + page_position(
                    open_pages@.subrange(i as int, open_pages@.len() as int),
                    thread_id,
                ),
            decreases open_pages.len() - i,
        {
            let ghost rest = open_pages@.subrange(i as int, open_pages@.len() as int);
            assert(rest[0] == open_pages@[i as int]);
            assert(rest.subrange(1, rest.len() as int) =~= open_pages@.subrange(
                i + 1,
                open_pages@.len() as int,
            ));
            if open_pages[i] == thread_id {
                return Deployment::Activate(i);
            }
            i += 1;
        }
        Deployment::Open
    }

    /// The page of a worker as it opens; its thread is to be kept loaded while it is open.
    pub fn new(mission_id: MissionId, mission_title: String, metadata: &ThreadMetadata) -> (r: Self)
        ensures
            r.mission_id == mission_id,
            r.mission_title == mission_title,
            r.thread_id == metadata.thread_id,
            r.role@ == label_of(*metadata),
            r.instruction_text@.len() == 0,
            r.context_state is Loading,
            r.observed_thread is None,
            r.observed_thread_view is None,
            r.feedback is None,
            r.latest_submitted_instruction is None,
            r.submission_id == 0,
            r.failed_instructions@.len() == 0,
    {
        WorkerDashboard {
            mission_id,
            mission_title,
            thread_id: metadata.thread_id,
            role: worker_label(metadata),
            instruction_text: String::new(),
            context_state: WorkerContextState::Loading,
            observed_thread: None,
            observed_thread_view: None,
            feedback: None,
            latest_submitted_instruction: None,
            submission_id: 0,
            failed_instructions: VecDeque::new(),
        }
    }

    /// Turns to the thread and view that are loaded for the worker now; returns whether they
    /// are others than before, so that the page is to listen to them.
    pub fn observe_thread_of(&mut self, thread: Option<u64>, thread_view: Option<u64>) -> (r: bool)
        ensures
            r == (thread != old(self).observed_thread || thread_view
                != old(self).observed_thread_view),
            *final(self) == (WorkerDashboard {
                observed_thread: thread,
                observed_thread_view: thread_view,
                ..*old(self)
            }),
    {
        if thread == self.observed_thread && thread_view == self.observed_thread_view {
            return false;
        }
        self.observed_thread = thread;
        self.observed_thread_view = thread_view;
        true
    }

    /// Forgets the instruction just sent once the thread shows it as its last user message.
    pub fn clear_submitted_instruction_if_reflected(&mut self, thread: Option<&Thread>)
        ensures
            match (old(self).latest_submitted_instruction, thread) {
                (Some(submitted), Some(t)) => if last_user_text(t.entries@) == Some(submitted@) {
                    *final(self) == (WorkerDashboard {
                        latest_submitted_instruction: None,
                        ..*old(self)
                    })
                } else {
                    *final(self) == *old(self)
                },
                _ => *final(self) == *old(self),
            },
    {
        let thread = match thread {
            Some(t) => t,
            None => return,
        };
        let reflected = match (&self.latest_submitted_instruction, last_user_message_text(&thread.entries)) {
            (Some(submitted), Some(said)) => *submitted == said,
            _ => false,
        };
        if reflected {
            self.latest_submitted_instruction = None;
        }
    }

    /// Asks for what the mission's workers recorded; returns the key to ask the store with,
    /// where there is a store.
    pub fn refresh_context(&mut self, store_available: bool) -> (r: Option<String>)
        ensures
            if store_available {
                *final(self) == *old(self) && opt_view(r) == Some(
                    hyphenated_form(old(self).mission_id.value),
                )
            } else {
                r is None && *final(self) == (WorkerDashboard {
                    context_state: WorkerContextState::Unavailable,
                    ..*old(self)
                })
            },
    {
        if store_available {
            Some(self.mission_id.to_key_string())
        } else {
            self.context_state = WorkerContextState::Unavailable;
            None
        }
    }

    /// Takes the outcome of a query for the context.
    pub fn context_loaded(&mut self, result: Option<Result<MissionContext, String>>)
        ensures
            *final(self) == (WorkerDashboard {
                context_state: match result {
                    Some(Ok(context)) => WorkerContextState::Loaded(context),
                    _ => WorkerContextState::Unavailable,
                },
                ..*old(self)
            }),
    {
        self.context_state = match result {
            Some(Ok(context)) => WorkerContextState::Loaded(context),
            _ => WorkerContextState::Unavailable,
        };
    }

    /// The mission's other workers.
    pub open spec fn peers(self, threads: Seq<ThreadMetadata>) -> Seq<ThreadMetadata>
        decreases threads.len(),
    {
        if threads.len() == 0 {
            Seq::empty()
        } else {
            let before = self.peers(threads.drop_last());
            let last = threads.last();
            if last.mission_id == Some(self.mission_id) && last.thread_id != self.thread_id {
                before.push(last)
            } else {
                before
            }
        }
    }

    /// The mission's other workers: all that this one could hand off to.
    pub fn peer_workers(&self, threads: &Vec<ThreadMetadata>) -> (r: Vec<ThreadMetadata>)
        ensures
            r@ == self.peers(threads@),
    {
        let mut r: Vec<ThreadMetadata> = Vec::new();
        let mut i: usize = 0;
        assert(r@ =~= self.peers(threads@.take(0)));
        while i < threads.len()
            invariant
                i <= threads.len(),
                r@ == self.peers(threads@.take(i as int)),
            decreases threads.len() - i,
        {
            assert(threads@.take(i + 1).drop_last() =~= threads@.take(i as int));
            if threads[i].mission_id == Some(self.mission_id) && threads[i].thread_id
                != self.thread_id {
                r.push(threads[i].clone());
            }
            i += 1;
        }
        assert(threads@.take(i as int) =~= threads@);
        r
    }

    /// Sends the typed instruction: the field is cleared at once, so that what is typed next
    /// is not touched, and the page says that it was sent or that it waits. Nothing happens
    /// without an instruction or where the worker's thread is not loaded.
    pub fn send_instruction(&mut self, thread_view: Option<ThreadStatus>) -> (r: Option<Submission>)
        ensures
            match thread_view {
                Some(status) => if trimmed(old(self).instruction_text@).len() > 0 {
                    &&& r matches Some(submission) && submission.submission_id
                        == final(self).submission_id && submission.instruction@ == trimmed(
                        old(self).instruction_text@,
                    ) && submission.delivery == delivery_for(status)
                    &&& final(self).submission_id == (old(self).submission_id + 1)
                        % 0x1_0000_0000_0000_0000
                    &&& opt_view(final(self).latest_submitted_instruction) == Some(
                        trimmed(old(self).instruction_text@),
                    )
                    &&& final(self).instruction_text@.len() == 0
                    &&& opt_view(final(self).feedback) == Some(
                        if status == ThreadStatus::Idle {
                            "Submitted — waiting for response"@
                        } else {
                            "Queued — will send when the current turn finishes"@
                        },
                    )
                    &&& *final(self) == (WorkerDashboard {
                        submission_id: final(self).submission_id,
                        latest_submitted_instruction: final(self).latest_submitted_instruction,
                        instruction_text: final(self).instruction_text,
                        feedback: final(self).feedback,
                        ..*old(self)
                    })
                } else {
                    r is None && *final(self) == *old(self)
                },
                None => r is None && *final(self) == *old(self),
            },
    {
        let instruction = trim(self.instruction_text.as_str());
        if instruction.as_str().unicode_len() == 0 {
            return None;
        }
        let status = match thread_view {
            Some(status) => status,
            None => return None,
        };
        self.latest_submitted_instruction = Some(instruction.clone());
        self.submission_id = self.submission_id.wrapping_add(1);
        self.instruction_text = String::new();
        self.feedback = Some(
            if status == ThreadStatus::Idle {
                "Submitted — waiting for response".to_owned()
            } else {
                "Queued — will send when the current turn finishes".to_owned()
            },
        );
        Some(
            Submission {
                submission_id: self.submission_id,
                instruction,
                delivery: send_to_worker_view(status),
            },
        )
    }

    /// Takes note of how sending an instruction ended. The page's feedback is touched only
    /// where no other instruction was sent since; one that failed is kept to be restored.
    pub fn submission_finished(&mut self, submission: &Submission, result: Result<(), String>)
        ensures
            match result {
                Ok(_) => *final(self) == (WorkerDashboard {
                    feedback: if submission.delivery == Delivery::Send
                        && old(self).submission_id == submission.submission_id {
                        None
                    } else {
                        old(self).feedback
                    },
                    ..*old(self)
                }),
                Err(e) => {
                    &&& if old(self).submission_id == submission.submission_id {
                        opt_view(final(self).feedback) == Some("Send failed: "@ + e@)
                    } else {
                        final(self).feedback == old(self).feedback
                    }
                    &&& final(self).failed_instructions@ == old(self).failed_instructions@.push(
                        submission.instruction,
                    )
                    &&& *final(self) == (WorkerDashboard {
                        feedback: final(self).feedback,
                        failed_instructions: final(self).failed_instructions,
                        ..*old(self)
                    })
                },
            },
    {
        let last = self.submission_id == submission.submission_id;
        match result {
            Ok(_) => {
                if submission.delivery == Delivery::Send && last {
                    self.feedback = None;
                }
            },
            Err(e) => {
                if last {
                    let mut feedback = "Send failed: ".to_owned();
                    feedback.append(e.as_str());
                    self.feedback = Some(feedback);
                }
                self.failed_instructions.push_back(submission.instruction.clone());
            },
        }
    }

    /// Puts the oldest instruction that could not be sent back into the field, unless
    /// something is typed there.
    pub fn restore_failed_instruction(&mut self)
        ensures
            if old(self).failed_instructions@.len() > 0 && trimmed(
                old(self).instruction_text@,
            ).len() == 0 {
                &&& final(self).instruction_text == old(self).failed_instructions@[0]
                &&& final(self).failed_instructions@ == old(self).failed_instructions@.subrange(
                    1,
                    old(self).failed_instructions@.len() as int,
                )
                &&& *final(self) == (WorkerDashboard {
                    instruction_text: final(self).instruction_text,
                    failed_instructions: final(self).failed_instructions,
                    ..*old(self)
                })
            } else {
                *final(self) == *old(self)
            },
    {
        if self.failed_instructions.len() == 0 {
            return;
        }
        if trim(self.instruction_text.as_str()).as_str().unicode_len() > 0 {
            return;
        }
        match self.failed_instructions.pop_front() {
            Some(instruction) => {
                self.instruction_text = instruction;
            },
            None => {},
        }
    }

    /// Hands this worker's task to another, whose conversation is opened in any case.
    /// `target` is the status of the receiving worker's thread where it is loaded.
    pub fn hand_off(&self, thread: Option<&Thread>, target: Option<ThreadStatus>) -> (r: HandOff)
        ensures
            match target {
                None => r is Open,
                Some(status) => r matches HandOff::Send { message, delivery, note } && message@
                    == hand_off_text(
                    self.role@,
                    self.instruction_text@,
                    match thread {
                        Some(t) => assistant_summary(t.entries@),
                        None => None,
                    },
                ) && delivery == delivery_for(status) && note@ == trimmed(self.instruction_text@),
            },
    {
        let note = trim(self.instruction_text.as_str());
        let summary = match thread {
            Some(t) => last_assistant_summary(t),
            None => None,
        };
        let mut message = "Handing off from ".to_owned();
        message.append(self.role.as_str());
        if note.as_str().unicode_len() > 0 {
            message.append(": ");
            message.append(note.as_str());
        } else {
            match summary {
                Some(line) => {
                    message.append(". Where it left off: ");
                    message.append(line.as_str());
                },
                None => {
                    message.append(". Please pick this up.");
                },
            }
        }
        match target {
            None => HandOff::Open,
            Some(status) => HandOff::Send { message, delivery: send_to_worker_view(status), note },
        }
    }

    /// Clears the field once a hand-off was sent, unless something else is typed there by now.
    pub fn hand_off_finished(&mut self, note: &str, sent: bool)
        ensures
            if sent && trimmed(old(self).instruction_text@) == note@ {
                &&& final(self).instruction_text@.len() == 0
                &&& *final(self) == (WorkerDashboard {
                    instruction_text: final(self).instruction_text,
                    ..*old(self)
                })
            } else {
                *final(self) == *old(self)
            },
    {
        if sent && text_eq(trim(self.instruction_text.as_str()).as_str(), note) {
            self.instruction_text = String::new();
        }
    }

    /// Everything that the page draws of the worker's thread.
    pub fn snapshot(&self, thread: Option<&Thread>) -> (r: WorkerSnapshot)
        ensures
            match thread {
                Some(t) => worker_snapshot_is(r, *t, opt_view(self.latest_submitted_instruction)),
                None => r.is_unloaded(),
            },
    {
        let thread = match thread {
            Some(t) => t,
            None => return WorkerSnapshot::default(),
        };
        let said = last_user_message_text(&thread.entries);
        let can_show_response = match (&self.latest_submitted_instruction, &said) {
            (Some(submitted), Some(text)) => *submitted == *text,
            (Some(_), None) => false,
            (None, _) => true,
        };
        let recent_response = if can_show_response {
            match last_user_message(&thread.entries) {
                Some(index) => latest_response(&thread.entries, index + 1),
                None => None,
            }
        } else {
            None
        };
        let recent_instruction = match &self.latest_submitted_instruction {
            Some(submitted) => Some(submitted.clone()),
            None => said,
        };
        let current_tool_call = match active_tool_call(thread) {
            Some(call) => Some(
                CurrentToolCall { label: call.label.clone(), locations: join(&call.locations, ", ") },
            ),
            None => None,
        };
        WorkerSnapshot {
            thread_loaded: true,
            generating: thread.status == ThreadStatus::Generating,
            permission: PendingPermission::for_thread(thread),
            current_tool_call,
            changes: copy_files(&thread.changes),
            recent_instruction,
            recent_response,
            queued_messages: thread.queued_messages,
        }
    }
}

/// How a message reaches a thread in a status.
pub open spec fn delivery_for(status: ThreadStatus) -> Delivery {
    if status == ThreadStatus::Idle {
        Delivery::Send
    } else {
        Delivery::Queue
    }
}

/// The instructions that still wait after the oldest `n` were restored.
pub open spec fn after_restores(waiting: Seq<String>, n: nat) -> Seq<String>
    decreases n,
{
    if n == 0 {
        waiting
    } else {
        after_restores(waiting.subrange(1, waiting.len() as int), (n - 1) as nat)
    }
}

/// Instructions that failed come back in the order in which they failed: one that fails is
/// restored next once all that failed before it are restored.
pub proof fn failed_instructions_are_restored_in_order(waiting: Seq<String>, failed: String)
    ensures
        after_restores(waiting.push(failed), waiting.len()) == seq![failed],
    decreases waiting.len(),
{
    if waiting.len() == 0 {
        assert(waiting.push(failed) =~= seq![failed]);
    } else {
        let rest = waiting.subrange(1, waiting.len() as int);
        failed_instructions_are_restored_in_order(rest, failed);
        assert(waiting.push(failed).subrange(1, waiting.len() as int + 1) =~= rest.push(failed));
    }
}

/// A worker whose thread is not loaded is not idle, and neither is one that waits for a
/// permission or executes something.
pub proof fn only_a_loaded_worker_at_rest_is_idle(
    s: WorkerSnapshot,
    thread: Thread,
    submitted: Option<Seq<char>>,
)
    requires
        worker_snapshot_is(s, thread, submitted),
    ensures
        s.idle() <==> thread.status == ThreadStatus::Idle && pending_call(thread.entries@) is None
            && running_call(thread.entries@) is None,
{
}

/// One worker that this one can hand off to.
pub struct PeerEntry {
    pub thread_id: ThreadId,
    pub label: String,
}

/// The head of the page: who the worker is, what runs it, what mission it belongs to, and
/// what can be done to it.
pub struct DashboardHeader {
    pub role: String,
    pub status: Label,
    pub open_thread: Button,
    /// The button for a hand-off, where there is anyone to hand off to, and the workers in its
    /// menu.
    pub hand_off: Option<Button>,
    pub peers: Vec<PeerEntry>,
    /// The button that stops the worker, while it runs.
    pub stop: Option<Button>,
    pub agent_label: Option<String>,
    pub mission: String,
}

/// What a page knows of its worker's stored thread: the names its agent goes by.
pub struct AgentNames {
    pub display_name: Option<String>,
    pub agent_label: String,
}

/// The name and colour of the worker's state; a worker that runs and executes nothing waits
/// for a response.
pub open spec fn page_status(thread: Option<Thread>) -> (Seq<char>, Color) {
    let (text, color) = status_of(state_of_source(thread));
    match thread {
        Some(t) => if state_of(t) == MissionThreadState::Running && running_call(t.entries@) is None {
            ("Waiting for response"@, color)
        } else {
            (text, color)
        },
        None => (text, color),
    }
}

/// Whether `peer` stands for a worker.
pub open spec fn is_peer_entry(peer: PeerEntry, metadata: ThreadMetadata) -> bool {
    peer.thread_id == metadata.thread_id && peer.label@ == label_of(metadata)
}

/// The line under the head: what the thread has used, and what it is blocked on.
pub struct DashboardSummary {
    pub tokens: Option<String>,
    pub cost: Option<String>,
    pub blocked: Label,
}

/// The field for an instruction.
pub struct ComposerView {
    pub placeholder: &'static str,
    pub hint: String,
    pub send: Button,
    pub can_send: bool,
    /// The button that brings back an instruction that could not be sent, where there is one.
    pub restore: Option<Button>,
    pub can_restore: bool,
}

/// What is said beside the field: the page's feedback, unless it says that an instruction
/// waits and none does any more; or else what can be done.
pub open spec fn composer_hint(
    feedback: Option<Seq<char>>,
    queued: int,
    can_send: bool,
    thread_loaded: bool,
    use_modifier_to_send: bool,
) -> Seq<char> {
    let shown = match feedback {
        Some(text) => if has_prefix(text, "Queued"@) && queued == 0 {
            None
        } else {
            Some(text)
        },
        None => None,
    };
    match shown {
        Some(text) => text,
        None => if can_send {
            if use_modifier_to_send {
                "Modifier+Enter sends · Enter inserts a newline"@
            } else {
                "Enter sends · Shift+Enter inserts a newline"@
            }
        } else if thread_loaded {
            "Type an instruction to send"@
        } else {
            "Open the thread first to send an instruction"@
        },
    }
}

/// A permission prompt on the page, with a button for each answer that it offers.
pub struct PermissionView {
    pub title: &'static str,
    pub label: String,
    pub allow: Option<AnswerButton>,
    pub reject: Option<AnswerButton>,
}

/// A button that answers a permission prompt.
pub struct AnswerButton {
    pub text: &'static str,
    pub authorization: Authorization,
}

/// Whether `button` gives an answer to a prompt, where the prompt offers that answer.
pub open spec fn is_answer(
    button: Option<AnswerButton>,
    text: Seq<char>,
    tool_call_id: String,
    option: Option<PermissionOption>,
) -> bool {
    match option {
        Some(o) => button matches Some(b) && b.text@ == text && b.authorization == (Authorization {
            tool_call_id,
            option_id: o.option_id,
            option_kind: o.kind,
        }),
        None => button is None,
    }
}

/// The button for an answer to a prompt, where the prompt offers that answer.
pub fn answer_button(
    text: &'static str,
    tool_call_id: &String,
    option: &Option<PermissionOption>,
) -> (r: Option<AnswerButton>)
    ensures
        is_answer(r, text@, *tool_call_id, *option),
{
    match option {
        Some(o) => Some(
            AnswerButton { text, authorization: authorize_worker(tool_call_id.clone(), o.clone()) },
        ),
        None => None,
    }
}

/// Whether `view` shows a permission prompt.
pub open spec fn shows_permission(view: PermissionView, permission: PendingPermission) -> bool {
    &&& view.title@ == "Permission needed"@
    &&& view.label == permission.label
    &&& is_answer(view.allow, "Allow"@, permission.tool_call_id, permission.allow)
    &&& is_answer(view.reject, "Reject"@, permission.tool_call_id, permission.reject)
}

/// A permission prompt on the page.
pub fn render_permission_request(permission: &PendingPermission) -> (r: PermissionView)
    ensures
        shows_permission(r, *permission),
{
    PermissionView {
        title: "Permission needed",
        label: permission.label.clone(),
        allow: answer_button("Allow", &permission.tool_call_id, &permission.allow),
        reject: answer_button("Reject", &permission.tool_call_id, &permission.reject),
    }
}

/// What the worker is executing, on the page.
pub struct ToolCallView {
    pub label: String,
    pub locations: Option<String>,
}

/// Whether `view` shows a tool call; without locations the line for them is left out.
pub open spec fn shows_tool_call(view: ToolCallView, call: CurrentToolCall) -> bool {
    &&& view.label == call.label
    &&& opt_view(view.locations) == if call.locations@.len() > 0 {
        Some(call.locations@)
    } else {
        None
    }
}

/// What the worker is executing, on the page.
pub fn render_current_tool_call(call: &CurrentToolCall) -> (r: ToolCallView)
    ensures
        shows_tool_call(r, *call),
{
    ToolCallView {
        label: call.label.clone(),
        locations: if call.locations.as_str().is_empty() {
            None
        } else {
            Some(call.locations.clone())
        },
    }
}

/// A changed file on the page.
pub struct FileLine {
    pub name: String,
    pub added: Label,
    pub removed: Label,
}

/// Whether `line` shows a changed file.
pub open spec fn shows_file(line: FileLine, file: ChangedFile) -> bool {
    &&& line.name == file.name
    &&& line.added.reads("+"@ + decimal(file.lines_added as nat), Color::Created)
    &&& line.removed.reads("-"@ + decimal(file.lines_removed as nat), Color::Deleted)
}

/// Whether `lines` show the changed files, in their order.
pub open spec fn shows_files(lines: Seq<FileLine>, files: Seq<ChangedFile>) -> bool {
    &&& lines.len() == files.len()
    &&& forall|i: int| 0 <= i < lines.len() ==> shows_file(#[trigger] lines[i], files[i])
}

/// The files that the worker changed, on the page.
pub fn render_changes(files: &Vec<ChangedFile>) -> (r: Vec<FileLine>)
    ensures
        shows_files(r@, files@),
{
    let mut lines: Vec<FileLine> = Vec::new();
    let mut i: usize = 0;
    while i < files.len()
        invariant
            i <= files.len(),
            shows_files(lines@, files@.take(i as int)),
        decreases files.len() - i,
    {
        let file = &files[i];
        let mut added = "+".to_owned();
        added.append(decimal_text(file.lines_added as u64).as_str());
        let mut removed = "-".to_owned();
        removed.append(decimal_text(file.lines_removed as u64).as_str());
        lines.push(
            FileLine {
                name: file.name.clone(),
                added: Label::new(added, Color::Created),
                removed: Label::new(removed, Color::Deleted),
            },
        );
        i += 1;
    }
    assert(files@.take(i as int) =~= files@);
    lines
}

/// A line of what the worker recorded.
pub enum RecordedLine {
    /// Why there is nothing to show.
    Message(&'static str),
    Decision { key: String, value: String },
    Evidence { icon: IconName, color: Color, command: String },
}

/// The mathematical value of a `RecordedLine`.
pub enum RecordedView {
    Message(Seq<char>),
    Decision { key: Seq<char>, value: Seq<char> },
    Evidence { icon: IconName, color: Color, command: Seq<char> },
}

impl View for RecordedLine {
    type V = RecordedView;

    open spec fn view(&self) -> RecordedView {
        match *self {
            RecordedLine::Message(text) => RecordedView::Message(text@),
            RecordedLine::Decision { key, value } => RecordedView::Decision {
                key: key@,
                value: value@,
            },
            RecordedLine::Evidence { icon, color, command } => RecordedView::Evidence {
                icon,
                color,
                command: command@,
            },
        }
    }
}

pub open spec fn recorded_views(lines: Seq<RecordedLine>) -> Seq<RecordedView> {
    lines.map_values(|l: RecordedLine| l@)
}

/// The decisions of a role.
pub open spec fn decisions_by(decisions: Seq<Decision>, role: Seq<char>) -> Seq<RecordedView>
    decreases decisions.len(),
{
    if decisions.len() == 0 {
        Seq::empty()
    } else {
        let before = decisions_by(decisions.drop_last(), role);
        let row = decisions.last();
        if opt_view(row.role) == Some(role) {
            before.push(RecordedView::Decision { key: row.key@, value: row.value@ })
        } else {
            before
        }
    }
}

/// How a piece of evidence is shown: by whether its command exited with 0.
pub open spec fn evidence_line(row: Evidence) -> RecordedView {
    if row.exit_code == Some(0i32) {
        RecordedView::Evidence {
            icon: IconName::Check,
            color: Color::Success,
            command: row.command@,
        }
    } else {
        RecordedView::Evidence {
            icon: IconName::XCircle,
            color: Color::Error,
            command: row.command@,
        }
    }
}

/// The evidence of a role.
pub open spec fn evidence_by(evidence: Seq<Evidence>, role: Seq<char>) -> Seq<RecordedView>
    decreases evidence.len(),
{
    if evidence.len() == 0 {
        Seq::empty()
    } else {
        let before = evidence_by(evidence.drop_last(), role);
        if opt_view(evidence.last().role) == Some(role) {
            before.push(evidence_line(evidence.last()))
        } else {
            before
        }
    }
}

/// What is shown of what a worker recorded: the rows of its role, whoever recorded them.
pub open spec fn recorded_lines(state: WorkerContextState, role: Seq<char>) -> Seq<RecordedView> {
    match state {
        WorkerContextState::Loading => seq![RecordedView::Message("Loading…"@)],
        WorkerContextState::Unavailable => seq![RecordedView::Message("Shared Context unavailable"@)],
        WorkerContextState::Loaded(context) => {
            let rows = decisions_by(context.decisions@, role) + evidence_by(context.evidence@, role);
            if rows.len() == 0 {
                seq![RecordedView::Message("Nothing recorded yet"@)]
            } else {
                rows
            }
        },
    }
}

fn has_role(role: &Option<String>, wanted: &String) -> (r: bool)
    ensures
        r == (opt_view(*role) == Some(wanted@)),
{
    match role {
        Some(text) => *text == *wanted,
        None => false,
    }
}

fn add_decisions(lines: &mut Vec<RecordedLine>, decisions: &Vec<Decision>, role: &String)
    ensures
        recorded_views(final(lines)@) == recorded_views(old(lines)@) + decisions_by(
            decisions@,
            role@,
        ),
{
    let ghost start = recorded_views(lines@);
    let mut i: usize = 0;
    assert(start =~= start + decisions_by(decisions@.take(0), role@));
    while i < decisions.len()
        invariant
            i <= decisions.len(),
            recorded_views(lines@) == start + decisions_by(decisions@.take(i as int), role@),
        decreases decisions.len() - i,
    {
        assert(decisions@.take(i + 1).drop_last() =~= decisions@.take(i as int));
        if has_role(&decisions[i].role, role) {
            let line = RecordedLine::Decision {
                key: decisions[i].key.clone(),
                value: decisions[i].value.clone(),
            };
            let ghost before = recorded_views(lines@);
            lines.push(line);
            assert(recorded_views(lines@) =~= before.push(line@));
            assert(recorded_views(lines@) =~= start + decisions_by(decisions@.take(i + 1), role@));
        }
        i += 1;
    }
    assert(decisions@.take(i as int) =~= decisions@);
}

fn add_evidence(lines: &mut Vec<RecordedLine>, evidence: &Vec<Evidence>, role: &String)
    ensures
        recorded_views(final(lines)@) == recorded_views(old(lines)@) + evidence_by(evidence@, role@),
{
    let ghost start = recorded_views(lines@);
    let mut i: usize = 0;
    assert(start =~= start + evidence_by(evidence@.take(0), role@));
    while i < evidence.len()
        invariant
            i <= evidence.len(),
            recorded_views(lines@) == start + evidence_by(evidence@.take(i as int), role@),
        decreases evidence.len() - i,
    {
        assert(evidence@.take(i + 1).drop_last() =~= evidence@.take(i as int));
        if has_role(&evidence[i].role, role) {
            let succeeded = evidence[i].exit_code == Some(0i32);
            let line = RecordedLine::Evidence {
                icon: if succeeded {
                    IconName::Check
                } else {
                    IconName::XCircle
                },
                color: if succeeded {
                    Color::Success
                } else {
                    Color::Error
                },
                command: evidence[i].command.clone(),
            };
            let ghost before = recorded_views(lines@);
            lines.push(line);
            assert(recorded_views(lines@) =~= before.push(line@));
            assert(recorded_views(lines@) =~= start + evidence_by(evidence@.take(i + 1), role@));
        }
        i += 1;
    }
    assert(evidence@.take(i as int) =~= evidence@);
}

/// A part of the page with a name and a text.
pub struct TextSection {
    pub title: BilingualLabel,
    pub text: String,
}

/// The page, from top to bottom.
pub struct DashboardView {
    pub header: DashboardHeader,
    pub summary: Option<DashboardSummary>,
    /// What is said where the thread is not loaded.
    pub not_loaded: Option<(&'static str, &'static str)>,
    /// What is said where nothing is in flight, or where a response is awaited.
    pub notice: Option<&'static str>,
    pub permission: Option<PermissionView>,
    pub recent_instruction: Option<TextSection>,
    pub recent_response: Option<TextSection>,
    pub queued: Option<Label>,
    pub current_tool_call: Option<(BilingualLabel, ToolCallView)>,
    pub changes: Option<(BilingualLabel, Vec<FileLine>)>,
    pub recorded_title: BilingualLabel,
    pub recorded: Vec<RecordedLine>,
    pub composer: Option<ComposerView>,
}

/// Whether a section reads a text under a name.
pub open spec fn section_reads(
    section: Option<TextSection>,
    english: Seq<char>,
    chinese: Seq<char>,
    text: Option<Seq<char>>,
) -> bool {
    match text {
        Some(t) => section matches Some(s) && s.title.reads(english, chinese) && s.text@ == t,
        None => section is None,
    }
}

fn text_section(english: &'static str, chinese: &'static str, text: &Option<String>) -> (r: Option<
    TextSection,
>)
    ensures
        section_reads(r, english@, chinese@, opt_view(*text)),
{
    match text {
        Some(t) => Some(TextSection { title: bilingual_label(english, chinese), text: t.clone() }),
        None => None,
    }
}

/// What is said of a thread with nothing to execute: that nothing is in flight, or that a
/// response is awaited.
pub open spec fn notice_of(s: WorkerSnapshot) -> Option<Seq<char>> {
    if s.idle() {
        Some("Nothing in flight right now"@)
    } else if s.generating && s.permission is None && s.current_tool_call is None {
        Some("Waiting for response"@)
    } else {
        None
    }
}

impl WorkerDashboard {
    /// Whether `r` is the head of the page.
    pub open spec fn shows_header(
        self,
        r: DashboardHeader,
        thread: Option<Thread>,
        names: Option<AgentNames>,
        threads: Seq<ThreadMetadata>,
    ) -> bool {
        &&& r.role == self.role
        &&& r.status.reads(page_status(thread).0, page_status(thread).1)
        &&& r.open_thread.reads(
            "Open thread"@,
            Some("Show this worker's thread in the agent panel"@),
        )
        &&& match r.hand_off {
            Some(button) => self.peers(threads).len() > 0 && button.reads(
                "Hand off…"@,
                Some("Pass this worker's current task to another worker"@),
            ),
            None => self.peers(threads).len() == 0,
        }
        &&& r.peers@.len() == self.peers(threads).len()
        &&& forall|i: int|
            0 <= i < r.peers@.len() ==> is_peer_entry(#[trigger] r.peers@[i], self.peers(threads)[i])
        &&& match r.stop {
            Some(button) => state_of_source(thread) == MissionThreadState::Running && button.reads(
                "Stop"@,
                None,
            ),
            None => state_of_source(thread) != MissionThreadState::Running,
        }
        &&& opt_view(r.agent_label) == match names {
            Some(n) => Some(harness_name(n.display_name, n.agent_label)),
            None => None,
        }
        &&& r.mission@ == "sub-session of "@ + self.mission_title@
    }

    /// The head of the page. `names` are those of the worker's agent, where its stored thread
    /// is found among `threads`.
    pub fn render_header(
        &self,
        thread: &Option<Thread>,
        names: &Option<AgentNames>,
        threads: &Vec<ThreadMetadata>,
    ) -> (r: DashboardHeader)
        ensures
            self.shows_header(r, *thread, *names, threads@),
    {
        let state = thread_mission_state(thread);
        let (default_label, color) = worker_status(state);
        let idle_turn = match thread {
            Some(t) => active_tool_call(t).is_none(),
            None => false,
        };
        let status_label = if state == MissionThreadState::Running && idle_turn {
            "Waiting for response"
        } else {
            default_label
        };
        let peers = self.peer_workers(threads);
        let mut entries: Vec<PeerEntry> = Vec::new();
        let mut i: usize = 0;
        while i < peers.len()
            invariant
                i <= peers.len(),
                entries.len() == i,
                forall|j: int| 0 <= j < i ==> is_peer_entry(#[trigger] entries@[j], peers@[j]),
            decreases peers.len() - i,
        {
            entries.push(
                PeerEntry { thread_id: peers[i].thread_id, label: worker_label(&peers[i]) },
            );
            i += 1;
        }
        let agent_label = match names {
            Some(n) => match &n.display_name {
                Some(name) => Some(name.clone()),
                None => Some(n.agent_label.clone()),
            },
            None => None,
        };
        let mut mission = "sub-session of ".to_owned();
        mission.append(self.mission_title.as_str());
        DashboardHeader {
            role: self.role.clone(),
            status: Label::new(status_label.to_owned(), color),
            open_thread: Button::new(
                "Open thread",
                Some("Show this worker's thread in the agent panel"),
            ),
            hand_off: if peers.len() > 0 {
                Some(
                    Button::new(
                        "Hand off…",
                        Some("Pass this worker's current task to another worker"),
                    ),
                )
            } else {
                None
            },
            peers: entries,
            stop: if state == MissionThreadState::Running {
                Some(Button::new("Stop", None))
            } else {
                None
            },
            agent_label,
            mission,
        }
    }

    /// Whether `r` is the line under the head.
    pub open spec fn shows_summary(
        self,
        r: DashboardSummary,
        thread: Option<Thread>,
        s: WorkerSnapshot,
    ) -> bool {
        &&& opt_view(r.tokens) == match thread {
            Some(t) => match t.used_tokens {
                Some(n) => Some(token_count(n as nat) + " tokens"@),
                None => None,
            },
            None => None,
        }
        &&& opt_view(r.cost) == match thread {
            Some(t) => match t.cost {
                Some(cost) => Some("$"@ + cost@),
                None => None,
            },
            None => None,
        }
        &&& match s.permission {
            Some(p) => r.blocked.reads("blocked: "@ + p.label@, Color::Warning),
            None => r.blocked.reads("not blocked"@, Color::Muted),
        }
    }

    /// The line under the head: what the thread has used, and what it is blocked on.
    pub fn render_summary(
        &self,
        thread: &Option<Thread>,
        snapshot: &WorkerSnapshot,
    ) -> (r: DashboardSummary)
        ensures
            self.shows_summary(r, *thread, *snapshot),
    {
        let tokens = match thread {
            Some(t) => match t.used_tokens {
                Some(n) => {
                    let mut text = format_token_count(n);
                    text.append(" tokens");
                    Some(text)
                },
                None => None,
            },
            None => None,
        };
        let cost = match thread {
            Some(t) => match &t.cost {
                Some(cost) => {
                    let mut text = "$".to_owned();
                    text.append(cost.as_str());
                    Some(text)
                },
                None => None,
            },
            None => None,
        };
        let blocked = match &snapshot.permission {
            Some(permission) => {
                let mut text = "blocked: ".to_owned();
                text.append(permission.label.as_str());
                Label::new(text, Color::Warning)
            },
            None => Label::new("not blocked".to_owned(), Color::Muted),
        };
        DashboardSummary { tokens, cost, blocked }
    }

    /// Whether `r` is the field for an instruction.
    pub open spec fn shows_composer(
        self,
        r: ComposerView,
        thread_loaded: bool,
        queued_messages: int,
        use_modifier_to_send: bool,
    ) -> bool {
        let blank = trimmed(self.instruction_text@).len() == 0;
        &&& r.can_send == (thread_loaded && !blank)
        &&& r.hint@ == composer_hint(
            opt_view(self.feedback),
            queued_messages,
            r.can_send,
            thread_loaded,
            use_modifier_to_send,
        )
        &&& r.placeholder@ == "Send an instruction to this worker…"@
        &&& r.send.reads("Send"@, None)
        &&& match r.restore {
            Some(button) => self.failed_instructions@.len() > 0 && button.reads(
                "Restore failed instruction"@,
                None,
            ),
            None => self.failed_instructions@.len() == 0,
        }
        &&& r.can_restore == blank
    }

    /// The field for an instruction: what is said beside it, and what can be done.
    pub fn render_composer(
        &self,
        thread_loaded: bool,
        queued_messages: usize,
        use_modifier_to_send: bool,
    ) -> (r: ComposerView)
        ensures
            self.shows_composer(r, thread_loaded, queued_messages as int, use_modifier_to_send),
    {
        let blank = trim(self.instruction_text.as_str()).as_str().unicode_len() == 0;
        let can_send = thread_loaded && !blank;
        let shown = match &self.feedback {
            Some(text) => if starts_with(text.as_str(), "Queued") && queued_messages == 0 {
                None
            } else {
                Some(text.clone())
            },
            None => None,
        };
        let hint = match shown {
            Some(text) => text,
            None => if can_send {
                if use_modifier_to_send {
                    "Modifier+Enter sends · Enter inserts a newline".to_owned()
                } else {
                    "Enter sends · Shift+Enter inserts a newline".to_owned()
                }
            } else if thread_loaded {
                "Type an instruction to send".to_owned()
            } else {
                "Open the thread first to send an instruction".to_owned()
            },
        };
        ComposerView {
            placeholder: "Send an instruction to this worker…",
            hint,
            send: Button::new("Send", None),
            can_send,
            restore: if self.failed_instructions.len() > 0 {
                Some(Button::new("Restore failed instruction", None))
            } else {
                None
            },
            can_restore: blank,
        }
    }

    /// What the worker recorded: the decisions and evidence of its role, or why there are
    /// none.
    pub fn render_recorded(&self) -> (r: Vec<RecordedLine>)
        ensures
            recorded_views(r@) == recorded_lines(self.context_state, self.role@),
    {
        let mut lines: Vec<RecordedLine> = Vec::new();
        match &self.context_state {
            WorkerContextState::Loading => {
                lines.push(RecordedLine::Message("Loading…"));
            },
            WorkerContextState::Unavailable => {
                lines.push(RecordedLine::Message("Shared Context unavailable"));
            },
            WorkerContextState::Loaded(context) => {
                add_decisions(&mut lines, &context.decisions, &self.role);
                add_evidence(&mut lines, &context.evidence, &self.role);
                assert(recorded_views(lines@) =~= decisions_by(context.decisions@, self.role@)
                    + evidence_by(context.evidence@, self.role@));
                assert(recorded_views(lines@).len() == lines.len());
                if lines.len() == 0 {
                    lines.push(RecordedLine::Message("Nothing recorded yet"));
                }
            },
        }
        assert(recorded_views(lines@) =~= recorded_lines(self.context_state, self.role@));
        lines
    }

    /// Whether `r` is the page, `s` being the snapshot of the worker's thread.
    pub open spec fn shows_page(
        self,
        r: DashboardView,
        s: WorkerSnapshot,
        thread: Option<Thread>,
        names: Option<AgentNames>,
        threads: Seq<ThreadMetadata>,
        use_modifier_to_send: bool,
    ) -> bool {
        &&& self.shows_header(r.header, thread, names, threads)
        &&& match r.summary {
            Some(summary) => s.thread_loaded && self.shows_summary(summary, thread, s),
            None => !s.thread_loaded,
        }
        &&& match r.not_loaded {
            Some((title, hint)) => !s.thread_loaded && title@ == "This worker's thread isn't loaded"@
                && hint@ == "Open the thread to see what it is running right now."@,
            None => s.thread_loaded,
        }
        &&& opt_str(r.notice) == notice_of(s)
        &&& match s.permission {
            Some(p) => r.permission matches Some(view) && shows_permission(view, p),
            None => r.permission is None,
        }
        &&& section_reads(
            r.recent_instruction,
            "LATEST INSTRUCTION"@,
            "最近指令"@,
            opt_view(s.recent_instruction),
        )
        &&& section_reads(
            r.recent_response,
            "LATEST RESPONSE"@,
            "最新回复"@,
            opt_view(s.recent_response),
        )
        &&& match r.queued {
            Some(label) => s.queued_messages > 0 && label.reads(
                decimal(s.queued_messages as nat) + " instruction(s) queued"@,
                Color::Warning,
            ),
            None => s.queued_messages == 0,
        }
        &&& match s.current_tool_call {
            Some(call) => r.current_tool_call matches Some(view) && view.0.reads(
                "CURRENT TOOL CALL"@,
                "当前工具调用"@,
            ) && shows_tool_call(view.1, call),
            None => r.current_tool_call is None,
        }
        &&& match r.changes {
            Some((title, lines)) => s.changes@.len() > 0 && title.reads(
                "ITS CHANGES"@,
                "本 Worker 的变更"@,
            ) && shows_files(lines@, s.changes@),
            None => s.changes@.len() == 0,
        }
        &&& r.recorded_title.reads("RECORDED TO SHARED CONTEXT"@, "写入共享上下文"@)
        &&& recorded_views(r.recorded@) == recorded_lines(self.context_state, self.role@)
        &&& match r.composer {
            Some(composer) => s.thread_loaded && self.shows_composer(
                composer,
                true,
                s.queued_messages as int,
                use_modifier_to_send,
            ),
            None => !s.thread_loaded,
        }
    }

    /// The page, from top to bottom. Without a loaded thread only who the worker is and what
    /// it recorded is shown.
    pub fn render(
        &self,
        thread: &Option<Thread>,
        names: &Option<AgentNames>,
        threads: &Vec<ThreadMetadata>,
        use_modifier_to_send: bool,
    ) -> (r: DashboardView)
        ensures
            exists|s: WorkerSnapshot| #[trigger]
                self.shows_page(r, s, *thread, *names, threads@, use_modifier_to_send) && match *thread {
                    Some(t) => worker_snapshot_is(
                        s,
                        t,
                        opt_view(self.latest_submitted_instruction),
                    ),
                    None => s.is_unloaded(),
                },
    {
        let snapshot = match thread {
            Some(t) => self.snapshot(Some(t)),
            None => self.snapshot(None),
        };
        let thread_loaded = snapshot.thread_loaded;
        let notice = if snapshot.is_idle() {
            Some("Nothing in flight right now")
        } else if snapshot.generating && snapshot.permission.is_none()
            && snapshot.current_tool_call.is_none() {
            Some("Waiting for response")
        } else {
            None
        };
        let permission = match &snapshot.permission {
            Some(p) => Some(render_permission_request(p)),
            None => None,
        };
        let queued = if snapshot.queued_messages > 0 {
            let mut text = decimal_text(snapshot.queued_messages as u64);
            text.append(" instruction(s) queued");
            Some(Label::new(text, Color::Warning))
        } else {
            None
        };
        let current_tool_call = match &snapshot.current_tool_call {
            Some(call) => Some(
                (
                    bilingual_label("CURRENT TOOL CALL", "当前工具调用"),
                    render_current_tool_call(call),
                ),
            ),
            None => None,
        };
        let changes = if snapshot.changes.len() > 0 {
            Some((bilingual_label("ITS CHANGES", "本 Worker 的变更"), render_changes(&snapshot.changes)))
        } else {
            None
        };
        let view = DashboardView {
            header: self.render_header(thread, names, threads),
            summary: if thread_loaded {
                Some(self.render_summary(thread, &snapshot))
            } else {
                None
            },
            not_loaded: if thread_loaded {
                None
            } else {
                Some(
                    (
                        "This worker's thread isn't loaded",
                        "Open the thread to see what it is running right now.",
                    ),
                )
            },
            notice,
            permission,
            recent_instruction: text_section(
                "LATEST INSTRUCTION",
                "最近指令",
                &snapshot.recent_instruction,
            ),
            recent_response: text_section(
                "LATEST RESPONSE",
                "最新回复",
                &snapshot.recent_response,
            ),
            queued,
            current_tool_call,
            changes,
            recorded_title: bilingual_label("RECORDED TO SHARED CONTEXT", "写入共享上下文"),
            recorded: self.render_recorded(),
            composer: if thread_loaded {
                Some(
                    self.render_composer(
                        thread_loaded,
                        snapshot.queued_messages,
                        use_modifier_to_send,
                    ),
                )
            } else {
                None
            },
        };
        assert(self.shows_page(view, snapshot, *thread, *names, threads@, use_modifier_to_send));
        view
    }

    /// The page's tab: the worker's name, muted unless the tab is selected, and a dot in the
    /// colour of its state.
    pub fn tab_content(&self, thread: &Option<Thread>, selected: bool) -> (r: (Label, Color))
        ensures
            r.0.text == self.role,
            r.0.color == if selected {
                Color::Default
            } else {
                Color::Muted
            },
            r.1 == status_of(state_of_source(*thread)).1,
    {
        let (_, color) = worker_status(thread_mission_state(thread));
        (
            Label::new(
                self.role.clone(),
                if selected {
                    Color::Default
                } else {
                    Color::Muted
                },
            ),
            color,
        )
    }
}

/// A decision that carries a worker's role is on that worker's page, whoever recorded it.
pub proof fn a_workers_decision_is_on_its_page(context: MissionContext, role: Seq<char>, i: int)
    requires
        0 <= i < context.decisions@.len(),
        opt_view(context.decisions@[i].role) == Some(role),
    ensures
        recorded_lines(WorkerContextState::Loaded(context), role).contains(
            RecordedView::Decision {
                key: context.decisions@[i].key@,
                value: context.decisions@[i].value@,
            },
        ),
{
    let rows = decisions_by(context.decisions@, role);
    let line = RecordedView::Decision {
        key: context.decisions@[i].key@,
        value: context.decisions@[i].value@,
    };
    listed_decisions_contain(context.decisions@, role, i);
    contains_in_sum(rows, evidence_by(context.evidence@, role));
    let all = rows + evidence_by(context.evidence@, role);
    assert(all.contains(line));
}

proof fn listed_decisions_contain(decisions: Seq<Decision>, role: Seq<char>, i: int)
    requires
        0 <= i < decisions.len(),
        opt_view(decisions[i].role) == Some(role),
    ensures
        decisions_by(decisions, role).contains(
            RecordedView::Decision { key: decisions[i].key@, value: decisions[i].value@ },
        ),
    decreases decisions.len(),
{
    let rest = decisions.drop_last();
    let before = decisions_by(rest, role);
    let row = decisions.last();
    contains_after_push(before, RecordedView::Decision { key: row.key@, value: row.value@ });
    if i < rest.len() {
        listed_decisions_contain(rest, role, i);
    }
}

} // verus!
