//! Agent threads as the mission surfaces read them: who a thread is, what it has said and
//! done, and what it is doing now.

use vstd::prelude::*;
use crate::mission_id::MissionId;
use crate::text::clone_opt;
use crate::text::from_chars;
use crate::text::opt_view;
use crate::text::to_chars;
use crate::text::trim;
use crate::text::trimmed;
use crate::time::Timestamp;

verus! {

/// Identifies one thread.
#[derive(Clone, Copy, Debug, PartialEq, Eq, Hash, Structural)]
pub struct ThreadId {
    pub value: u128,
}

/// A task that one or more workers share.
pub struct Mission {
    pub id: MissionId,
    pub title: String,
    pub created_at: Timestamp,
}

impl Clone for Mission {
    fn clone(&self) -> (r: Self)
        ensures
            r == *self,
    {
        Mission { id: self.id, title: self.title.clone(), created_at: self.created_at }
    }
}

/// What is stored of a thread: the agent that runs it, the title it is shown under, and the
/// mission and role it has, if any.
pub struct ThreadMetadata {
    pub thread_id: ThreadId,
    pub agent_id: String,
    pub display_title: String,
    pub mission_id: Option<MissionId>,
    pub role: Option<String>,
}

impl Clone for ThreadMetadata {
    fn clone(&self) -> (r: Self)
        ensures
            r == *self,
    {
        ThreadMetadata {
            thread_id: self.thread_id,
            agent_id: self.agent_id.clone(),
            display_title: self.display_title.clone(),
            mission_id: self.mission_id,
            role: clone_opt(&self.role),
        }
    }
}

#[derive(Clone, Copy, Debug, PartialEq, Eq, Structural)]
pub enum ToolKind {
    Read,
    Edit,
    Delete,
    Move,
    Search,
    Execute,
    Think,
    Fetch,
    SwitchMode,
    Other,
}

#[derive(Clone, Copy, Debug, PartialEq, Eq, Structural)]
pub enum PermissionOptionKind {
    AllowOnce,
    AllowAlways,
    RejectOnce,
    RejectAlways,
}

/// One answer that a permission prompt offers.
pub struct PermissionOption {
    pub option_id: String,
    pub kind: PermissionOptionKind,
}

impl Clone for PermissionOption {
    fn clone(&self) -> (r: Self)
        ensures
            r == *self,
    {
        PermissionOption { option_id: self.option_id.clone(), kind: self.kind }
    }
}

pub enum ToolCallStatus {
    Pending,
    WaitingForConfirmation(Vec<PermissionOption>),
    InProgress,
    Completed,
    Failed,
    Rejected,
    Canceled,
}

/// A piece of what a tool call shows; a terminal goes by its id.
pub enum ToolCallContent {
    Terminal(String),
    Other,
}

pub struct ToolCall {
    pub id: String,
    pub label: String,
    pub kind: ToolKind,
    pub status: ToolCallStatus,
    pub content: Vec<ToolCallContent>,
    /// The paths that the call is about.
    pub locations: Vec<String>,
}

/// A piece of an assistant's message, as Markdown.
pub enum MessageChunk {
    Message(String),
    Thought(String),
}

/// An assistant's message: all of it as Markdown, and its pieces.
pub struct AssistantMessage {
    pub markdown: String,
    pub chunks: Vec<MessageChunk>,
}

pub enum ThreadEntry {
    /// What the user said, as Markdown.
    UserMessage(String),
    AssistantMessage(AssistantMessage),
    ToolCall(ToolCall),
    Other,
}

#[derive(Clone, Copy, Debug, PartialEq, Eq, Structural)]
pub enum ThreadStatus {
    Idle,
    Generating,
}

/// One file that a thread has changed.
pub struct ChangedFile {
    pub name: String,
    pub lines_added: u32,
    pub lines_removed: u32,
}

/// A thread that is loaded.
pub struct Thread {
    pub entries: Vec<ThreadEntry>,
    pub status: ThreadStatus,
    pub had_error: bool,
    pub waiting_for_confirmation: bool,
    pub is_draft: bool,
    pub used_tokens: Option<u64>,
    /// What the thread has cost in dollars, with two decimals.
    pub cost: Option<String>,
    pub changes: Vec<ChangedFile>,
    /// How many messages wait for the current turn to finish.
    pub queued_messages: usize,
}

/// The position of the last user message, or -1.
pub open spec fn last_user(entries: Seq<ThreadEntry>) -> int
    decreases entries.len(),
{
    if entries.len() == 0 {
        -1
    } else if entries.last() is UserMessage {
        entries.len() - 1
    } else {
        last_user(entries.drop_last())
    }
}

/// The position of the last user message.
pub fn last_user_message(entries: &Vec<ThreadEntry>) -> (r: Option<usize>)
    ensures
        match r {
            Some(i) => last_user(entries@) == i && i < entries.len() && entries[i as int] is UserMessage,
            None => last_user(entries@) == -1,
        },
{
    let mut i: usize = entries.len();
    assert(entries@.take(i as int) =~= entries@);
    while i > 0
        invariant
            i <= entries.len(),
            last_user(entries@) == last_user(entries@.take(i as int)),
        decreases i,
    {
        let ghost here = entries@.take(i as int);
        assert(here.last() == entries[i - 1]);
        assert(here.drop_last() =~= entries@.take(i - 1));
        if matches!(&entries[i - 1], ThreadEntry::UserMessage(_)) {
            return Some(i - 1);
        }
        i -= 1;
    }
    None
}

/// The tool call that the thread is blocked on: the last one that waits, unless the user has
/// spoken since.
pub open spec fn pending_call(entries: Seq<ThreadEntry>) -> Option<ToolCall>
    decreases entries.len(),
{
    if entries.len() == 0 {
        None
    } else {
        match entries.last() {
            ThreadEntry::UserMessage(_) => None,
            ThreadEntry::ToolCall(call) => if call.status is WaitingForConfirmation {
                Some(call)
            } else {
                pending_call(entries.drop_last())
            },
            _ => pending_call(entries.drop_last()),
        }
    }
}

/// The tool call that the thread is executing: the last one that is pending or in progress.
pub open spec fn running_call(entries: Seq<ThreadEntry>) -> Option<ToolCall>
    decreases entries.len(),
{
    if entries.len() == 0 {
        None
    } else {
        match entries.last() {
            ThreadEntry::ToolCall(call) => if call.status is InProgress || call.status is Pending {
                Some(call)
            } else {
                running_call(entries.drop_last())
            },
            _ => running_call(entries.drop_last()),
        }
    }
}

/// The tool call that the worker is blocked on, if it is blocked.
pub fn pending_permission(thread: &Thread) -> (r: Option<&ToolCall>)
    ensures
        match r {
            Some(call) => pending_call(thread.entries@) == Some(*call),
            None => pending_call(thread.entries@) is None,
        },
{
    let entries = &thread.entries;
    let mut i: usize = entries.len();
    assert(entries@.take(i as int) =~= entries@);
    while i > 0
        invariant
            i <= entries.len(),
            *entries == thread.entries,
            pending_call(entries@) == pending_call(entries@.take(i as int)),
        decreases i,
    {
        let ghost here = entries@.take(i as int);
        assert(here.last() == entries[i - 1]);
        assert(here.drop_last() =~= entries@.take(i - 1));
        match &entries[i - 1] {
            ThreadEntry::UserMessage(_) => return None,
            ThreadEntry::ToolCall(call) => {
                if matches!(&call.status, ToolCallStatus::WaitingForConfirmation(_)) {
                    return Some(call);
                }
            },
            _ => {},
        }
        i -= 1;
    }
    None
}

/// The tool call that the worker is executing, if any.
pub fn active_tool_call(thread: &Thread) -> (r: Option<&ToolCall>)
    ensures
        match r {
            Some(call) => running_call(thread.entries@) == Some(*call),
            None => running_call(thread.entries@) is None,
        },
{
    let entries = &thread.entries;
    let mut i: usize = entries.len();
    assert(entries@.take(i as int) =~= entries@);
    while i > 0
        invariant
            i <= entries.len(),
            *entries == thread.entries,
            running_call(entries@) == running_call(entries@.take(i as int)),
        decreases i,
    {
        let ghost here = entries@.take(i as int);
        assert(here.last() == entries[i - 1]);
        assert(here.drop_last() =~= entries@.take(i - 1));
        match &entries[i - 1] {
            ThreadEntry::ToolCall(call) => {
                if matches!(&call.status, ToolCallStatus::InProgress | ToolCallStatus::Pending) {
                    return Some(call);
                }
            },
            _ => {},
        }
        i -= 1;
    }
    None
}

/// What the worker is executing right now, in one line.
pub open spec fn activity_label(entries: Seq<ThreadEntry>) -> Option<Seq<char>> {
    match running_call(entries) {
        Some(call) => Some(call.label@),
        None => None,
    }
}

/// What the worker is executing right now, in one line.
pub fn active_tool_call_label(thread: &Thread) -> (r: Option<String>)
    ensures
        opt_view(r) == activity_label(thread.entries@),
{
    match active_tool_call(thread) {
        Some(call) => Some(call.label.clone()),
        None => None,
    }
}

/// A permission prompt as it is shown and answered.
pub struct PendingPermission {
    pub tool_call_id: String,
    pub label: String,
    pub allow: Option<PermissionOption>,
    pub reject: Option<PermissionOption>,
}

fn clone_option(option: &Option<PermissionOption>) -> (r: Option<PermissionOption>)
    ensures
        r == *option,
{
    match option {
        Some(o) => Some(o.clone()),
        None => None,
    }
}

impl Clone for PendingPermission {
    fn clone(&self) -> (r: Self)
        ensures
            r == *self,
    {
        PendingPermission {
            tool_call_id: self.tool_call_id.clone(),
            label: self.label.clone(),
            allow: clone_option(&self.allow),
            reject: clone_option(&self.reject),
        }
    }
}

/// The first option of a kind.
pub open spec fn first_of_kind(
    options: Seq<PermissionOption>,
    kind: PermissionOptionKind,
) -> Option<PermissionOption>
    decreases options.len(),
{
    if options.len() == 0 {
        None
    } else {
        match first_of_kind(options.drop_last(), kind) {
            Some(option) => Some(option),
            None => if options.last().kind == kind {
                Some(options.last())
            } else {
                None
            },
        }
    }
}

proof fn first_of_kind_extends(options: Seq<PermissionOption>, kind: PermissionOptionKind, n: int)
    requires
        0 <= n <= options.len(),
        first_of_kind(options.take(n), kind) is Some,
    ensures
        first_of_kind(options, kind) == first_of_kind(options.take(n), kind),
    decreases options.len() - n,
{
    if n < options.len() {
        assert(options.take(n + 1).drop_last() =~= options.take(n));
        first_of_kind_extends(options, kind, n + 1);
    } else {
        assert(options.take(n) =~= options);
    }
}

fn first_option_of_kind(options: &Vec<PermissionOption>, kind: PermissionOptionKind) -> (r: Option<
    PermissionOption,
>)
    ensures
        r == first_of_kind(options@, kind),
{
    let mut i: usize = 0;
    while i < options.len()
        invariant
            i <= options.len(),
            first_of_kind(options@.take(i as int), kind) is None,
        decreases options.len() - i,
    {
        assert(options@.take(i + 1).drop_last() =~= options@.take(i as int));
        if options[i].kind == kind {
            proof {
                first_of_kind_extends(options@, kind, i + 1);
            }
            return Some(options[i].clone());
        }
        i += 1;
    }
    assert(options@.take(i as int) =~= options@);
    None
}

/// Whether `p` is the prompt of a tool call that waits.
pub open spec fn prompts(call: ToolCall, p: PendingPermission) -> bool {
    match call.status {
        ToolCallStatus::WaitingForConfirmation(options) => {
            &&& p.tool_call_id == call.id
            &&& p.label == call.label
            &&& p.allow == first_of_kind(options@, PermissionOptionKind::AllowOnce)
            &&& p.reject == first_of_kind(options@, PermissionOptionKind::RejectOnce)
        },
        _ => false,
    }
}

/// Whether `p` is the prompt that blocks a thread with these entries.
pub open spec fn permission_is(entries: Seq<ThreadEntry>, p: Option<PendingPermission>) -> bool {
    match pending_call(entries) {
        Some(call) => p matches Some(prompt) && prompts(call, prompt),
        None => p is None,
    }
}

proof fn a_pending_call_waits(entries: Seq<ThreadEntry>)
    ensures
        pending_call(entries) matches Some(call) ==> call.status is WaitingForConfirmation,
    decreases entries.len(),
{
    if entries.len() > 0 {
        a_pending_call_waits(entries.drop_last());
    }
}

impl PendingPermission {
    /// The prompt that blocks a thread, if one does.
    pub fn for_thread(thread: &Thread) -> (r: Option<Self>)
        ensures
            permission_is(thread.entries@, r),
    {
        proof {
            a_pending_call_waits(thread.entries@);
        }
        match pending_permission(thread) {
            Some(call) => Self::from_tool_call(call),
            None => None,
        }
    }

    /// The prompt of a tool call, where the call waits for permission.
    fn from_tool_call(call: &ToolCall) -> (r: Option<Self>)
        ensures
            match r {
                Some(p) => prompts(*call, p),
                None => !(call.status is WaitingForConfirmation),
            },
    {
        match &call.status {
            ToolCallStatus::WaitingForConfirmation(options) => {
                Some(
                    PendingPermission {
                        tool_call_id: call.id.clone(),
                        label: call.label.clone(),
                        allow: first_option_of_kind(options, PermissionOptionKind::AllowOnce),
                        reject: first_option_of_kind(options, PermissionOptionKind::RejectOnce),
                    },
                )
            },
            _ => None,
        }
    }
}

/// How a worker is named: by its role in the mission, or else by its thread's title.
pub open spec fn label_of(metadata: ThreadMetadata) -> Seq<char> {
    match metadata.role {
        Some(role) => role@,
        None => metadata.display_title@,
    }
}

/// How a worker is named: by its role in the mission, or else by its thread's title.
pub fn worker_label(metadata: &ThreadMetadata) -> (r: String)
    ensures
        r@ == label_of(*metadata),
{
    match &metadata.role {
        Some(role) => role.clone(),
        None => metadata.display_title.clone(),
    }
}

/// Where the line that starts at `from` ends.
pub open spec fn line_end(s: Seq<char>, from: int) -> int
    decreases s.len() - from,
{
    if from >= s.len() {
        s.len() as int
    } else if s[from] == '\n' {
        from
    } else {
        line_end(s, from + 1)
    }
}

/// The first line from `from` on that says something: trimmed, not empty and no heading.
pub open spec fn summary_line(s: Seq<char>, from: int) -> Option<Seq<char>>
    decreases s.len() - from,
{
    let end = line_end(s, from);
    if from < 0 || end < from || end > s.len() {
        None
    } else {
        let line = trimmed(s.subrange(from, end));
        if line.len() > 0 && line[0] != '#' {
            Some(line)
        } else if end < s.len() {
            summary_line(s, end + 1)
        } else {
            None
        }
    }
}

/// The last message of the assistant.
pub open spec fn last_assistant(entries: Seq<ThreadEntry>) -> Option<AssistantMessage>
    decreases entries.len(),
{
    if entries.len() == 0 {
        None
    } else {
        match entries.last() {
            ThreadEntry::AssistantMessage(message) => Some(message),
            _ => last_assistant(entries.drop_last()),
        }
    }
}

/// The line that sums up a thread.
pub open spec fn assistant_summary(entries: Seq<ThreadEntry>) -> Option<Seq<char>> {
    match last_assistant(entries) {
        Some(message) => summary_line(message.markdown@, 0),
        None => None,
    }
}

fn first_summary_line(text: &str) -> (r: Option<String>)
    ensures
        opt_view(r) == summary_line(text@, 0),
{
    let chars = to_chars(text);
    let n: usize = chars.len();
    let mut from: usize = 0;
    loop
        invariant
            from <= n == chars.len(),
            chars@ == text@,
            summary_line(text@, 0) == summary_line(text@, from as int),
        decreases n - from,
    {
        let mut end: usize = from;
        while end < n && chars[end] != '\n'
            invariant
                from <= end <= n == chars.len(),
                chars@ == text@,
                line_end(text@, from as int) == line_end(text@, end as int),
            decreases n - end,
        {
            end += 1;
        }
        assert(line_end(text@, from as int) == end);
        let line = trim(from_chars(&chars, from, end).as_str());
        if line.as_str().unicode_len() > 0 && line.as_str().get_char(0) != '#' {
            return Some(line);
        }
        if end == n {
            return None;
        }
        from = end + 1;
    }
}

/// The worker's most recent assistant message, in one line.
pub fn last_assistant_summary(thread: &Thread) -> (r: Option<String>)
    ensures
        opt_view(r) == assistant_summary(thread.entries@),
{
    let entries = &thread.entries;
    let mut i: usize = entries.len();
    assert(entries@.take(i as int) =~= entries@);
    while i > 0
        invariant
            i <= entries.len(),
            *entries == thread.entries,
            last_assistant(entries@) == last_assistant(entries@.take(i as int)),
        decreases i,
    {
        let ghost here = entries@.take(i as int);
        assert(here.last() == entries[i - 1]);
        assert(here.drop_last() =~= entries@.take(i - 1));
        match &entries[i - 1] {
            ThreadEntry::AssistantMessage(message) => {
                return first_summary_line(message.markdown.as_str());
            },
            _ => {},
        }
        i -= 1;
    }
    None
}

/// A stored thread as the surfaces find it: with the loaded thread where there is one, the
/// name that its agent's server gives itself and the name that the agent has without it.
pub struct WorkerSource {
    pub metadata: ThreadMetadata,
    pub thread: Option<Thread>,
    pub display_name: Option<String>,
    pub agent_label: String,
}

} // verus!
