//! Creating missions: which threads a mission starts with, how it registers its server of
//! shared context, and the state that its threads add up to.

use vstd::prelude::*;
use crate::lists::contains_after_push;
use crate::mission_id::hyphenated_form;
use crate::mission_id::MissionId;
use crate::shared_context::DB_PATH_ENV_VAR;
use crate::text::ascii_lower;
use crate::text::clone_opt;
use crate::text::clone_strings;
use crate::text::contains_string;
use crate::text::is_ascii_text;
use crate::text::lowercased;
use crate::text::opt_view;
use crate::text::text_eq;
use crate::text::to_lowercase;
use crate::text::trim;
use crate::text::trimmed;
use crate::text::views;
use crate::thread::last_user;
use crate::thread::last_user_message;
use crate::thread::Mission;
use crate::thread::Thread;
use crate::thread::ThreadEntry;
use crate::thread::ThreadMetadata;
use crate::thread::ThreadStatus;
use crate::thread::ToolCallStatus;
use crate::thread::WorkerSource;

verus! {

pub const SHARED_CONTEXT_SERVER_ID: &'static str = "shared-context";

pub const SHARED_CONTEXT_SERVER_BINARY: &'static str = "shared-context-mcp";

/// The state that a mission's threads add up to.
#[derive(Clone, Copy, Debug, PartialEq, Eq, Structural)]
pub enum MissionState {
    Created,
    Running,
    Waiting,
    Completed,
    Failed,
}

/// The state of one thread.
#[derive(Clone, Copy, Debug, PartialEq, Eq, Structural)]
pub enum MissionThreadState {
    Created,
    Running,
    Waiting,
    Completed,
    Failed,
}

/// Failures come first, then work that waits for the user, work that runs, work that has not
/// started, and work that is done.
pub open spec fn aggregated(states: Seq<MissionThreadState>) -> MissionState {
    if states.contains(MissionThreadState::Failed) {
        MissionState::Failed
    } else if states.contains(MissionThreadState::Waiting) {
        MissionState::Waiting
    } else if states.contains(MissionThreadState::Running) {
        MissionState::Running
    } else if states.len() == 0 || states.contains(MissionThreadState::Created) {
        MissionState::Created
    } else {
        MissionState::Completed
    }
}

/// The state that the states of a mission's threads add up to.
pub fn aggregate_mission_state(states: &[MissionThreadState]) -> (r: MissionState)
    ensures
        r == aggregated(states@),
{
    let mut failed = false;
    let mut waiting = false;
    let mut running = false;
    let mut created = false;
    let mut i: usize = 0;
    while i < states.len()
        invariant
            i <= states.len(),
            failed == states@.take(i as int).contains(MissionThreadState::Failed),
            waiting == states@.take(i as int).contains(MissionThreadState::Waiting),
            running == states@.take(i as int).contains(MissionThreadState::Running),
            created == states@.take(i as int).contains(MissionThreadState::Created),
        decreases states.len() - i,
    {
        let state = states[i];
        let ghost before = states@.take(i as int);
        let ghost after = states@.take(i + 1);
        assert(after =~= before.push(state));
        proof {
            contains_after_push(before, state);
        }
        match state {
            MissionThreadState::Failed => {
                failed = true;
            },
            MissionThreadState::Waiting => {
                waiting = true;
            },
            MissionThreadState::Running => {
                running = true;
            },
            MissionThreadState::Created => {
                created = true;
            },
            MissionThreadState::Completed => {},
        }
        i += 1;
    }
    assert(states@.take(i as int) =~= states@);
    if failed {
        MissionState::Failed
    } else if waiting {
        MissionState::Waiting
    } else if running {
        MissionState::Running
    } else if states.len() == 0 || created {
        MissionState::Created
    } else {
        MissionState::Completed
    }
}

/// Whether an entry is a tool call that failed or was rejected.
pub open spec fn is_failed_call(entry: ThreadEntry) -> bool {
    entry matches ThreadEntry::ToolCall(call) && (call.status is Failed || call.status is Rejected)
}

/// Whether a tool call failed since the user last spoke.
pub open spec fn turn_failed(entries: Seq<ThreadEntry>) -> bool {
    exists|i: int|
        0 <= i < entries.len() && last_user(entries) <= i && is_failed_call(#[trigger] entries[i])
}

/// The state of a loaded thread. A failure counts only in the turn that runs or ran last.
pub open spec fn state_of(thread: Thread) -> MissionThreadState {
    if thread.had_error || turn_failed(thread.entries@) {
        MissionThreadState::Failed
    } else if thread.waiting_for_confirmation {
        MissionThreadState::Waiting
    } else if thread.status == ThreadStatus::Generating {
        MissionThreadState::Running
    } else if thread.entries@.len() == 0 || thread.is_draft {
        MissionThreadState::Created
    } else {
        MissionThreadState::Completed
    }
}

/// The state of a thread; one that is not loaded counts as not started.
pub open spec fn state_of_source(thread: Option<Thread>) -> MissionThreadState {
    match thread {
        Some(t) => state_of(t),
        None => MissionThreadState::Created,
    }
}

/// The state of a loaded thread.
fn thread_state(thread: &Thread) -> (r: MissionThreadState)
    ensures
        r == state_of(*thread),
{
    let entries = &thread.entries;
    let start: usize = match last_user_message(entries) {
        Some(i) => i,
        None => 0,
    };
    let mut failed = false;
    let mut i: usize = start;
    while i < entries.len()
        invariant
            start <= i,
            i <= entries.len() || start > entries.len(),
            last_user(entries@) == start || (last_user(entries@) == -1 && start == 0),
            failed ==> turn_failed(entries@),
            !failed ==> forall|j: int| start <= j < i ==> !is_failed_call(#[trigger] entries[j]),
        decreases entries.len() - i,
    {
        match &entries[i] {
            ThreadEntry::ToolCall(call) => {
                if matches!(&call.status, ToolCallStatus::Failed | ToolCallStatus::Rejected) {
                    failed = true;
                    assert(is_failed_call(entries@[i as int]));
                }
            },
            _ => {},
        }
        i += 1;
    }
    if thread.had_error || failed {
        MissionThreadState::Failed
    } else if thread.waiting_for_confirmation {
        MissionThreadState::Waiting
    } else if thread.status == ThreadStatus::Generating {
        MissionThreadState::Running
    } else if thread.entries.len() == 0 || thread.is_draft {
        MissionThreadState::Created
    } else {
        MissionThreadState::Completed
    }
}

/// The state of a thread; one that is not loaded counts as not started.
pub fn thread_mission_state(thread: &Option<Thread>) -> (r: MissionThreadState)
    ensures
        r == state_of_source(*thread),
{
    match thread {
        Some(t) => thread_state(t),
        None => MissionThreadState::Created,
    }
}

/// The states of the threads that belong to a mission.
pub open spec fn mission_states(
    sources: Seq<WorkerSource>,
    id: MissionId,
) -> Seq<MissionThreadState>
    decreases sources.len(),
{
    if sources.len() == 0 {
        Seq::empty()
    } else {
        let before = mission_states(sources.drop_last(), id);
        if sources.last().metadata.mission_id == Some(id) {
            before.push(state_of_source(sources.last().thread))
        } else {
            before
        }
    }
}

/// The state that the threads of a mission add up to.
pub fn mission_state(sources: &Vec<WorkerSource>, mission_id: MissionId) -> (r: MissionState)
    ensures
        r == aggregated(mission_states(sources@, mission_id)),
{
    let mut states: Vec<MissionThreadState> = Vec::new();
    let mut i: usize = 0;
    assert(states@ =~= mission_states(sources@.take(0), mission_id));
    while i < sources.len()
        invariant
            i <= sources.len(),
            states@ == mission_states(sources@.take(i as int), mission_id),
        decreases sources.len() - i,
    {
        assert(sources@.take(i + 1).drop_last() =~= sources@.take(i as int));
        if sources[i].metadata.mission_id == Some(mission_id) {
            states.push(thread_mission_state(&sources[i].thread));
        }
        i += 1;
    }
    assert(sources@.take(i as int) =~= sources@);
    aggregate_mission_state(states.as_slice())
}

/// A worker that waits for the user is never hidden behind one that runs, and a failure is
/// never hidden at all; a mission is completed only where every one of its threads is.
pub proof fn actionable_states_come_first(states: Seq<MissionThreadState>)
    ensures
        states.contains(MissionThreadState::Failed) <==> aggregated(states) == MissionState::Failed,
        states.contains(MissionThreadState::Waiting) && !states.contains(MissionThreadState::Failed)
            <==> aggregated(states) == MissionState::Waiting,
        aggregated(states) == MissionState::Completed <==> states.len() > 0 && forall|i: int|
            0 <= i < states.len() ==> #[trigger] states[i] == MissionThreadState::Completed,
{
    if aggregated(states) == MissionState::Completed {
        assert forall|i: int| 0 <= i < states.len() implies #[trigger] states[i]
            == MissionThreadState::Completed by {
            assert(states.contains(states[i]));
        }
    }
}

/// A path with what is read of it: its components as a platform takes them apart (two paths
/// are the same where these are), the name of the file it ends in, and whether it starts at
/// a root.
pub struct PathParts {
    pub text: String,
    pub components: Vec<String>,
    pub file_name: Option<String>,
    pub absolute: bool,
}

impl Clone for PathParts {
    fn clone(&self) -> (r: Self)
        ensures
            r.text == self.text,
            r.components@ == self.components@,
            r.file_name == self.file_name,
            r.absolute == self.absolute,
    {
        PathParts {
            text: self.text.clone(),
            components: clone_strings(&self.components),
            file_name: clone_opt(&self.file_name),
            absolute: self.absolute,
        }
    }
}

/// Whether two paths are the same.
pub open spec fn same_path(a: PathParts, b: PathParts) -> bool {
    views(a.components@) == views(b.components@)
}

/// Whether `a` is a copy of the path `b`.
pub open spec fn path_copied(a: PathParts, b: PathParts) -> bool {
    &&& a.text == b.text
    &&& a.components@ == b.components@
    &&& a.file_name == b.file_name
    &&& a.absolute == b.absolute
}

fn path_eq(a: &PathParts, b: &PathParts) -> (r: bool)
    ensures
        r == same_path(*a, *b),
{
    if a.components.len() != b.components.len() {
        assert(views(a.components@).len() != views(b.components@).len());
        return false;
    }
    let mut i: usize = 0;
    while i < a.components.len()
        invariant
            i <= a.components.len() == b.components.len(),
            forall|j: int| 0 <= j < i ==> a.components[j]@ == b.components[j]@,
        decreases a.components.len() - i,
    {
        if a.components[i] != b.components[i] {
            assert(views(a.components@)[i as int] != views(b.components@)[i as int]);
            return false;
        }
        i += 1;
    }
    assert(views(a.components@) =~= views(b.components@));
    true
}

/// The command that starts a context server.
pub struct ContextServerCommand {
    pub path: PathParts,
    pub args: Vec<String>,
    pub env: Option<Vec<(String, String)>>,
    pub timeout: Option<u64>,
}

/// What the settings say of a context server: one that is started by a command, or one that
/// is reached in another way.
pub enum ContextServerSettings {
    Stdio { enabled: bool, remote: bool, command: ContextServerCommand },
    Other(String),
}

/// The settings of a project, as far as context servers go; each id occurs once.
pub struct ProjectSettings {
    pub context_servers: Vec<(String, ContextServerSettings)>,
}

/// The position of the entry for the server of shared context, or the number of entries.
pub open spec fn server_index(servers: Seq<(String, ContextServerSettings)>) -> int
    decreases servers.len(),
{
    if servers.len() == 0 {
        0
    } else if servers[0].0@ == SHARED_CONTEXT_SERVER_ID@ {
        0
    } else {
        1 + server_index(servers.subrange(1, servers.len() as int))
    }
}

/// Whether an environment says nothing.
pub open spec fn env_empty(env: Option<Vec<(String, String)>>) -> bool {
    match env {
        Some(pairs) => pairs@.len() == 0,
        None => true,
    }
}

/// Whether an entry is one that was written with the bare command name, or with our own path
/// and no database: enabled, local, with nothing of the user's own in it.
pub open spec fn is_legacy(entry: ContextServerSettings, server_path: PathParts) -> bool {
    match entry {
        ContextServerSettings::Stdio { enabled, remote, command } => {
            &&& enabled
            &&& !remote
            &&& command.args@.len() == 0
            &&& command.timeout is None
            &&& env_empty(command.env)
            &&& opt_view(command.path.file_name) == Some(SHARED_CONTEXT_SERVER_BINARY@)
            &&& (!command.path.absolute || same_path(command.path, server_path))
        },
        ContextServerSettings::Other(_) => false,
    }
}

/// Whether an entry starts our server, from `server_path` and on the database `db_path`.
pub open spec fn is_registered(
    entry: ContextServerSettings,
    server_path: PathParts,
    db_path: Seq<char>,
) -> bool {
    match entry {
        ContextServerSettings::Stdio { enabled, remote, command } => {
            &&& enabled
            &&& !remote
            &&& path_copied(command.path, server_path)
            &&& command.args@.len() == 0
            &&& command.timeout is None
            &&& command.env matches Some(pairs) && pairs@.len() == 1 && pairs@[0].0@
                == DB_PATH_ENV_VAR@ && pairs@[0].1@ == db_path
        },
        ContextServerSettings::Other(_) => false,
    }
}

/// Whether the settings are changed: there is no entry, or one that is legacy.
pub open spec fn needs_registration(
    servers: Seq<(String, ContextServerSettings)>,
    server_path: PathParts,
) -> bool {
    let i = server_index(servers);
    i >= servers.len() || is_legacy(servers[i].1, server_path)
}

proof fn server_index_in_range(servers: Seq<(String, ContextServerSettings)>)
    ensures
        0 <= server_index(servers) <= servers.len(),
        server_index(servers) < servers.len() ==> servers[server_index(servers)].0@
            == SHARED_CONTEXT_SERVER_ID@,
        forall|j: int|
            0 <= j < server_index(servers) ==> (#[trigger] servers[j]).0@ != SHARED_CONTEXT_SERVER_ID@,
    decreases servers.len(),
{
    if servers.len() > 0 && servers[0].0@ != SHARED_CONTEXT_SERVER_ID@ {
        let rest = servers.subrange(1, servers.len() as int);
        server_index_in_range(rest);
        assert forall|j: int| 0 <= j < server_index(servers) implies (#[trigger] servers[j]).0@
            != SHARED_CONTEXT_SERVER_ID@ by {
            if j > 0 {
                assert(rest[j - 1] == servers[j]);
            }
        }
    }
}

proof fn server_index_is_the_first(servers: Seq<(String, ContextServerSettings)>, i: int)
    requires
        0 <= i <= servers.len(),
        i < servers.len() ==> servers[i].0@ == SHARED_CONTEXT_SERVER_ID@,
        forall|j: int| 0 <= j < i ==> (#[trigger] servers[j]).0@ != SHARED_CONTEXT_SERVER_ID@,
    ensures
        server_index(servers) == i,
{
    server_index_in_range(servers);
    let k = server_index(servers);
    if k < i {
        assert(servers[k].0@ != SHARED_CONTEXT_SERVER_ID@);
    } else if i < k {
        assert(servers[i].0@ != SHARED_CONTEXT_SERVER_ID@);
    }
}

fn find_server(servers: &Vec<(String, ContextServerSettings)>) -> (r: usize)
    ensures
        r == server_index(servers@),
        r <= servers.len(),
{
    let mut i: usize = 0;
    while i < servers.len()
        invariant
            i <= servers.len(),
            forall|j: int| 0 <= j < i ==> (#[trigger] servers@[j]).0@ != SHARED_CONTEXT_SERVER_ID@,
        decreases servers.len() - i,
    {
        if text_eq(servers[i].0.as_str(), SHARED_CONTEXT_SERVER_ID) {
            proof {
                server_index_is_the_first(servers@, i as int);
            }
            return i;
        }
        i += 1;
    }
    proof {
        server_index_is_the_first(servers@, i as int);
    }
    i
}

fn is_legacy_server(entry: &ContextServerSettings, server_path: &PathParts) -> (r: bool)
    ensures
        r == is_legacy(*entry, *server_path),
{
    match entry {
        ContextServerSettings::Stdio { enabled, remote, command } => {
            let no_env = match &command.env {
                Some(pairs) => pairs.len() == 0,
                None => true,
            };
            let ours = match &command.path.file_name {
                Some(name) => text_eq(name.as_str(), SHARED_CONTEXT_SERVER_BINARY),
                None => false,
            };
            *enabled && !*remote && command.args.len() == 0 && command.timeout.is_none() && no_env
                && ours && (!command.path.absolute || path_eq(&command.path, server_path))
        },
        ContextServerSettings::Other(_) => false,
    }
}

fn our_server(server_path: &PathParts, db_path: &str) -> (r: ContextServerSettings)
    ensures
        is_registered(r, *server_path, db_path@),
{
    let mut env: Vec<(String, String)> = Vec::new();
    env.push((DB_PATH_ENV_VAR.to_owned(), db_path.to_owned()));
    ContextServerSettings::Stdio {
        enabled: true,
        remote: false,
        command: ContextServerCommand {
            path: server_path.clone(),
            args: Vec::new(),
            env: Some(env),
            timeout: None,
        },
    }
}

/// Whether `after` is `before` with the entry for our server set, and nothing else changed.
pub open spec fn server_set(
    before: Seq<(String, ContextServerSettings)>,
    after: Seq<(String, ContextServerSettings)>,
    server_path: PathParts,
    db_path: Seq<char>,
) -> bool {
    let i = server_index(before);
    &&& after.len() == if i < before.len() {
        before.len()
    } else {
        before.len() + 1
    }
    &&& after[i].0@ == SHARED_CONTEXT_SERVER_ID@
    &&& is_registered(after[i].1, server_path, db_path)
    &&& forall|j: int| 0 <= j < before.len() && j != i ==> #[trigger] after[j] == before[j]
}

/// Sees to it that the settings start our server of shared context, from an absolute path
/// and on the database that this process reads; returns whether they had to be changed. An
/// entry of the user's own stays as it is.
pub fn ensure_shared_context_server(
    settings: &mut ProjectSettings,
    server_path: &PathParts,
    db_path: &str,
) -> (r: bool)
    ensures
        r == needs_registration(old(settings).context_servers@, *server_path),
        r ==> server_set(
            old(settings).context_servers@,
            final(settings).context_servers@,
            *server_path,
            db_path@,
        ),
        !r ==> *final(settings) == *old(settings),
{
    let i: usize = find_server(&settings.context_servers);
    let entry = our_server(server_path, db_path);
    if i < settings.context_servers.len() {
        if !is_legacy_server(&settings.context_servers[i].1, server_path) {
            return false;
        }
        settings.context_servers.set(i, (SHARED_CONTEXT_SERVER_ID.to_owned(), entry));
    } else {
        settings.context_servers.push((SHARED_CONTEXT_SERVER_ID.to_owned(), entry));
    }
    true
}

/// What became of registering the server.
#[derive(Clone, Copy, Debug, PartialEq, Eq, Structural)]
pub enum Registration {
    Registered,
    Unchanged,
    /// Our server was not found and the settings have no entry for it.
    MissingBinary,
}

/// Registers the server in the settings. Where its binary was not found the settings stay as
/// they are: an entry of the user's own must remain usable, and a new one could not work.
pub fn register_shared_context_server(
    settings: &mut ProjectSettings,
    server_path: Option<&PathParts>,
    db_path: &str,
) -> (r: Registration)
    ensures
        match server_path {
            None => *final(settings) == *old(settings) && r == if server_index(
                old(settings).context_servers@,
            ) < old(settings).context_servers@.len() {
                Registration::Unchanged
            } else {
                Registration::MissingBinary
            },
            Some(path) => if needs_registration(old(settings).context_servers@, *path) {
                r == Registration::Registered && server_set(
                    old(settings).context_servers@,
                    final(settings).context_servers@,
                    *path,
                    db_path@,
                )
            } else {
                r == Registration::Unchanged && *final(settings) == *old(settings)
            },
        },
{
    match server_path {
        None => {
            if find_server(&settings.context_servers) < settings.context_servers.len() {
                Registration::Unchanged
            } else {
                Registration::MissingBinary
            }
        },
        Some(path) => {
            if ensure_shared_context_server(settings, path, db_path) {
                Registration::Registered
            } else {
                Registration::Unchanged
            }
        },
    }
}

/// Once the server is registered, registering it again changes nothing.
pub proof fn registering_again_changes_nothing(
    before: Seq<(String, ContextServerSettings)>,
    after: Seq<(String, ContextServerSettings)>,
    server_path: PathParts,
    db_path: Seq<char>,
)
    requires
        server_set(before, after, server_path, db_path),
    ensures
        !needs_registration(after, server_path),
{
    server_index_in_range(before);
    let i = server_index(before);
    assert forall|j: int| 0 <= j < i implies (#[trigger] after[j]).0@ != SHARED_CONTEXT_SERVER_ID@ by {
        assert(before[j].0@ != SHARED_CONTEXT_SERVER_ID@);
        assert(after[j] == before[j]);
    }
    server_index_is_the_first(after, i);
}

/// An entry that the user has switched off, made remote, given arguments, an environment or a
/// timeout, or pointed at another program, and one that is not started by a command at all,
/// is left alone.
pub proof fn custom_and_disabled_servers_are_preserved(
    servers: Seq<(String, ContextServerSettings)>,
    server_path: PathParts,
)
    requires
        server_index(servers) < servers.len(),
        servers[server_index(servers)].1 matches ContextServerSettings::Stdio {
            enabled,
            remote,
            command,
        } ==> (!enabled || remote || command.args@.len() > 0 || !env_empty(command.env)
            || command.timeout is Some || opt_view(command.path.file_name) != Some(
            SHARED_CONTEXT_SERVER_BINARY@,
        ) || (command.path.absolute && !same_path(command.path, server_path))),
    ensures
        !needs_registration(servers, server_path),
{
}

/// A place where the server's binary may lie.
pub struct Candidate {
    pub path: PathParts,
    pub exists: bool,
}

/// Whether a place is known and the binary lies there.
pub open spec fn lies_at(candidate: Option<Candidate>) -> bool {
    candidate matches Some(c) && c.exists
}

/// Where the binary lies: among the bundle's auxiliary executables, or else beside the running
/// executable, or else in `bin` below it.
pub open spec fn preferred_path(
    auxiliary: Option<Candidate>,
    beside: Option<Candidate>,
    below: Option<Candidate>,
) -> Option<PathParts> {
    if lies_at(auxiliary) {
        Some(auxiliary.unwrap().path)
    } else if lies_at(beside) {
        Some(beside.unwrap().path)
    } else if lies_at(below) {
        Some(below.unwrap().path)
    } else {
        None
    }
}

fn existing_path(candidate: &Option<Candidate>) -> (r: Option<PathParts>)
    ensures
        match r {
            Some(path) => lies_at(*candidate) && path_copied(path, candidate.unwrap().path),
            None => !lies_at(*candidate),
        },
{
    match candidate {
        Some(c) => if c.exists {
            Some(c.path.clone())
        } else {
            None
        },
        None => None,
    }
}

/// Where the server's binary lies: among the bundle's auxiliary executables, where the platform
/// has such a thing, or else beside the running executable, or else in `bin` below it. Each
/// place is absent where it cannot be told.
pub fn shared_context_server_path(
    auxiliary: &Option<Candidate>,
    beside: &Option<Candidate>,
    below: &Option<Candidate>,
) -> (r: Option<PathParts>)
    ensures
        match preferred_path(*auxiliary, *beside, *below) {
            Some(path) => r matches Some(found) && path_copied(found, path),
            None => r is None,
        },
{
    match existing_path(auxiliary) {
        Some(path) => Some(path),
        None => match existing_path(beside) {
            Some(path) => Some(path),
            None => existing_path(below),
        },
    }
}

/// The text that introduces a mission to a worker.
pub open spec fn prompt_text(id: MissionId, title: Seq<char>, role: Seq<char>) -> Seq<char> {
    "<zed-mission-context>\nmission_id: "@ + hyphenated_form(id.value) + "\ntitle: "@ + title
        + "\nrole: "@ + role
        + "\nshared_context: \"Use record_decision, record_artifact, record_evidence, and get_mission_context with this mission_id when sharing information across Harnesses. Pass role: '"@
        + role
        + "' on every record_* call so your work is attributed to you, and an author naming yourself (e.g. 'codex').\"\n</zed-mission-context>"@
}

/// The text that introduces a mission to a worker, with the role twice: as a fact and in the
/// instruction to pass it on.
pub fn mission_prompt(mission: &Mission, role: &str) -> (r: String)
    ensures
        r@ == prompt_text(mission.id, mission.title@, role@),
{
    let mut r = "<zed-mission-context>\nmission_id: ".to_owned();
    r.append(mission.id.to_key_string().as_str());
    r.append("\ntitle: ");
    r.append(mission.title.as_str());
    r.append("\nrole: ");
    r.append(role);
    r.append("\nshared_context: \"Use record_decision, record_artifact, record_evidence, and get_mission_context with this mission_id when sharing information across Harnesses. Pass role: '");
    r.append(role);
    r.append("' on every record_* call so your work is attributed to you, and an author naming yourself (e.g. 'codex').\"\n</zed-mission-context>");
    r
}

/// What runs a thread.
pub enum Agent {
    NativeAgent,
    Custom { id: String },
}

impl Clone for Agent {
    fn clone(&self) -> (r: Self)
        ensures
            r == *self,
    {
        match self {
            Agent::NativeAgent => Agent::NativeAgent,
            Agent::Custom { id } => Agent::Custom { id: id.clone() },
        }
    }
}

/// One worker that a mission is to have.
pub struct MissionThreadSpec {
    pub agent: Agent,
    pub role: String,
}

/// One row of the dialog: an agent, whether it is chosen, and the role typed for it.
pub struct MissionAgentEntry {
    pub agent: Agent,
    pub label: String,
    pub selected: bool,
    pub role_text: String,
}

/// The mathematical value of a `MissionThreadSpec`.
pub struct SpecView {
    pub agent: Agent,
    pub role: Seq<char>,
}

impl View for MissionThreadSpec {
    type V = SpecView;

    open spec fn view(&self) -> SpecView {
        SpecView { agent: self.agent, role: self.role@ }
    }
}

pub open spec fn spec_views(specs: Seq<MissionThreadSpec>) -> Seq<SpecView> {
    specs.map_values(|s: MissionThreadSpec| s@)
}

/// The workers that the rows of the dialog ask for: the chosen ones that have a role.
pub open spec fn chosen(entries: Seq<MissionAgentEntry>) -> Seq<SpecView>
    decreases entries.len(),
{
    if entries.len() == 0 {
        Seq::empty()
    } else {
        let before = chosen(entries.drop_last());
        let entry = entries.last();
        if entry.selected && trimmed(entry.role_text@).len() > 0 {
            before.push(SpecView { agent: entry.agent, role: trimmed(entry.role_text@) })
        } else {
            before
        }
    }
}

/// The workers that the rows of the dialog ask for.
pub fn selected_thread_specs(entries: &Vec<MissionAgentEntry>) -> (r: Vec<MissionThreadSpec>)
    ensures
        spec_views(r@) == chosen(entries@),
{
    let mut specs: Vec<MissionThreadSpec> = Vec::new();
    let mut i: usize = 0;
    assert(spec_views(specs@) =~= chosen(entries@.take(0)));
    while i < entries.len()
        invariant
            i <= entries.len(),
            spec_views(specs@) == chosen(entries@.take(i as int)),
        decreases entries.len() - i,
    {
        assert(entries@.take(i + 1).drop_last() =~= entries@.take(i as int));
        if entries[i].selected {
            let role = trim(entries[i].role_text.as_str());
            if role.as_str().unicode_len() > 0 {
                let ghost before = spec_views(specs@);
                let spec = MissionThreadSpec { agent: entries[i].agent.clone(), role };
                specs.push(spec);
                assert(spec_views(specs@) =~= before.push(spec@));
            }
        }
        i += 1;
    }
    assert(entries@.take(i as int) =~= entries@);
    specs
}

/// A role as roles are compared: without the white space around it, in lower case.
pub open spec fn normalized(role: Seq<char>) -> Seq<char> {
    lowercased(trimmed(role))
}

/// A role as roles are compared: without the white space around it, in lower case.
pub fn normalized_role(role: &str) -> (r: String)
    ensures
        r@ == normalized(role@),
        is_ascii_text(trimmed(role@)) ==> r@ == trimmed(role@).map_values(|c: char| ascii_lower(c)),
{
    to_lowercase(trim(role).as_str())
}

/// The roles that the threads of a mission have, as roles are compared.
pub open spec fn used_roles(threads: Seq<ThreadMetadata>, mission_id: MissionId) -> Seq<Seq<char>>
    decreases threads.len(),
{
    if threads.len() == 0 {
        Seq::empty()
    } else {
        let before = used_roles(threads.drop_last(), mission_id);
        let thread = threads.last();
        match thread.role {
            Some(role) => if thread.mission_id == Some(mission_id) {
                before.push(normalized(role@))
            } else {
                before
            },
            None => before,
        }
    }
}

/// The roles that are taken before any worker is added.
pub open spec fn taken_roles(
    threads: Seq<ThreadMetadata>,
    mission_id: Option<MissionId>,
) -> Seq<Seq<char>> {
    match mission_id {
        Some(id) => used_roles(threads, id),
        None => Seq::empty(),
    }
}

/// The roles of the first workers, as roles are compared.
pub open spec fn normalized_roles(specs: Seq<SpecView>) -> Seq<Seq<char>> {
    specs.map_values(|s: SpecView| normalized(s.role))
}

/// Whether the `i`-th worker's role is taken, by a thread or by a worker before it.
pub open spec fn clashes(specs: Seq<SpecView>, taken: Seq<Seq<char>>, i: int) -> bool {
    (taken + normalized_roles(specs.take(i))).contains(normalized(specs[i].role))
}

/// The first role that is taken, by a thread or by a worker before.
pub open spec fn first_clash(specs: Seq<SpecView>, taken: Seq<Seq<char>>) -> Option<Seq<char>>
    decreases specs.len(),
{
    if specs.len() == 0 {
        None
    } else {
        match first_clash(specs.drop_last(), taken) {
            Some(role) => Some(role),
            None => if clashes(specs, taken, specs.len() - 1) {
                Some(specs.last().role)
            } else {
                None
            },
        }
    }
}

proof fn clashes_in_a_prefix(specs: Seq<SpecView>, taken: Seq<Seq<char>>, n: int, j: int)
    requires
        0 <= j < n <= specs.len(),
    ensures
        clashes(specs.take(n), taken, j) == clashes(specs, taken, j),
{
    assert(specs.take(n).take(j) =~= specs.take(j));
}

proof fn first_clash_extends(specs: Seq<SpecView>, taken: Seq<Seq<char>>, n: int)
    requires
        0 <= n <= specs.len(),
        first_clash(specs.take(n), taken) is Some,
    ensures
        first_clash(specs, taken) == first_clash(specs.take(n), taken),
    decreases specs.len() - n,
{
    if n < specs.len() {
        assert(specs.take(n + 1).drop_last() =~= specs.take(n));
        first_clash_extends(specs, taken, n + 1);
    } else {
        assert(specs.take(n) =~= specs);
    }
}

proof fn no_clash_at_all(specs: Seq<SpecView>, taken: Seq<Seq<char>>)
    requires
        first_clash(specs, taken) is None,
    ensures
        forall|j: int| 0 <= j < specs.len() ==> !#[trigger] clashes(specs, taken, j),
    decreases specs.len(),
{
    if specs.len() > 0 {
        let n = specs.len() - 1;
        assert(specs.drop_last() =~= specs.take(n));
        no_clash_at_all(specs.drop_last(), taken);
        assert forall|j: int| 0 <= j < specs.len() implies !#[trigger] clashes(specs, taken, j) by {
            if j < n {
                clashes_in_a_prefix(specs, taken, n, j);
                assert(!clashes(specs.drop_last(), taken, j));
            }
        }
    }
}

fn roles_in_use(threads: &Vec<ThreadMetadata>, mission_id: MissionId) -> (r: Vec<String>)
    ensures
        views(r@) == used_roles(threads@, mission_id),
{
    let mut roles: Vec<String> = Vec::new();
    let mut i: usize = 0;
    assert(views(roles@) =~= used_roles(threads@.take(0), mission_id));
    while i < threads.len()
        invariant
            i <= threads.len(),
            views(roles@) == used_roles(threads@.take(i as int), mission_id),
        decreases threads.len() - i,
    {
        assert(threads@.take(i + 1).drop_last() =~= threads@.take(i as int));
        if threads[i].mission_id == Some(mission_id) {
            match &threads[i].role {
                Some(role) => {
                    let ghost before = views(roles@);
                    roles.push(normalized_role(role.as_str()));
                    assert(views(roles@) =~= before.push(normalized(role@)));
                },
                None => {},
            }
        }
        i += 1;
    }
    assert(threads@.take(i as int) =~= threads@);
    roles
}

/// The first role that repeats among the new workers, or that a thread of the mission they
/// are added to already has.
pub fn duplicate_role(
    specs: &Vec<MissionThreadSpec>,
    mission_id: Option<MissionId>,
    threads: &Vec<ThreadMetadata>,
) -> (r: Option<String>)
    ensures
        opt_view(r) == first_clash(spec_views(specs@), taken_roles(threads@, mission_id)),
{
    let mut seen: Vec<String> = match mission_id {
        Some(id) => roles_in_use(threads, id),
        None => Vec::new(),
    };
    let ghost taken = taken_roles(threads@, mission_id);
    let ghost sv = spec_views(specs@);
    assert(views(seen@) =~= taken);
    assert(taken =~= taken + normalized_roles(sv.take(0)));
    let mut i: usize = 0;
    while i < specs.len()
        invariant
            i <= specs.len(),
            sv == spec_views(specs@),
            taken == taken_roles(threads@, mission_id),
            views(seen@) == taken + normalized_roles(sv.take(i as int)),
            first_clash(sv.take(i as int), taken) is None,
        decreases specs.len() - i,
    {
        let key = normalized_role(specs[i].role.as_str());
        assert(sv[i as int].role == specs[i as int].role@);
        proof {
            assert(sv.take(i + 1).drop_last() =~= sv.take(i as int));
            clashes_in_a_prefix(sv, taken, i + 1, i as int);
        }
        if contains_string(&seen, key.as_str()) {
            proof {
                assert(clashes(sv, taken, i as int));
                first_clash_extends(sv, taken, i + 1);
            }
            return Some(specs[i].role.clone());
        }
        let ghost before = views(seen@);
        seen.push(key);
        assert(views(seen@) =~= before.push(key@));
        assert(normalized_roles(sv.take(i + 1)) =~= normalized_roles(sv.take(i as int)).push(key@));
        assert(views(seen@) =~= taken + normalized_roles(sv.take(i + 1)));
        i += 1;
    }
    assert(sv.take(i as int) =~= sv);
    None
}

/// Where no role is found taken, the roles of the new workers all differ, also in more than
/// case and white space, and none is the role of a thread that the mission has.
pub proof fn accepted_roles_are_unique(specs: Seq<SpecView>, taken: Seq<Seq<char>>)
    requires
        first_clash(specs, taken) is None,
    ensures
        forall|i: int, j: int|
            0 <= i < j < specs.len() ==> normalized((#[trigger] specs[i]).role) != normalized(
                (#[trigger] specs[j]).role,
            ),
        forall|i: int|
            0 <= i < specs.len() ==> !taken.contains(normalized((#[trigger] specs[i]).role)),
{
    no_clash_at_all(specs, taken);
    assert forall|i: int, j: int| 0 <= i < j < specs.len() implies normalized(
        (#[trigger] specs[i]).role,
    ) != normalized((#[trigger] specs[j]).role) by {
        assert(!clashes(specs, taken, j));
        let seen = taken + normalized_roles(specs.take(j));
        assert(seen[taken.len() + i] == normalized(specs[i].role));
    }
    assert forall|i: int| 0 <= i < specs.len() implies !taken.contains(
        normalized((#[trigger] specs[i]).role),
    ) by {
        assert(!clashes(specs, taken, i));
        let role = normalized(specs[i].role);
        if taken.contains(role) {
            let k = choose|k: int| 0 <= k < taken.len() && taken[k] == role;
            assert((taken + normalized_roles(specs.take(i)))[k] == role);
        }
    }
}

/// The dialog that creates a mission with its first workers, or adds workers to a mission.
pub struct MissionOrchestratorModal {
    /// The mission that workers are added to, where there is one already.
    pub existing_mission: Option<Mission>,
    pub title_text: String,
    pub title_read_only: bool,
    pub agents: Vec<MissionAgentEntry>,
    pub selected_index: Option<usize>,
    pub creating: bool,
    pub error: Option<String>,
}

/// An agent that is not built in, and the name its server gives it.
pub struct ExternalAgent {
    pub id: String,
    pub display_name: Option<String>,
}

/// The name that an external agent goes by.
pub open spec fn external_label(agent: ExternalAgent) -> Seq<char> {
    match agent.display_name {
        Some(name) => name@,
        None => agent.id@,
    }
}

/// Whether `entry` is the row of an external agent: not chosen, its name as its role.
pub open spec fn is_external_entry(entry: MissionAgentEntry, agent: ExternalAgent) -> bool {
    &&& entry.agent == (Agent::Custom { id: agent.id })
    &&& entry.label@ == external_label(agent)
    &&& !entry.selected
    &&& entry.role_text@ == external_label(agent)
}

/// What the dialog hands on once everything in it is in order.
pub struct MissionPlan {
    /// The title of the mission to create; of no account where one exists.
    pub title: String,
    pub existing_mission: Option<Mission>,
    pub specs: Vec<MissionThreadSpec>,
}

/// What is wrong with the dialog's contents, in the order in which it is looked for.
pub open spec fn refusal(
    adding: bool,
    title: Seq<char>,
    specs: Seq<SpecView>,
    clash: Option<Seq<char>>,
) -> Option<Seq<char>> {
    if !adding && trimmed(title).len() == 0 {
        Some("Enter a Mission title."@)
    } else if specs.len() == 0 {
        Some("Select at least one Harness and provide a role."@)
    } else {
        match clash {
            Some(role) => Some(
                "\""@ + role + "\" is already a role in this Mission. Roles must be unique."@,
            ),
            None => None,
        }
    }
}

/// How the update of the settings ended.
pub enum SettingsOutcome {
    Written,
    Failed(String),
    /// The update was dropped before it ended.
    Canceled(String),
}

/// One thread to be started for a mission: its title, the prompt that is submitted in it at
/// once, and what it is filed under.
pub struct WorkerRequest {
    pub title: String,
    pub prompt: String,
    pub auto_submit: bool,
    pub agent: Agent,
    pub mission_id: MissionId,
    pub role: String,
}

/// Whether `request` is the thread that a worker of the mission gets.
pub open spec fn is_worker_request(
    request: WorkerRequest,
    mission: Mission,
    spec: MissionThreadSpec,
) -> bool {
    &&& request.title == mission.title
    &&& request.prompt@ == prompt_text(mission.id, mission.title@, spec.role@)
    &&& request.auto_submit
    &&& request.agent == spec.agent
    &&& request.mission_id == mission.id
    &&& request.role == spec.role
}

/// The threads that the workers of a mission get, in their order.
pub fn worker_requests(mission: &Mission, specs: &Vec<MissionThreadSpec>) -> (r: Vec<WorkerRequest>)
    ensures
        r.len() == specs.len(),
        forall|i: int|
            0 <= i < r.len() ==> is_worker_request(#[trigger] r[i], *mission, specs[i]),
{
    let mut requests: Vec<WorkerRequest> = Vec::new();
    let mut i: usize = 0;
    while i < specs.len()
        invariant
            i <= specs.len(),
            requests.len() == i,
            forall|j: int|
                0 <= j < i ==> is_worker_request(#[trigger] requests[j], *mission, specs[j]),
        decreases specs.len() - i,
    {
        requests.push(
            WorkerRequest {
                title: mission.title.clone(),
                prompt: mission_prompt(mission, specs[i].role.as_str()),
                auto_submit: true,
                agent: specs[i].agent.clone(),
                mission_id: mission.id,
                role: specs[i].role.clone(),
            },
        );
        i += 1;
    }
    requests
}

impl MissionOrchestratorModal {
    /// The dialog as it opens: our own agent chosen, the external ones offered, each under
    /// its name; with the title fixed where workers are added to a mission.
    pub fn new(existing_mission: Option<Mission>, external_agents: &Vec<ExternalAgent>) -> (r: Self)
        ensures
            is_opened_for(r, existing_mission, external_agents@),
    {
        let mut agents: Vec<MissionAgentEntry> = Vec::new();
        agents.push(
            MissionAgentEntry {
                agent: Agent::NativeAgent,
                label: "Zed Agent".to_owned(),
                selected: true,
                role_text: "Zed Agent".to_owned(),
            },
        );
        let mut i: usize = 0;
        while i < external_agents.len()
            invariant
                i <= external_agents.len(),
                agents.len() == i + 1,
                agents@[0].agent == Agent::NativeAgent,
                agents@[0].label@ == "Zed Agent"@,
                agents@[0].selected,
                agents@[0].role_text@ == "Zed Agent"@,
                forall|j: int|
                    0 <= j < i ==> is_external_entry(#[trigger] agents@[j + 1], external_agents@[j]),
            decreases external_agents.len() - i,
        {
            let label = match &external_agents[i].display_name {
                Some(name) => name.clone(),
                None => external_agents[i].id.clone(),
            };
            agents.push(
                MissionAgentEntry {
                    agent: Agent::Custom { id: external_agents[i].id.clone() },
                    label: label.clone(),
                    selected: false,
                    role_text: label,
                },
            );
            i += 1;
        }
        let (title_text, title_read_only) = match &existing_mission {
            Some(mission) => (mission.title.clone(), true),
            None => (String::new(), false),
        };
        MissionOrchestratorModal {
            existing_mission,
            title_text,
            title_read_only,
            agents,
            selected_index: Some(0),
            creating: false,
            error: None,
        }
    }

    /// Whether everything but the rows, the row in focus, the busy flag and the error is as
    /// in `other`.
    pub open spec fn same_mission(self, other: Self) -> bool {
        &&& self.existing_mission == other.existing_mission
        &&& self.title_text == other.title_text
        &&& self.title_read_only == other.title_read_only
    }

    /// Chooses the agent of a row, or takes the choice back; not while a mission is created.
    pub fn toggle_selected_agent(&mut self, index: usize)
        ensures
            final(self).same_mission(*old(self)),
            final(self).selected_index == old(self).selected_index,
            final(self).creating == old(self).creating,
            final(self).error == old(self).error,
            final(self).agents@ == if old(self).creating || index >= old(self).agents@.len() {
                old(self).agents@
            } else {
                old(self).agents@.update(
                    index as int,
                    MissionAgentEntry {
                        selected: !old(self).agents@[index as int].selected,
                        ..old(self).agents@[index as int]
                    },
                )
            },
    {
        if self.creating {
            return;
        }
        if index < self.agents.len() {
            let chosen = self.agents[index].selected;
            self.agents[index].selected = !chosen;
        }
    }

    /// Moves the focus to the next row, from the last to the first.
    pub fn select_next(&mut self)
        ensures
            final(self).same_mission(*old(self)),
            final(self).agents == old(self).agents,
            final(self).creating == old(self).creating,
            final(self).error == old(self).error,
            final(self).selected_index == if old(self).agents@.len() == 0 {
                old(self).selected_index
            } else {
                match old(self).selected_index {
                    Some(index) => if index + 1 < old(self).agents@.len() {
                        Some((index + 1) as usize)
                    } else {
                        Some(0usize)
                    },
                    None => Some(0usize),
                }
            },
    {
        if self.agents.len() == 0 {
            return;
        }
        self.selected_index = match self.selected_index {
            Some(index) => if index < self.agents.len() - 1 {
                Some(index + 1)
            } else {
                Some(0)
            },
            None => Some(0),
        };
    }

    /// Moves the focus to the row before, from the first to the last.
    pub fn select_previous(&mut self)
        ensures
            final(self).same_mission(*old(self)),
            final(self).agents == old(self).agents,
            final(self).creating == old(self).creating,
            final(self).error == old(self).error,
            final(self).selected_index == if old(self).agents@.len() == 0 {
                old(self).selected_index
            } else {
                match old(self).selected_index {
                    Some(index) => if index > 0 {
                        Some((index - 1) as usize)
                    } else {
                        Some((old(self).agents@.len() - 1) as usize)
                    },
                    None => Some((old(self).agents@.len() - 1) as usize),
                }
            },
    {
        if self.agents.len() == 0 {
            return;
        }
        self.selected_index = match self.selected_index {
            Some(index) => if index > 0 {
                Some(index - 1)
            } else {
                Some(self.agents.len() - 1)
            },
            None => Some(self.agents.len() - 1),
        };
    }

    /// Chooses the agent of the row in focus, or takes the choice back.
    pub fn confirm_selection(&mut self)
        ensures
            final(self).same_mission(*old(self)),
            final(self).selected_index == old(self).selected_index,
            final(self).creating == old(self).creating,
            final(self).error == old(self).error,
            final(self).agents@ == match old(self).selected_index {
                Some(index) => if old(self).creating || index >= old(self).agents@.len() {
                    old(self).agents@
                } else {
                    old(self).agents@.update(
                        index as int,
                        MissionAgentEntry {
                            selected: !old(self).agents@[index as int].selected,
                            ..old(self).agents@[index as int]
                        },
                    )
                },
                None => old(self).agents@,
            },
    {
        match self.selected_index {
            Some(index) => self.toggle_selected_agent(index),
            None => {},
        }
    }

    /// Looks through the dialog and, where everything is in order, hands on what is to be
    /// done and becomes busy: the settings are to be updated and, where there is none yet, a
    /// mission created. Otherwise says what is wrong. Does nothing while busy.
    pub fn create_mission(&mut self, threads: &Vec<ThreadMetadata>) -> (r: Option<MissionPlan>)
        ensures
            final(self).same_mission(*old(self)),
            final(self).agents == old(self).agents,
            final(self).selected_index == old(self).selected_index,
            old(self).creating ==> r is None && *final(self) == *old(self),
            !old(self).creating ==> old(self).judged(
                *final(self),
                r,
                first_clash(
                    chosen(old(self).agents@),
                    taken_roles(threads@, mission_of(old(self).existing_mission)),
                ),
            ),
    {
        if self.creating {
            return None;
        }
        let title = trim(self.title_text.as_str());
        let specs = selected_thread_specs(&self.agents);
        let adding = self.existing_mission.is_some();
        let mission_id = match &self.existing_mission {
            Some(mission) => Some(mission.id),
            None => None,
        };
        let duplicate = duplicate_role(&specs, mission_id, threads);
        if !adding && title.as_str().unicode_len() == 0 {
            self.error = Some("Enter a Mission title.".to_owned());
            return None;
        }
        assert(spec_views(specs@).len() == specs.len());
        if specs.len() == 0 {
            self.error = Some("Select at least one Harness and provide a role.".to_owned());
            return None;
        }
        match duplicate {
            Some(role) => {
                let mut error = "\"".to_owned();
                error.append(role.as_str());
                error.append("\" is already a role in this Mission. Roles must be unique.");
                self.error = Some(error);
                return None;
            },
            None => {},
        }
        self.creating = true;
        self.error = None;
        let existing_mission = match &self.existing_mission {
            Some(mission) => Some(mission.clone()),
            None => None,
        };
        Some(MissionPlan { title, existing_mission, specs })
    }

    /// Whether `after` and `r` are what comes of creating a mission from this dialog, `clash`
    /// being the first role that is taken.
    pub open spec fn judged(
        self,
        after: Self,
        r: Option<MissionPlan>,
        clash: Option<Seq<char>>,
    ) -> bool {
        match refusal(self.existing_mission is Some, self.title_text@, chosen(self.agents@), clash) {
            Some(why) => r is None && opt_view(after.error) == Some(why) && !after.creating,
            None => {
                &&& r matches Some(plan) && plan.title@ == trimmed(self.title_text@)
                    && plan.existing_mission == self.existing_mission && spec_views(plan.specs@)
                    == chosen(self.agents@)
                &&& after.error is None
                &&& after.creating
            },
        }
    }

    /// Takes note of how the update of the settings ended; returns whether to go on.
    pub fn settings_updated(&mut self, outcome: SettingsOutcome) -> (r: bool)
        ensures
            final(self).same_mission(*old(self)),
            final(self).agents == old(self).agents,
            final(self).selected_index == old(self).selected_index,
            r == (outcome is Written),
            r ==> *final(self) == *old(self),
            !r ==> !final(self).creating,
            outcome matches SettingsOutcome::Failed(e) ==> opt_view(final(self).error) == Some(
                "Could not create Mission: "@ + e@,
            ),
            outcome matches SettingsOutcome::Canceled(e) ==> opt_view(final(self).error) == Some(
                "Could not create Mission: "@ + ("Could not update Mission settings: "@ + e@),
            ),
    {
        match outcome {
            SettingsOutcome::Written => true,
            SettingsOutcome::Failed(e) => {
                self.failed(e.as_str());
                false
            },
            SettingsOutcome::Canceled(e) => {
                let mut why = "Could not update Mission settings: ".to_owned();
                why.append(e.as_str());
                self.failed(why.as_str());
                false
            },
        }
    }

    /// Takes note of how creating the mission ended; returns the mission, where there is one.
    pub fn mission_created(&mut self, outcome: Result<Mission, String>) -> (r: Option<Mission>)
        ensures
            final(self).same_mission(*old(self)),
            final(self).agents == old(self).agents,
            final(self).selected_index == old(self).selected_index,
            match outcome {
                Ok(mission) => r == Some(mission) && *final(self) == *old(self),
                Err(e) => r is None && !final(self).creating && opt_view(final(self).error) == Some(
                    "Could not create Mission: "@ + e@,
                ),
            },
    {
        match outcome {
            Ok(mission) => Some(mission),
            Err(e) => {
                self.failed(e.as_str());
                None
            },
        }
    }

    fn failed(&mut self, why: &str)
        ensures
            final(self).same_mission(*old(self)),
            final(self).agents == old(self).agents,
            final(self).selected_index == old(self).selected_index,
            !final(self).creating,
            opt_view(final(self).error) == Some("Could not create Mission: "@ + why@),
    {
        let mut error = "Could not create Mission: ".to_owned();
        error.append(why);
        self.creating = false;
        self.error = Some(error);
    }
}

pub open spec fn mission_of(mission: Option<Mission>) -> Option<MissionId> {
    match mission {
        Some(m) => Some(m.id),
        None => None,
    }
}

/// One row of the dialog as it is shown.
pub struct AgentRowView {
    pub checked: bool,
    pub focused: bool,
    pub label: String,
    pub role_text: String,
}

/// The dialog as it is shown.
pub struct OrchestratorModalView {
    pub headline: &'static str,
    pub description: &'static str,
    pub title_label: &'static str,
    pub title_placeholder: &'static str,
    pub list_label: &'static str,
    pub rows: Vec<AgentRowView>,
    pub error: Option<String>,
    pub button: &'static str,
    pub button_loading: bool,
    pub button_disabled: bool,
}

/// Whether `row` shows an entry of the dialog.
pub open spec fn shows_entry(row: AgentRowView, entry: MissionAgentEntry, focused: bool) -> bool {
    &&& row.checked == entry.selected
    &&& row.focused == focused
    &&& row.label == entry.label
    &&& row.role_text == entry.role_text
}

impl MissionOrchestratorModal {
    /// The dialog as it is shown.
    pub fn render(&self) -> (r: OrchestratorModalView)
        ensures
            r.headline@ == if self.existing_mission is Some {
                "Add Worker"@
            } else {
                "Create Mission"@
            },
            r.description@ == if self.existing_mission is Some {
                "Choose the Harnesses and roles to add to this Mission."@
            } else {
                "Choose the Harnesses and roles for this Mission."@
            },
            r.title_label@ == "Mission title"@,
            r.title_placeholder@ == "Mission title"@,
            r.list_label@ == "Harnesses and roles"@,
            r.rows@.len() == self.agents@.len(),
            forall|i: int|
                0 <= i < r.rows@.len() ==> shows_entry(
                    #[trigger] r.rows@[i],
                    self.agents@[i],
                    self.selected_index == Some(i as usize),
                ),
            r.error == self.error,
            r.button@ == if self.existing_mission is Some {
                "Add Worker"@
            } else {
                "Create Mission"@
            },
            r.button_loading == self.creating,
            r.button_disabled == self.creating,
    {
        let adding_worker = self.existing_mission.is_some();
        let mut rows: Vec<AgentRowView> = Vec::new();
        let mut i: usize = 0;
        while i < self.agents.len()
            invariant
                i <= self.agents.len(),
                rows.len() == i,
                forall|j: int|
                    0 <= j < i ==> shows_entry(
                        #[trigger] rows@[j],
                        self.agents@[j],
                        self.selected_index == Some(j as usize),
                    ),
            decreases self.agents.len() - i,
        {
            let entry = &self.agents[i];
            let focused = match self.selected_index {
                Some(index) => index == i,
                None => false,
            };
            rows.push(
                AgentRowView {
                    checked: entry.selected,
                    focused,
                    label: entry.label.clone(),
                    role_text: entry.role_text.clone(),
                },
            );
            i += 1;
        }
        OrchestratorModalView {
            headline: if adding_worker {
                "Add Worker"
            } else {
                "Create Mission"
            },
            description: if adding_worker {
                "Choose the Harnesses and roles to add to this Mission."
            } else {
                "Choose the Harnesses and roles for this Mission."
            },
            title_label: "Mission title",
            title_placeholder: "Mission title",
            list_label: "Harnesses and roles",
            rows,
            error: clone_opt(&self.error),
            button: if adding_worker {
                "Add Worker"
            } else {
                "Create Mission"
            },
            button_loading: self.creating,
            button_disabled: self.creating,
        }
    }
}

/// Whether `modal` is the dialog as it opens: our own agent chosen, the external ones offered,
/// each under its name; with the title fixed where workers are added to a mission.
pub open spec fn is_opened_for(
    modal: MissionOrchestratorModal,
    existing_mission: Option<Mission>,
    external_agents: Seq<ExternalAgent>,
) -> bool {
    &&& modal.existing_mission == existing_mission
    &&& match existing_mission {
        Some(mission) => modal.title_text@ == mission.title@ && modal.title_read_only,
        None => modal.title_text@.len() == 0 && !modal.title_read_only,
    }
    &&& modal.agents@.len() == external_agents.len() + 1
    &&& modal.agents@[0].agent == Agent::NativeAgent
    &&& modal.agents@[0].label@ == "Zed Agent"@
    &&& modal.agents@[0].selected
    &&& modal.agents@[0].role_text@ == "Zed Agent"@
    &&& forall|i: int|
        0 <= i < external_agents.len() ==> is_external_entry(
            #[trigger] modal.agents@[i + 1],
            external_agents[i],
        )
    &&& modal.selected_index == Some(0usize)
    &&& !modal.creating
    &&& modal.error is None
}

/// Opens the dialog that creates a mission, where the workspace has a panel of agents.
pub fn show_create_mission_modal(
    has_agent_panel: bool,
    external_agents: &Vec<ExternalAgent>,
) -> (r: Option<MissionOrchestratorModal>)
    ensures
        r is Some <==> has_agent_panel,
        r matches Some(modal) ==> is_opened_for(modal, None, external_agents@),
{
    show_mission_modal(has_agent_panel, None, external_agents)
}

/// Opens the dialog that adds workers to a mission, where the workspace has a panel of
/// agents.
pub fn add_worker_to_mission(
    mission: Mission,
    has_agent_panel: bool,
    external_agents: &Vec<ExternalAgent>,
) -> (r: Option<MissionOrchestratorModal>)
    ensures
        r is Some <==> has_agent_panel,
        r matches Some(modal) ==> is_opened_for(modal, Some(mission), external_agents@),
{
    show_mission_modal(has_agent_panel, Some(mission), external_agents)
}

fn show_mission_modal(
    has_agent_panel: bool,
    existing_mission: Option<Mission>,
    external_agents: &Vec<ExternalAgent>,
) -> (r: Option<MissionOrchestratorModal>)
    ensures
        r is Some <==> has_agent_panel,
        r matches Some(modal) ==> is_opened_for(modal, existing_mission, external_agents@),
{
    if has_agent_panel {
        Some(MissionOrchestratorModal::new(existing_mission, external_agents))
    } else {
        None
    }
}

/// A plan that the dialog hands on has a title for a new mission, at least one worker, and a
/// role for each that no other worker and no thread of the mission has.
pub proof fn a_plan_is_in_order(
    before: MissionOrchestratorModal,
    after: MissionOrchestratorModal,
    threads: Seq<ThreadMetadata>,
    plan: MissionPlan,
)
    requires
        before.judged(
            after,
            Some(plan),
            first_clash(
                chosen(before.agents@),
                taken_roles(threads, mission_of(before.existing_mission)),
            ),
        ),
    ensures
        plan.existing_mission is None ==> plan.title@.len() > 0,
        plan.specs@.len() > 0,
        forall|i: int| 0 <= i < plan.specs@.len() ==> (#[trigger] plan.specs@[i]).role@.len() > 0,
        forall|i: int, j: int|
            0 <= i < j < plan.specs@.len() ==> normalized((#[trigger] plan.specs@[i]).role@)
                != normalized((#[trigger] plan.specs@[j]).role@),
        forall|i: int|
            0 <= i < plan.specs@.len() ==> !taken_roles(
                threads,
                mission_of(plan.existing_mission),
            ).contains(normalized((#[trigger] plan.specs@[i]).role@)),
{
    let specs = chosen(before.agents@);
    let taken = taken_roles(threads, mission_of(before.existing_mission));
    accepted_roles_are_unique(specs, taken);
    chosen_roles_are_not_empty(before.agents@);
    assert forall|i: int| 0 <= i < plan.specs@.len() implies plan.specs@[i].role@ == specs[i].role by {
        assert(spec_views(plan.specs@)[i] == plan.specs@[i]@);
    }
    assert(plan.specs@.len() == specs.len());
    assert forall|i: int| 0 <= i < plan.specs@.len() implies (#[trigger] plan.specs@[i]).role@.len()
        > 0 by {
        assert(specs[i].role.len() > 0);
    }
    assert forall|i: int, j: int| 0 <= i < j < plan.specs@.len() implies normalized(
        (#[trigger] plan.specs@[i]).role@,
    ) != normalized((#[trigger] plan.specs@[j]).role@) by {
        assert(normalized(specs[i].role) != normalized(specs[j].role));
    }
    assert forall|i: int| 0 <= i < plan.specs@.len() implies !taken.contains(
        normalized((#[trigger] plan.specs@[i]).role@),
    ) by {
        assert(!taken.contains(normalized(specs[i].role)));
    }
}

proof fn chosen_roles_are_not_empty(entries: Seq<MissionAgentEntry>)
    ensures
        forall|i: int|
            0 <= i < chosen(entries).len() ==> (#[trigger] chosen(entries)[i]).role.len() > 0,
    decreases entries.len(),
{
    if entries.len() > 0 {
        chosen_roles_are_not_empty(entries.drop_last());
    }
}

} // verus!
