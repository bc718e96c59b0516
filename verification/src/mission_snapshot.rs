//! A mission as every surface reads it: its workers, the files they changed, and the user as
//! a teammate, lifted out of the threads in one pass.

use vstd::prelude::*;
use crate::mission_id::MissionId;
use crate::mission_orchestrator::state_of_source;
use crate::mission_orchestrator::thread_mission_state;
use crate::mission_orchestrator::MissionThreadState;
use crate::mission_changes::change_views;
use crate::mission_changes::changed_names;
use crate::mission_changes::counts_are;
use crate::mission_changes::file_names;
use crate::mission_changes::merge_worker_changes;
use crate::mission_changes::merges;
use crate::mission_changes::mission_counts;
use crate::mission_changes::sums_fit;
use crate::mission_changes::sums_up;
use crate::mission_changes::ChangeView;
use crate::mission_changes::MissionChange;
use crate::mission_changes::MissionCounts;
use crate::mission_changes::WorkerFileChange;
use crate::text::ascii_upper;
use crate::text::clone_opt;
use crate::text::is_ascii_text;
use crate::text::is_white_space;
use crate::text::opt_view;
use crate::text::text_less;
use crate::text::text_order_is_irreflexive;
use crate::text::to_chars;
use crate::text::to_uppercase;
use crate::text::uppercased;
use crate::text::white_space;
use crate::thread::active_tool_call_label;
use crate::thread::activity_label;
use crate::thread::assistant_summary;
use crate::thread::label_of;
use crate::thread::last_assistant_summary;
use crate::thread::permission_is;
use crate::thread::worker_label;
use crate::thread::ChangedFile;
use crate::thread::Mission;
use crate::thread::PendingPermission;
use crate::thread::ThreadMetadata;
use crate::thread::WorkerSource;

verus! {

/// One worker of a mission.
pub struct WorkerRow {
    pub metadata: ThreadMetadata,
    /// Whether the worker's thread is loaded, so that it can be read and written to.
    pub thread_loaded: bool,
    pub label: String,
    pub harness: String,
    /// What the worker is doing right now, if anything.
    pub activity: Option<String>,
    pub state: MissionThreadState,
    pub permission: Option<PendingPermission>,
    pub tokens: Option<u64>,
    /// What the worker has cost in dollars, with two decimals.
    pub cost: Option<String>,
    /// What the worker said last, in one line.
    pub summary: Option<String>,
}

/// The name that a worker's agent goes by: the one its server gives it, or else its own.
pub open spec fn harness_name(display_name: Option<String>, agent_label: String) -> Seq<char> {
    match display_name {
        Some(name) => name@,
        None => agent_label@,
    }
}

/// Whether `row` is what a worker's stored and loaded thread say.
pub open spec fn row_is(row: WorkerRow, source: WorkerSource) -> bool {
    &&& row.metadata == source.metadata
    &&& row.thread_loaded == source.thread is Some
    &&& row.label@ == label_of(source.metadata)
    &&& row.harness@ == harness_name(source.display_name, source.agent_label)
    &&& row.state == state_of_source(source.thread)
    &&& match source.thread {
        Some(thread) => {
            &&& permission_is(thread.entries@, row.permission)
            &&& opt_view(row.activity) == if row.permission is Some {
                Some("awaiting approval"@)
            } else {
                activity_label(thread.entries@)
            }
            &&& row.tokens == thread.used_tokens
            &&& row.cost == thread.cost
            &&& opt_view(row.summary) == assistant_summary(thread.entries@)
        },
        None => {
            &&& row.permission is None
            &&& row.activity is None
            &&& row.tokens is None
            &&& row.cost is None
            &&& row.summary is None
        },
    }
}

/// The stored threads that belong to a mission, in their order.
pub open spec fn mission_sources(sources: Seq<WorkerSource>, id: MissionId) -> Seq<WorkerSource>
    decreases sources.len(),
{
    if sources.len() == 0 {
        Seq::empty()
    } else {
        let before = mission_sources(sources.drop_last(), id);
        if sources.last().metadata.mission_id == Some(id) {
            before.push(sources.last())
        } else {
            before
        }
    }
}

/// A worker's edit to one file.
pub open spec fn file_change(source: WorkerSource, file: ChangedFile) -> ChangeView {
    ChangeView {
        worker: label_of(source.metadata),
        name: file.name@,
        lines_added: file.lines_added,
        lines_removed: file.lines_removed,
    }
}

/// The edits of one worker; none where its thread is not loaded.
pub open spec fn changes_of(source: WorkerSource) -> Seq<ChangeView> {
    match source.thread {
        Some(thread) => thread.changes@.map_values(|f: ChangedFile| file_change(source, f)),
        None => Seq::empty(),
    }
}

/// The edits of the workers, one worker after the other.
pub open spec fn worker_changes(workers: Seq<WorkerSource>) -> Seq<ChangeView>
    decreases workers.len(),
{
    if workers.len() == 0 {
        Seq::empty()
    } else {
        worker_changes(workers.drop_last()) + changes_of(workers.last())
    }
}

/// Whether the numbers of a mission stay within the machine's: the line counts of each file
/// within 32 bits, and the workers and edits together within a length.
pub open spec fn snapshot_fits(sources: Seq<WorkerSource>, id: MissionId) -> bool {
    let workers = mission_sources(sources, id);
    sums_fit(worker_changes(workers)) && workers.len() + worker_changes(workers).len() <= usize::MAX
}

/// The signed-in user.
pub struct User {
    pub name: Option<String>,
    pub username: String,
    pub avatar_uri: String,
}

/// The user, as a teammate of the agents.
pub struct HumanTeammate {
    pub name: String,
    pub initials: String,
    pub avatar: Option<String>,
    /// How much waits for the user: permission prompts and contended files.
    pub to_review: usize,
}

/// The position of the first character from `from` on that is no white space.
pub open spec fn word_start(s: Seq<char>, from: int) -> int
    decreases s.len() - from,
{
    if from >= s.len() {
        s.len() as int
    } else if is_white_space(s[from]) {
        word_start(s, from + 1)
    } else {
        from
    }
}

/// The position of the first white space from `from` on.
pub open spec fn word_end(s: Seq<char>, from: int) -> int
    decreases s.len() - from,
{
    if from >= s.len() {
        s.len() as int
    } else if is_white_space(s[from]) {
        from
    } else {
        word_end(s, from + 1)
    }
}

/// A letter in upper case; where that takes more than one character (as for `ß`), the first.
pub open spec fn upper_letter(c: char) -> char {
    let upper = uppercased(seq![c]);
    if upper.len() > 0 {
        upper[0]
    } else {
        c
    }
}

/// Up to two letters for a name: the first letters of its first two words, or the first two
/// letters of its only word, in upper case; `?` where it has no word.
pub open spec fn initials_of(name: Seq<char>) -> Seq<char> {
    let first = word_start(name, 0);
    let end = word_end(name, first);
    let second = word_start(name, end);
    if first >= name.len() {
        seq!['?']
    } else if second < name.len() {
        seq![upper_letter(name[first]), upper_letter(name[second])]
    } else if first + 1 < end {
        seq![upper_letter(name[first]), upper_letter(name[first + 1])]
    } else {
        seq![upper_letter(name[first])]
    }
}

fn find_word_start(chars: &Vec<char>, from: usize) -> (r: usize)
    requires
        from <= chars.len(),
    ensures
        r == word_start(chars@, from as int),
        from <= r <= chars.len(),
{
    let mut i: usize = from;
    while i < chars.len() && white_space(chars[i])
        invariant
            from <= i <= chars.len(),
            word_start(chars@, from as int) == word_start(chars@, i as int),
        decreases chars.len() - i,
    {
        i += 1;
    }
    i
}

fn find_word_end(chars: &Vec<char>, from: usize) -> (r: usize)
    requires
        from <= chars.len(),
    ensures
        r == word_end(chars@, from as int),
        from <= r <= chars.len(),
{
    let mut i: usize = from;
    while i < chars.len() && !white_space(chars[i])
        invariant
            from <= i <= chars.len(),
            word_end(chars@, from as int) == word_end(chars@, i as int),
        decreases chars.len() - i,
    {
        i += 1;
    }
    i
}

fn to_upper_letter(c: char) -> (r: char)
    ensures
        r == upper_letter(c),
        (c as u32) < 128 ==> r == ascii_upper(c),
{
    let mut letter = String::new();
    letter.push(c);
    assert(letter@ =~= seq![c]);
    let upper = to_uppercase(letter.as_str());
    if upper.as_str().unicode_len() > 0 {
        upper.as_str().get_char(0)
    } else {
        c
    }
}

/// One or two letters for a name, for a user without a picture.
pub fn initials(name: &str) -> (r: String)
    ensures
        r@ == initials_of(name@),
        1 <= r@.len() <= 2,
        is_ascii_text(name@) ==> forall|i: int|
            0 <= i < r@.len() ==> !('a' <= #[trigger] r@[i] <= 'z'),
{
    let chars = to_chars(name);
    let n: usize = chars.len();
    let first: usize = find_word_start(&chars, 0);
    let mut letters = String::new();
    if first == n {
        letters.push('?');
        assert(letters@ =~= seq!['?']);
        return letters;
    }
    let end: usize = find_word_end(&chars, first);
    let second: usize = find_word_start(&chars, end);
    letters.push(to_upper_letter(chars[first]));
    if second < n {
        letters.push(to_upper_letter(chars[second]));
    } else if end - first > 1 {
        letters.push(to_upper_letter(chars[first + 1]));
    }
    assert(letters@ =~= initials_of(name@));
    letters
}

proof fn word_start_in_a_longer_text(s: Seq<char>, more: Seq<char>, from: int)
    requires
        0 <= from,
        word_start(s, from) < s.len(),
    ensures
        word_start(s + more, from) == word_start(s, from),
    decreases s.len() - from,
{
    if from < s.len() && is_white_space(s[from]) {
        word_start_in_a_longer_text(s, more, from + 1);
    }
}

proof fn word_end_in_a_longer_text(s: Seq<char>, more: Seq<char>, from: int)
    requires
        0 <= from,
        word_end(s, from) < s.len(),
    ensures
        word_end(s + more, from) == word_end(s, from),
    decreases s.len() - from,
{
    if from < s.len() && !is_white_space(s[from]) {
        word_end_in_a_longer_text(s, more, from + 1);
    }
}

proof fn word_bounds(s: Seq<char>, from: int)
    requires
        0 <= from,
    ensures
        word_start(s, from) >= from || word_start(s, from) == s.len(),
        word_end(s, from) >= from || word_end(s, from) == s.len(),
    decreases s.len() - from,
{
    if from < s.len() {
        word_bounds(s, from + 1);
    }
}

/// Initials are one or two characters, and `?` for a name without a word.
pub proof fn initials_are_one_or_two(name: Seq<char>)
    ensures
        1 <= initials_of(name).len() <= 2,
        word_start(name, 0) >= name.len() ==> initials_of(name) == seq!['?'],
{
}

/// Once a name has two words, nothing behind them matters for its initials.
pub proof fn further_words_do_not_matter(name: Seq<char>, more: Seq<char>)
    requires
        word_start(name, word_end(name, word_start(name, 0))) < name.len(),
    ensures
        initials_of(name + more) == initials_of(name),
{
    let first = word_start(name, 0);
    let end = word_end(name, first);
    let second = word_start(name, end);
    word_bounds(name, 0);
    word_bounds(name, first);
    word_bounds(name, end);
    word_start_in_a_longer_text(name, more, 0);
    word_end_in_a_longer_text(name, more, first);
    word_start_in_a_longer_text(name, more, end);
    assert((name + more)[first] == name[first]);
    assert((name + more)[second] == name[second]);
}

/// What the user is called: by name, by user name, or just "You" where nobody is signed in.
pub open spec fn human_name(user: Option<User>) -> Seq<char> {
    match user {
        Some(u) => match u.name {
            Some(name) => name@,
            None => u.username@,
        },
        None => "You"@,
    }
}

/// Whether `human` is the user, with so much waiting for them.
pub open spec fn human_is(human: HumanTeammate, user: Option<User>, to_review: int) -> bool {
    &&& human.name@ == human_name(user)
    &&& human.initials@ == initials_of(human_name(user))
    &&& opt_view(human.avatar) == match user {
        Some(u) => Some(u.avatar_uri@),
        None => None,
    }
    &&& human.to_review == to_review
}

impl HumanTeammate {
    /// The user, with so much waiting for them.
    pub fn new(user: &Option<User>, to_review: usize) -> (r: Self)
        ensures
            human_is(r, *user, to_review as int),
    {
        let name = match user {
            Some(u) => match &u.name {
                Some(name) => name.clone(),
                None => u.username.clone(),
            },
            None => "You".to_owned(),
        };
        let avatar = match user {
            Some(u) => Some(u.avatar_uri.clone()),
            None => None,
        };
        HumanTeammate { initials: initials(name.as_str()), avatar, name, to_review }
    }
}

/// Everything that a surface draws of a mission.
pub struct MissionSnapshot {
    pub mission: Option<Mission>,
    pub workers: Vec<WorkerRow>,
    pub changes: Vec<MissionChange>,
    pub human: HumanTeammate,
}

/// The states of the workers.
pub open spec fn states_of(workers: Seq<WorkerRow>) -> Seq<MissionThreadState> {
    workers.map_values(|w: WorkerRow| w.state)
}

/// The files that more than one worker touched.
pub open spec fn contended_of(changes: Seq<MissionChange>) -> Seq<MissionChange>
    decreases changes.len(),
{
    if changes.len() == 0 {
        Seq::empty()
    } else if changes.last().contended() {
        contended_of(changes.drop_last()).push(changes.last())
    } else {
        contended_of(changes.drop_last())
    }
}

/// The workers that wait for a permission.
pub open spec fn blocked_of(workers: Seq<WorkerRow>) -> Seq<WorkerRow>
    decreases workers.len(),
{
    if workers.len() == 0 {
        Seq::empty()
    } else if workers.last().permission is Some {
        blocked_of(workers.drop_last()).push(workers.last())
    } else {
        blocked_of(workers.drop_last())
    }
}

/// The tokens that the workers have used.
pub open spec fn tokens_of(workers: Seq<WorkerRow>) -> nat
    decreases workers.len(),
{
    if workers.len() == 0 {
        0
    } else {
        tokens_of(workers.drop_last()) + match workers.last().tokens {
            Some(tokens) => tokens as nat,
            None => 0,
        }
    }
}

proof fn tokens_grow(workers: Seq<WorkerRow>, n: int)
    requires
        0 <= n <= workers.len(),
    ensures
        tokens_of(workers.take(n)) <= tokens_of(workers),
    decreases workers.len() - n,
{
    if n < workers.len() {
        assert(workers.take(n + 1).drop_last() =~= workers.take(n));
        tokens_grow(workers, n + 1);
    } else {
        assert(workers.take(n) =~= workers);
    }
}

fn worker_states(workers: &Vec<WorkerRow>) -> (r: Vec<MissionThreadState>)
    ensures
        r@ == states_of(workers@),
{
    let mut states: Vec<MissionThreadState> = Vec::new();
    let mut i: usize = 0;
    while i < workers.len()
        invariant
            i <= workers.len(),
            states@ == states_of(workers@).take(i as int),
        decreases workers.len() - i,
    {
        states.push(workers[i].state);
        i += 1;
        assert(states@ =~= states_of(workers@).take(i as int));
    }
    assert(states@ =~= states_of(workers@));
    states
}

/// The workers that wait for a permission.
pub fn blocked_workers(workers: &Vec<WorkerRow>) -> (r: Vec<&WorkerRow>)
    ensures
        r@.map_values(|w: &WorkerRow| *w) == blocked_of(workers@),
        r.len() <= workers.len(),
{
    let mut blocked: Vec<&WorkerRow> = Vec::new();
    let mut i: usize = 0;
    assert(blocked@.map_values(|w: &WorkerRow| *w) =~= blocked_of(workers@.take(0)));
    while i < workers.len()
        invariant
            i <= workers.len(),
            blocked.len() <= i,
            blocked@.map_values(|w: &WorkerRow| *w) == blocked_of(workers@.take(i as int)),
        decreases workers.len() - i,
    {
        assert(workers@.take(i + 1).drop_last() =~= workers@.take(i as int));
        if workers[i].permission.is_some() {
            let ghost before = blocked@;
            blocked.push(&workers[i]);
            assert(blocked@.map_values(|w: &WorkerRow| *w) =~= before.map_values(
                |w: &WorkerRow| *w,
            ).push(workers@[i as int]));
        }
        i += 1;
    }
    assert(workers@.take(i as int) =~= workers@);
    blocked
}

/// The files that more than one worker touched.
pub fn contended_changes(changes: &Vec<MissionChange>) -> (r: Vec<&MissionChange>)
    ensures
        r@.map_values(|c: &MissionChange| *c) == contended_of(changes@),
        r.len() <= changes.len(),
{
    let mut contended: Vec<&MissionChange> = Vec::new();
    let mut i: usize = 0;
    assert(contended@.map_values(|c: &MissionChange| *c) =~= contended_of(changes@.take(0)));
    while i < changes.len()
        invariant
            i <= changes.len(),
            contended.len() <= i,
            contended@.map_values(|c: &MissionChange| *c) == contended_of(changes@.take(i as int)),
        decreases changes.len() - i,
    {
        assert(changes@.take(i + 1).drop_last() =~= changes@.take(i as int));
        if changes[i].is_contended() {
            let ghost before = contended@;
            contended.push(&changes[i]);
            assert(contended@.map_values(|c: &MissionChange| *c) =~= before.map_values(
                |c: &MissionChange| *c,
            ).push(changes@[i as int]));
        }
        i += 1;
    }
    assert(changes@.take(i as int) =~= changes@);
    contended
}

impl MissionSnapshot {
    /// The numbers of the summary.
    pub fn counts(&self) -> (r: MissionCounts)
        ensures
            counts_are(states_of(self.workers@), r),
    {
        let states = worker_states(&self.workers);
        mission_counts(states.as_slice())
    }

    /// The files that more than one worker touched.
    pub fn contended(&self) -> (r: Vec<&MissionChange>)
        ensures
            r@.map_values(|c: &MissionChange| *c) == contended_of(self.changes@),
    {
        contended_changes(&self.changes)
    }

    /// The workers that wait for a permission.
    pub fn blocked(&self) -> (r: Vec<&WorkerRow>)
        ensures
            r@.map_values(|w: &WorkerRow| *w) == blocked_of(self.workers@),
    {
        blocked_workers(&self.workers)
    }

    /// The tokens that the workers have used, as far as they say.
    pub fn total_tokens(&self) -> (r: u64)
        requires
            tokens_of(self.workers@) <= u64::MAX,
        ensures
            r == tokens_of(self.workers@),
    {
        let mut total: u64 = 0;
        let mut i: usize = 0;
        while i < self.workers.len()
            invariant
                i <= self.workers.len(),
                tokens_of(self.workers@) <= u64::MAX,
                total == tokens_of(self.workers@.take(i as int)),
            decreases self.workers.len() - i,
        {
            proof {
                assert(self.workers@.take(i + 1).drop_last() =~= self.workers@.take(i as int));
                tokens_grow(self.workers@, i + 1);
            }
            match self.workers[i].tokens {
                Some(tokens) => {
                    total = total + tokens;
                },
                None => {},
            }
            i += 1;
        }
        assert(self.workers@.take(i as int) =~= self.workers@);
        total
    }
}

/// What the surfaces read of a workspace: the stored threads, and the signed-in user.
pub struct WorkspaceState {
    pub sources: Vec<WorkerSource>,
    pub user: Option<User>,
}

/// Whether `rows` are what the threads of the workers say, in their order.
pub open spec fn rows_are(rows: Seq<WorkerRow>, workers: Seq<WorkerSource>) -> bool {
    &&& rows.len() == workers.len()
    &&& forall|i: int| 0 <= i < rows.len() ==> row_is(#[trigger] rows[i], workers[i])
}

/// Whether a snapshot is what the workspace says of a mission; without a workspace there is
/// nothing to say but the mission itself.
pub open spec fn snapshot_is(
    snapshot: MissionSnapshot,
    mission: Mission,
    workspace: Option<WorkspaceState>,
) -> bool {
    &&& snapshot.mission == Some(mission)
    &&& match workspace {
        None => {
            &&& snapshot.workers@.len() == 0
            &&& snapshot.changes@.len() == 0
            &&& human_is(snapshot.human, None, 0)
        },
        Some(state) => {
            let workers = mission_sources(state.sources@, mission.id);
            &&& rows_are(snapshot.workers@, workers)
            &&& merges(worker_changes(workers), snapshot.changes@)
            &&& human_is(
                snapshot.human,
                state.user,
                (blocked_of(snapshot.workers@).len() + contended_of(
                    snapshot.changes@,
                ).len()) as int,
            )
        },
    }
}

fn worker_row(source: &WorkerSource) -> (r: WorkerRow)
    ensures
        row_is(r, *source),
{
    let harness = match &source.display_name {
        Some(name) => name.clone(),
        None => source.agent_label.clone(),
    };
    let state = thread_mission_state(&source.thread);
    let label = worker_label(&source.metadata);
    let metadata = source.metadata.clone();
    match &source.thread {
        Some(thread) => {
            let permission = PendingPermission::for_thread(thread);
            let activity = if permission.is_some() {
                Some("awaiting approval".to_owned())
            } else {
                active_tool_call_label(thread)
            };
            WorkerRow {
                metadata,
                thread_loaded: true,
                label,
                harness,
                activity,
                state,
                permission,
                tokens: thread.used_tokens,
                cost: clone_opt(&thread.cost),
                summary: last_assistant_summary(thread),
            }
        },
        None => WorkerRow {
            metadata,
            thread_loaded: false,
            label,
            harness,
            activity: None,
            state,
            permission: None,
            tokens: None,
            cost: None,
            summary: None,
        },
    }
}

/// Puts the edits of one worker behind `flat`.
fn add_changes(flat: &mut Vec<WorkerFileChange>, source: &WorkerSource)
    ensures
        change_views(final(flat)@) == change_views(old(flat)@) + changes_of(*source),
{
    let ghost before = change_views(flat@);
    let ghost more = changes_of(*source);
    match &source.thread {
        Some(thread) => {
            let mut i: usize = 0;
            assert(change_views(flat@) =~= before + more.take(0));
            while i < thread.changes.len()
                invariant
                    i <= thread.changes.len(),
                    source.thread == Some(*thread),
                    more == changes_of(*source),
                    change_views(flat@) == before + more.take(i as int),
                decreases thread.changes.len() - i,
            {
                let file = &thread.changes[i];
                let change = WorkerFileChange {
                    worker: worker_label(&source.metadata),
                    name: file.name.clone(),
                    lines_added: file.lines_added,
                    lines_removed: file.lines_removed,
                };
                let ghost listed = change_views(flat@);
                flat.push(change);
                i += 1;
                proof {
                    assert(change@ == more[i - 1]);
                    assert(change_views(flat@) =~= listed.push(change@));
                    assert(change_views(flat@) =~= before + more.take(i as int));
                }
            }
            assert(more.take(i as int) =~= more);
        },
        None => {
            assert(before + more =~= before);
        },
    }
}

proof fn no_more_files_than_changes(changes: Seq<ChangeView>, merged: Seq<MissionChange>)
    requires
        merges(changes, merged),
    ensures
        merged.len() <= changes.len(),
{
    let names = file_names(merged);
    let all = changed_names(changes);
    assert forall|i: int, j: int| 0 <= i < names.len() && 0 <= j < names.len() && i != j implies names[i]
        != names[j] by {
        text_order_is_irreflexive(names[i]);
        if i < j {
            assert(text_less(merged[i].name@, merged[j].name@));
        } else {
            assert(text_less(merged[j].name@, merged[i].name@));
        }
    }
    assert(names.to_set().subset_of(all.to_set())) by {
        assert forall|x: Seq<char>| names.to_set().contains(x) implies all.to_set().contains(x) by {
            let k = choose|k: int| 0 <= k < names.len() && names[k] == x;
            assert(sums_up(changes, merged[k]));
        }
    }
    names.unique_seq_to_set();
    all.lemma_cardinality_of_set();
    vstd::set_lib::lemma_len_subset(names.to_set(), all.to_set());
}

/// Everything that a surface draws of a mission, in one pass over the threads.
pub fn mission_snapshot(
    mission: &Mission,
    workspace: Option<&WorkspaceState>,
) -> (r: MissionSnapshot)
    requires
        workspace matches Some(state) ==> snapshot_fits(state.sources@, mission.id),
    ensures
        snapshot_is(
            r,
            *mission,
            match workspace {
                Some(state) => Some(*state),
                None => None,
            },
        ),
{
    let state = match workspace {
        Some(state) => state,
        None => return MissionSnapshot {
            mission: Some(mission.clone()),
            workers: Vec::new(),
            changes: Vec::new(),
            human: HumanTeammate::new(&None, 0),
        },
    };
    let sources = &state.sources;
    let mut workers: Vec<WorkerRow> = Vec::new();
    let mut flat: Vec<WorkerFileChange> = Vec::new();
    let mut i: usize = 0;
    assert(change_views(flat@) =~= worker_changes(mission_sources(sources@.take(0), mission.id)));
    while i < sources.len()
        invariant
            i <= sources.len(),
            *sources == state.sources,
            rows_are(workers@, mission_sources(sources@.take(i as int), mission.id)),
            change_views(flat@) == worker_changes(
                mission_sources(sources@.take(i as int), mission.id),
            ),
        decreases sources.len() - i,
    {
        let ghost before = mission_sources(sources@.take(i as int), mission.id);
        assert(sources@.take(i + 1).drop_last() =~= sources@.take(i as int));
        if sources[i].metadata.mission_id == Some(mission.id) {
            let ghost now = before.push(sources@[i as int]);
            workers.push(worker_row(&sources[i]));
            add_changes(&mut flat, &sources[i]);
            proof {
                assert(now.drop_last() =~= before);
                assert forall|j: int| 0 <= j < workers.len() implies row_is(
                    #[trigger] workers@[j],
                    now[j],
                ) by {
                    if j < before.len() {
                        assert(row_is(workers@[j], before[j]));
                    }
                }
            }
        }
        i += 1;
    }
    assert(sources@.take(i as int) =~= sources@);
    let changes = merge_worker_changes(&flat);
    let blocked: usize = blocked_workers(&workers).len();
    let contended: usize = contended_changes(&changes).len();
    proof {
        no_more_files_than_changes(change_views(flat@), changes@);
        assert(change_views(flat@).len() == flat.len());
    }
    MissionSnapshot {
        mission: Some(mission.clone()),
        workers,
        changes,
        human: HumanTeammate::new(&state.user, blocked + contended),
    }
}

} // verus!
