//! The pages of a mission: its shared context, its evidence, and the queue of what waits for
//! the user; and the line about the mission in the status bar.

use vstd::prelude::*;
use crate::mission_changes::count_of;
use crate::mission_changes::MissionChange;
use crate::mission_id::hyphenated_form;
use crate::mission_id::short_mission_id;
use crate::mission_id::MissionId;
use crate::mission_orchestrator::MissionThreadState;
use crate::mission_panel::ago;
use crate::mission_panel::attributed_to;
use crate::mission_panel::attribution;
use crate::mission_panel::byline_text;
use crate::mission_panel::context_state_is;
use crate::mission_panel::counted;
use crate::mission_panel::counted_text;
use crate::mission_panel::diff_thread;
use crate::mission_panel::diff_thread_of;
use crate::mission_panel::evidence_is_stale;
use crate::mission_panel::find_worker;
use crate::mission_panel::first_position;
use crate::mission_panel::is_stale;
use crate::mission_panel::mission_context_state_from_result;
use crate::mission_panel::newest_artifact;
use crate::mission_panel::newest_of;
use crate::mission_panel::relative_time;
use crate::mission_panel::worker_named;
use crate::mission_panel::MissionContextState;
use crate::mission_snapshot::blocked_of;
use crate::mission_snapshot::contended_of;
use crate::mission_snapshot::states_of;
use crate::mission_snapshot::tokens_of;
use crate::mission_snapshot::MissionSnapshot;
use crate::mission_snapshot::WorkerRow;
use crate::shared_context::Artifact;
use crate::shared_context::Decision;
use crate::shared_context::Evidence;
use crate::shared_context::MissionContext;
use crate::text::contains_text;
use crate::text::decimal;
use crate::text::decimal_text;
use crate::text::has_part;
use crate::text::join;
use crate::text::joined;
use crate::text::lowercased;
use crate::text::opt_view;
use crate::text::signed_decimal;
use crate::text::signed_decimal_text;
use crate::text::text_eq;
use crate::text::to_lowercase;
use crate::text::trim;
use crate::text::trim_nonempty;
use crate::text::trimmed;
use crate::text::nonempty_trimmed;
use crate::text::views;
use crate::thread::Mission;
use crate::thread::ThreadId;
use crate::time::Timestamp;
use crate::token_count::format_token_count;
use crate::token_count::token_count;
use crate::ui::bilingual_label;
use crate::ui::section_header;
use crate::ui::BilingualLabel;
use crate::ui::Button;
use crate::ui::Color;
use crate::ui::IconName;
use crate::ui::Label;
use crate::ui::SectionHeader;
use crate::worker_dashboard::answer_button;
use crate::worker_dashboard::is_answer;
use crate::worker_dashboard::AnswerButton;
use crate::worker_dashboard::Deployment;

verus! {

/// Whether `r` shows the first open page of the mission again, or opens one where there is
/// none.
pub open spec fn deployed(
    open_pages: Seq<MissionId>,
    mission_id: MissionId,
    r: Deployment,
) -> bool {
    match r {
        Deployment::Activate(i) => i == first_position(open_pages, mission_id) && i
            < open_pages.len(),
        Deployment::Open => first_position(open_pages, mission_id) == open_pages.len(),
    }
}

fn deploy_page(open_pages: &Vec<MissionId>, mission_id: MissionId) -> (r: Deployment)
    ensures
        deployed(open_pages@, mission_id, r),
{
    let mut i: usize = 0;
    assert(open_pages@.subrange(0, open_pages@.len() as int) =~= open_pages@);
    while i < open_pages.len()
        invariant
            i <= open_pages.len(),
            first_position(open_pages@, mission_id) == i + first_position(
                open_pages@.subrange(i as int, open_pages@.len() as int),
                mission_id,
            ),
        decreases open_pages.len() - i,
    {
        let ghost rest = open_pages@.subrange(i as int, open_pages@.len() as int);
        assert(rest[0] == open_pages@[i as int]);
        assert(rest.subrange(1, rest.len() as int) =~= open_pages@.subrange(
            i + 1,
            open_pages@.len() as int,
        ));
        if open_pages[i] == mission_id {
            return Deployment::Activate(i);
        }
        i += 1;
    }
    Deployment::Open
}

/// Whether a text answers a search: it holds what is searched for, in whatever case; a blank
/// search finds everything.
pub open spec fn found(haystack: Seq<char>, query: Seq<char>) -> bool {
    query.len() == 0 || has_part(lowercased(haystack), query)
}

/// Whether a text answers a search.
pub fn answers_query(haystack: &str, query: &str) -> (r: bool)
    ensures
        r == found(haystack@, query@),
{
    if query.unicode_len() == 0 {
        return true;
    }
    contains_text(to_lowercase(haystack).as_str(), query)
}

/// Whether an optional text is there and answers a search.
pub open spec fn found_in(haystack: Option<String>, query: Seq<char>) -> bool {
    match haystack {
        Some(text) => found(text@, query),
        None => false,
    }
}

fn role_answers(role: &Option<String>, query: &str) -> (r: bool)
    ensures
        r == found_in(*role, query@),
{
    match role {
        Some(text) => answers_query(text.as_str(), query),
        None => false,
    }
}

/// A row of the shared context.
pub struct ContextRow {
    pub title: String,
    /// Whose the row is, and what else is said before the time.
    pub byline: String,
    pub created_at: Timestamp,
    pub trailing: Option<(&'static str, Color)>,
}

/// The mathematical value of a `ContextRow`.
pub struct ContextRowView {
    pub title: Seq<char>,
    pub byline: Seq<char>,
    pub created_at: Timestamp,
    pub trailing: Option<(Seq<char>, Color)>,
}

impl View for ContextRow {
    type V = ContextRowView;

    open spec fn view(&self) -> ContextRowView {
        ContextRowView {
            title: self.title@,
            byline: self.byline@,
            created_at: self.created_at,
            trailing: match self.trailing {
                Some((text, color)) => Some((text@, color)),
                None => None,
            },
        }
    }
}

pub open spec fn row_views(rows: Seq<ContextRow>) -> Seq<ContextRowView> {
    rows.map_values(|r: ContextRow| r@)
}

impl ContextRow {
    /// The line under the title, from the words for the time that has passed.
    pub fn byline_with(&self, elapsed: &str) -> (r: String)
        ensures
            r@ == byline_text(self.byline@, elapsed@),
    {
        let mut r = self.byline.clone();
        r.append(" · ");
        r.append(relative_time(elapsed).as_str());
        r
    }
}

/// Whether a decision answers a search.
pub open spec fn decision_found(d: Decision, query: Seq<char>) -> bool {
    found(d.value@, query) || found(d.key@, query) || found(d.author@, query) || found_in(
        d.role,
        query,
    )
}

/// Whether an artifact answers a search.
pub open spec fn artifact_found(a: Artifact, query: Seq<char>) -> bool {
    found(a.path@, query) || found(a.change_summary@, query) || found(a.author@, query) || found_in(
        a.role,
        query,
    )
}

/// Whether evidence answers a search.
pub open spec fn evidence_found(e: Evidence, query: Seq<char>) -> bool {
    found(e.command@, query) || found(e.author@, query) || found_in(e.role, query)
}

/// A decision's row.
pub open spec fn decision_row(d: Decision) -> ContextRowView {
    ContextRowView {
        title: d.value@,
        byline: attributed_to(d.role, d.author),
        created_at: d.created_at,
        trailing: None,
    }
}

/// An artifact's row.
pub open spec fn artifact_row(a: Artifact) -> ContextRowView {
    ContextRowView {
        title: a.path@,
        byline: a.author@ + " · "@ + a.change_summary@,
        created_at: a.created_at,
        trailing: None,
    }
}

/// The row of a piece of evidence, with whether it still holds.
pub open spec fn evidence_row(e: Evidence, newest: Option<Timestamp>) -> ContextRowView {
    ContextRowView {
        title: e.command@,
        byline: attributed_to(e.role, e.author),
        created_at: e.created_at,
        trailing: Some(
            if is_stale(e.created_at, newest) {
                ("stale"@, Color::Warning)
            } else {
                ("current"@, Color::Muted)
            },
        ),
    }
}

/// Something that was recorded, as the page of shared context searches and shows it.
pub trait ContextEntry: Sized {
    /// Whether it answers a search.
    spec fn answers(&self, query: Seq<char>) -> bool;

    /// Its row, where the newest artifact is of `newest`.
    spec fn shown(&self, newest: Option<Timestamp>) -> ContextRowView;

    /// Whether it answers a search.
    fn is_found(&self, query: &str) -> (r: bool)
        ensures
            r == self.answers(query@),
    ;

    /// Its row, where the newest artifact is of `newest`.
    fn to_row(&self, newest: Option<Timestamp>) -> (r: ContextRow)
        ensures
            r@ == self.shown(newest),
    ;

    /// A search for nothing finds it.
    proof fn a_blank_search_finds_it(&self)
        ensures
            self.answers(Seq::empty()),
    ;
}

impl ContextEntry for Decision {
    open spec fn answers(&self, query: Seq<char>) -> bool {
        decision_found(*self, query)
    }

    open spec fn shown(&self, newest: Option<Timestamp>) -> ContextRowView {
        decision_row(*self)
    }

    fn is_found(&self, query: &str) -> (r: bool) {
        answers_query(self.value.as_str(), query) || answers_query(self.key.as_str(), query)
            || answers_query(self.author.as_str(), query) || role_answers(&self.role, query)
    }

    fn to_row(&self, newest: Option<Timestamp>) -> (r: ContextRow) {
        ContextRow {
            title: self.value.clone(),
            byline: attribution(&self.role, &self.author),
            created_at: self.created_at,
            trailing: None,
        }
    }

    proof fn a_blank_search_finds_it(&self) {
    }
}

impl ContextEntry for Artifact {
    open spec fn answers(&self, query: Seq<char>) -> bool {
        artifact_found(*self, query)
    }

    open spec fn shown(&self, newest: Option<Timestamp>) -> ContextRowView {
        artifact_row(*self)
    }

    fn is_found(&self, query: &str) -> (r: bool) {
        answers_query(self.path.as_str(), query) || answers_query(
            self.change_summary.as_str(),
            query,
        ) || answers_query(self.author.as_str(), query) || role_answers(&self.role, query)
    }

    fn to_row(&self, newest: Option<Timestamp>) -> (r: ContextRow) {
        let mut byline = self.author.clone();
        byline.append(" · ");
        byline.append(self.change_summary.as_str());
        ContextRow {
            title: self.path.clone(),
            byline,
            created_at: self.created_at,
            trailing: None,
        }
    }

    proof fn a_blank_search_finds_it(&self) {
    }
}

impl ContextEntry for Evidence {
    open spec fn answers(&self, query: Seq<char>) -> bool {
        evidence_found(*self, query)
    }

    open spec fn shown(&self, newest: Option<Timestamp>) -> ContextRowView {
        evidence_row(*self, newest)
    }

    fn is_found(&self, query: &str) -> (r: bool) {
        answers_query(self.command.as_str(), query) || answers_query(self.author.as_str(), query)
            || role_answers(&self.role, query)
    }

    fn to_row(&self, newest: Option<Timestamp>) -> (r: ContextRow) {
        ContextRow {
            title: self.command.clone(),
            byline: attribution(&self.role, &self.author),
            created_at: self.created_at,
            trailing: Some(
                if evidence_is_stale(self.created_at, newest) {
                    ("stale", Color::Warning)
                } else {
                    ("current", Color::Muted)
                },
            ),
        }
    }

    proof fn a_blank_search_finds_it(&self) {
    }
}

/// The rows of the entries that answer a search, newest first.
pub open spec fn found_rows<E: ContextEntry>(
    entries: Seq<E>,
    query: Seq<char>,
    newest: Option<Timestamp>,
) -> Seq<ContextRowView>
    decreases entries.len(),
{
    if entries.len() == 0 {
        Seq::empty()
    } else {
        let rest = found_rows(entries.drop_last(), query, newest);
        if entries.last().answers(query) {
            seq![entries.last().shown(newest)] + rest
        } else {
            rest
        }
    }
}

fn matching_rows<E: ContextEntry>(
    entries: &Vec<E>,
    query: &str,
    newest: Option<Timestamp>,
) -> (r: Vec<ContextRow>)
    ensures
        row_views(r@) == found_rows(entries@, query@, newest),
{
    let mut rows: Vec<ContextRow> = Vec::new();
    let mut i: usize = entries.len();
    let ghost all = found_rows(entries@, query@, newest);
    assert(entries@.take(i as int) =~= entries@);
    assert(row_views(rows@) + all =~= all);
    while i > 0
        invariant
            i <= entries.len(),
            row_views(rows@) + found_rows(entries@.take(i as int), query@, newest) == all,
        decreases i,
    {
        let entry = &entries[i - 1];
        let ghost here = entries@.take(i as int);
        let ghost before = row_views(rows@);
        assert(here.drop_last() =~= entries@.take(i - 1));
        assert(here.last() == *entry);
        if entry.is_found(query) {
            let row = entry.to_row(newest);
            rows.push(row);
            assert(row_views(rows@) =~= before.push(row@));
            assert(row_views(rows@) + found_rows(entries@.take(i - 1), query@, newest) =~= before
                + found_rows(here, query@, newest));
        }
        i -= 1;
    }
    assert(found_rows(entries@.take(0), query@, newest) =~= Seq::<ContextRowView>::empty());
    assert(row_views(rows@) =~= all);
    rows
}

/// The page of a mission's shared context.
pub struct SharedContextView {
    pub mission: Mission,
    pub context_state: MissionContextState,
    /// What is typed in the field for a search.
    pub filter_text: String,
}

/// What the page of shared context shows under its head.
pub enum ContextBody {
    Message(&'static str),
    Trail {
        decisions_header: SectionHeader,
        decisions: Vec<ContextRow>,
        artifacts_header: SectionHeader,
        artifacts: Vec<ContextRow>,
        evidence_header: SectionHeader,
        open_all: &'static str,
        evidence: Vec<ContextRow>,
    },
}

/// Whether `body` says `message`.
pub open spec fn body_says(body: ContextBody, message: Seq<char>) -> bool {
    body matches ContextBody::Message(text) && text@ == message
}

/// Whether `body` shows what of a context answers a search, with how much there is in all.
pub open spec fn body_shows(body: ContextBody, context: MissionContext, query: Seq<char>) -> bool {
    match body {
        ContextBody::Message(_) => false,
        ContextBody::Trail {
            decisions_header,
            decisions,
            artifacts_header,
            artifacts,
            evidence_header,
            open_all,
            evidence,
        } => {
            &&& decisions_header.reads(
                "DECISIONS"@,
                "决策"@,
                Some(decimal(context.decisions@.len())),
            )
            &&& row_views(decisions@) == found_rows(
                context.decisions@,
                query,
                newest_of(context.artifacts@),
            )
            &&& artifacts_header.reads(
                "ARTIFACTS"@,
                "产出物"@,
                Some(decimal(context.artifacts@.len())),
            )
            &&& row_views(artifacts@) == found_rows(
                context.artifacts@,
                query,
                newest_of(context.artifacts@),
            )
            &&& evidence_header.reads(
                "EVIDENCE"@,
                "验证证据"@,
                Some(decimal(context.evidence@.len())),
            )
            &&& open_all@ == "Open all"@
            &&& row_views(evidence@) == found_rows(
                context.evidence@,
                query,
                newest_of(context.artifacts@),
            )
        },
    }
}

/// The page of shared context, from top to bottom.
pub struct SharedContextPage {
    pub title: BilingualLabel,
    pub subtitle: String,
    /// The button that reads the context anew, as `refresh_key` says.
    pub reload: IconName,
    pub search_placeholder: &'static str,
    pub body: ContextBody,
    pub subscribed: BilingualLabel,
    pub subscribers: Vec<String>,
}

/// The names of the workers.
pub open spec fn worker_labels(workers: Seq<WorkerRow>) -> Seq<Seq<char>> {
    workers.map_values(|w: WorkerRow| w.label@)
}

fn labels_of(workers: &Vec<WorkerRow>) -> (r: Vec<String>)
    ensures
        views(r@) == worker_labels(workers@),
{
    let mut labels: Vec<String> = Vec::new();
    let mut i: usize = 0;
    while i < workers.len()
        invariant
            i <= workers.len(),
            views(labels@) == worker_labels(workers@).take(i as int),
        decreases workers.len() - i,
    {
        let ghost before = views(labels@);
        labels.push(workers[i].label.clone());
        assert(views(labels@) =~= before.push(workers@[i as int].label@));
        i += 1;
        assert(views(labels@) =~= worker_labels(workers@).take(i as int));
    }
    assert(views(labels@) =~= worker_labels(workers@));
    labels
}

impl SharedContextView {
    /// Whether a page of this kind that is open for the mission is to be shown again, or a
    /// new one opened; `open_pages` are the missions that the open ones are about.
    pub fn deploy(open_pages: &Vec<MissionId>, mission_id: MissionId) -> (r: Deployment)
        ensures
            deployed(open_pages@, mission_id, r),
    {
        deploy_page(open_pages, mission_id)
    }

    /// The page as it opens; the context of its mission is to be asked for.
    pub fn new(mission: Mission) -> (r: Self)
        ensures
            r.mission == mission,
            r.context_state is Loading,
            r.filter_text@.len() == 0,
    {
        SharedContextView {
            mission,
            context_state: MissionContextState::Loading,
            filter_text: String::new(),
        }
    }

    /// The key to ask the store of shared context with, when the page opens and whenever the
    /// user asks for a reload.
    pub fn refresh_key(&self) -> (r: String)
        ensures
            r@ == hyphenated_form(self.mission.id.value),
    {
        self.mission.id.to_key_string()
    }

    /// Takes the outcome of a query for the context; `None` where there is no store.
    pub fn context_loaded(&mut self, result: Option<Result<MissionContext, String>>)
        ensures
            context_state_is(final(self).context_state, result),
            *final(self) == (SharedContextView {
                context_state: final(self).context_state,
                ..*old(self)
            }),
    {
        self.context_state = mission_context_state_from_result(result);
    }

    /// What is searched for.
    pub open spec fn searched(self) -> Seq<char> {
        lowercased(trimmed(self.filter_text@))
    }

    /// What is searched for: the typed text without the white space around it, in lower case.
    pub fn query(&self) -> (r: String)
        ensures
            r@ == self.searched(),
    {
        to_lowercase(trim(self.filter_text.as_str()).as_str())
    }

    /// The page, from top to bottom: the mission and its workers, and what of the context
    /// answers the search, newest first, or why there is nothing.
    pub fn render(&self, snapshot: &MissionSnapshot) -> (r: SharedContextPage)
        ensures
            r.title.reads("Shared context"@, "共享上下文"@),
            r.subtitle@ == "· mission "@ + hyphenated_form(self.mission.id.value).take(8)
                + " · written by "@ + decimal(snapshot.workers@.len()) + " workers · read by all"@,
            r.reload == IconName::RotateCw,
            r.search_placeholder@ == "Search context"@,
            match self.context_state {
                MissionContextState::Loading => body_says(
                    r.body,
                    "Loading the Mission's shared context…"@,
                ),
                MissionContextState::NoSelection | MissionContextState::Empty => body_says(
                    r.body,
                    "No decisions, artifacts, or evidence recorded for this Mission yet."@,
                ),
                MissionContextState::Unavailable => body_says(
                    r.body,
                    "The shared context store is unavailable, so this Mission's trail can't be read."@,
                ),
                MissionContextState::Populated(context) => body_shows(
                    r.body,
                    context,
                    self.searched(),
                ),
            },
            r.subscribed.reads("SUBSCRIBED"@, "订阅者"@),
            views(r.subscribers@) == worker_labels(snapshot.workers@),
    {
        let query = self.query();
        let subscribers = labels_of(&snapshot.workers);
        let body = match &self.context_state {
            MissionContextState::Loading => ContextBody::Message(
                "Loading the Mission's shared context…",
            ),
            MissionContextState::NoSelection | MissionContextState::Empty => ContextBody::Message(
                "No decisions, artifacts, or evidence recorded for this Mission yet.",
            ),
            MissionContextState::Unavailable => ContextBody::Message(
                "The shared context store is unavailable, so this Mission's trail can't be read.",
            ),
            MissionContextState::Populated(context) => {
                let newest = newest_artifact(&context.artifacts);
                ContextBody::Trail {
                    decisions_header: section_header(
                        "DECISIONS",
                        "决策",
                        Some(decimal_text(context.decisions.len() as u64)),
                    ),
                    decisions: matching_rows(&context.decisions, query.as_str(), newest),
                    artifacts_header: section_header(
                        "ARTIFACTS",
                        "产出物",
                        Some(decimal_text(context.artifacts.len() as u64)),
                    ),
                    artifacts: matching_rows(&context.artifacts, query.as_str(), newest),
                    evidence_header: section_header(
                        "EVIDENCE",
                        "验证证据",
                        Some(decimal_text(context.evidence.len() as u64)),
                    ),
                    open_all: "Open all",
                    evidence: matching_rows(&context.evidence, query.as_str(), newest),
                }
            },
        };
        let mut subtitle = "· mission ".to_owned();
        subtitle.append(short_mission_id(&self.mission.id).as_str());
        subtitle.append(" · written by ");
        subtitle.append(decimal_text(snapshot.workers.len() as u64).as_str());
        subtitle.append(" workers · read by all");
        SharedContextPage {
            title: bilingual_label("Shared context", "共享上下文"),
            subtitle,
            reload: IconName::RotateCw,
            search_placeholder: "Search context",
            body,
            subscribed: bilingual_label("SUBSCRIBED", "订阅者"),
            subscribers,
        }
    }
}

/// A search for nothing hides no row.
pub proof fn a_blank_search_shows_everything<E: ContextEntry>(
    entries: Seq<E>,
    newest: Option<Timestamp>,
)
    ensures
        found_rows(entries, Seq::empty(), newest) == Seq::new(
            entries.len(),
            |i: int| entries[entries.len() - 1 - i].shown(newest),
        ),
    decreases entries.len(),
{
    if entries.len() > 0 {
        a_blank_search_shows_everything(entries.drop_last(), newest);
        entries.last().a_blank_search_finds_it();
    }
    assert(found_rows(entries, Seq::empty(), newest) =~= Seq::new(
        entries.len(),
        |i: int| entries[entries.len() - 1 - i].shown(newest),
    ));
}

/// The page of a mission's evidence.
pub struct EvidenceView {
    pub mission: Mission,
    pub context_state: MissionContextState,
}

/// A button that leads to the worker who can run a command again.
pub struct RerunButton {
    pub thread_id: ThreadId,
    pub text: String,
    pub tooltip: &'static str,
}

/// What is said of evidence that is stale.
pub struct StaleNote {
    pub text: &'static str,
    pub rerun: Option<RerunButton>,
}

/// One command that was run.
pub struct EvidenceCard {
    pub icon: IconName,
    pub icon_color: Color,
    pub command: String,
    pub name: String,
    pub exit_label: String,
    pub created_at: Timestamp,
    /// What the command gave, where it gave anything.
    pub result: Option<String>,
    pub stale: Option<StaleNote>,
}

/// The words for an exit code.
pub open spec fn exit_text(exit_code: Option<i32>) -> Seq<char> {
    match exit_code {
        Some(code) => "exit "@ + signed_decimal(code as int),
        None => "no exit code"@,
    }
}

/// The worker that a row is of: the first one named like the row's role.
pub open spec fn worker_of_role(
    role: Option<String>,
    workers: Seq<WorkerRow>,
) -> Option<WorkerRow> {
    match role {
        Some(r) => worker_named(workers, r@),
        None => None,
    }
}

/// Whether `note` says that evidence is stale, with a way to the worker it is of.
pub open spec fn note_is(note: StaleNote, e: Evidence, workers: Seq<WorkerRow>) -> bool {
    &&& note.text@ == "stale — ran before the last recorded edit"@
    &&& match worker_of_role(e.role, workers) {
        Some(worker) => note.rerun matches Some(button) && button.thread_id
            == worker.metadata.thread_id && button.text@ == "Ask "@ + attributed_to(e.role, e.author)
            + " to re-run"@ && button.tooltip@
            == "Opens the worker's conversation; re-running is its call, not Zed's"@,
        None => note.rerun is None,
    }
}

/// Whether `card` shows a piece of evidence.
pub open spec fn shows_card(
    card: EvidenceCard,
    e: Evidence,
    newest: Option<Timestamp>,
    workers: Seq<WorkerRow>,
) -> bool {
    &&& if e.exit_code == Some(0i32) {
        card.icon == IconName::Check && card.icon_color == Color::Success
    } else {
        card.icon == IconName::XCircle && card.icon_color == Color::Error
    }
    &&& card.command == e.command
    &&& card.name@ == attributed_to(e.role, e.author)
    &&& card.exit_label@ == exit_text(e.exit_code)
    &&& card.created_at == e.created_at
    &&& opt_view(card.result) == nonempty_trimmed(e.result@)
    &&& match card.stale {
        Some(note) => is_stale(e.created_at, newest) && note_is(note, e, workers),
        None => !is_stale(e.created_at, newest),
    }
}

impl EvidenceCard {
    /// Who ran the command, how long ago and how it ended, from the words for the time that
    /// has passed.
    pub fn headline(&self, elapsed: &str) -> (r: String)
        ensures
            r@ == self.name@ + " · "@ + ago(elapsed@) + " · "@ + self.exit_label@,
    {
        let mut r = self.name.clone();
        r.append(" · ");
        r.append(relative_time(elapsed).as_str());
        r.append(" · ");
        r.append(self.exit_label.as_str());
        r
    }

    /// Whether the card is framed as a warning.
    pub fn warns(&self) -> (r: bool)
        ensures
            r == self.stale is Some,
    {
        self.stale.is_some()
    }
}

/// The worker that a row is of: the first one named like the row's role.
pub fn worker_for_role<'a>(role: &Option<String>, workers: &'a Vec<WorkerRow>) -> (r: Option<
    &'a WorkerRow,
>)
    ensures
        match r {
            Some(worker) => worker_of_role(*role, workers@) == Some(*worker),
            None => worker_of_role(*role, workers@) is None,
        },
{
    match role {
        Some(text) => find_worker(workers, text.as_str()),
        None => None,
    }
}

/// One command that was run, with whether it still proves anything.
pub fn render_evidence(
    e: &Evidence,
    newest: Option<Timestamp>,
    workers: &Vec<WorkerRow>,
) -> (r: EvidenceCard)
    ensures
        shows_card(r, *e, newest, workers@),
{
    let succeeded = e.exit_code == Some(0i32);
    let exit_label = match e.exit_code {
        Some(code) => {
            let mut text = "exit ".to_owned();
            text.append(signed_decimal_text(code).as_str());
            text
        },
        None => "no exit code".to_owned(),
    };
    let name = attribution(&e.role, &e.author);
    let stale = if evidence_is_stale(e.created_at, newest) {
        let worker = worker_for_role(&e.role, workers);
        let rerun = match worker {
            Some(w) => {
                let mut text = "Ask ".to_owned();
                text.append(name.as_str());
                text.append(" to re-run");
                Some(
                    RerunButton {
                        thread_id: w.metadata.thread_id,
                        text,
                        tooltip: "Opens the worker's conversation; re-running is its call, not Zed's",
                    },
                )
            },
            None => None,
        };
        Some(StaleNote { text: "stale — ran before the last recorded edit", rerun })
    } else {
        None
    };
    EvidenceCard {
        icon: if succeeded {
            IconName::Check
        } else {
            IconName::XCircle
        },
        icon_color: if succeeded {
            Color::Success
        } else {
            Color::Error
        },
        command: e.command.clone(),
        name,
        exit_label,
        created_at: e.created_at,
        result: trim_nonempty(e.result.as_str()),
        stale,
    }
}

/// How many pieces of evidence still hold and were successful.
pub open spec fn passing_of(evidence: Seq<Evidence>, newest: Option<Timestamp>) -> nat
    decreases evidence.len(),
{
    if evidence.len() == 0 {
        0
    } else {
        passing_of(evidence.drop_last(), newest) + if !is_stale(evidence.last().created_at, newest)
            && evidence.last().exit_code == Some(0i32) {
            1nat
        } else {
            0nat
        }
    }
}

/// How many pieces of evidence are stale.
pub open spec fn stale_of(evidence: Seq<Evidence>, newest: Option<Timestamp>) -> nat
    decreases evidence.len(),
{
    if evidence.len() == 0 {
        0
    } else {
        stale_of(evidence.drop_last(), newest) + if is_stale(evidence.last().created_at, newest) {
            1nat
        } else {
            0nat
        }
    }
}

/// A piece of evidence that is stale does not count as passing, however its command ended.
pub proof fn stale_evidence_never_passes(evidence: Seq<Evidence>, newest: Option<Timestamp>)
    ensures
        passing_of(evidence, newest) + stale_of(evidence, newest) <= evidence.len(),
    decreases evidence.len(),
{
    if evidence.len() > 0 {
        stale_evidence_never_passes(evidence.drop_last(), newest);
    }
}

/// What the page of evidence shows under its head.
pub enum EvidenceBody {
    Message(&'static str),
    Cards(Vec<EvidenceCard>),
}

/// The page of evidence, from top to bottom.
pub struct EvidencePage {
    pub title: BilingualLabel,
    pub subtitle: &'static str,
    pub counts: String,
    /// The button that reads the evidence anew, as `refresh_key` says.
    pub reload: IconName,
    pub body: EvidenceBody,
}

/// The note at the right of the head.
pub open spec fn evidence_counts(passing: nat, stale: nat) -> Seq<char> {
    decimal(passing) + " passing · "@ + decimal(stale) + " stale"@
}

/// Whether `page` says `message` in place of evidence.
pub open spec fn evidence_says(page: EvidencePage, message: Seq<char>) -> bool {
    &&& page.body matches EvidenceBody::Message(text) && text@ == message
    &&& page.counts@ == evidence_counts(0, 0)
}

/// Whether `page` shows the evidence of a context, newest first.
pub open spec fn evidence_shows(
    page: EvidencePage,
    context: MissionContext,
    workers: Seq<WorkerRow>,
) -> bool {
    let newest = newest_of(context.artifacts@);
    let n = context.evidence@.len();
    &&& page.body matches EvidenceBody::Cards(cards) && cards@.len() == n && forall|i: int|
        0 <= i < cards@.len() ==> shows_card(
            #[trigger] cards@[i],
            context.evidence@[n - 1 - i],
            newest,
            workers,
        )
    &&& page.counts@ == evidence_counts(
        passing_of(context.evidence@, newest),
        stale_of(context.evidence@, newest),
    )
}

fn counts_text(passing: usize, stale: usize) -> (r: String)
    ensures
        r@ == evidence_counts(passing as nat, stale as nat),
{
    let mut r = decimal_text(passing as u64);
    r.append(" passing · ");
    r.append(decimal_text(stale as u64).as_str());
    r.append(" stale");
    r
}

fn count_evidence(evidence: &Vec<Evidence>, newest: Option<Timestamp>) -> (r: (usize, usize))
    ensures
        r.0 == passing_of(evidence@, newest),
        r.1 == stale_of(evidence@, newest),
{
    let mut passing: usize = 0;
    let mut stale: usize = 0;
    let mut i: usize = 0;
    while i < evidence.len()
        invariant
            i <= evidence.len(),
            passing == passing_of(evidence@.take(i as int), newest),
            stale == stale_of(evidence@.take(i as int), newest),
        decreases evidence.len() - i,
    {
        proof {
            assert(evidence@.take(i + 1).drop_last() =~= evidence@.take(i as int));
            stale_evidence_never_passes(evidence@.take(i as int), newest);
        }
        if evidence_is_stale(evidence[i].created_at, newest) {
            stale += 1;
        } else if evidence[i].exit_code == Some(0i32) {
            passing += 1;
        }
        i += 1;
    }
    assert(evidence@.take(i as int) =~= evidence@);
    (passing, stale)
}

impl EvidenceView {
    /// Whether a page of this kind that is open for the mission is to be shown again, or a
    /// new one opened; `open_pages` are the missions that the open ones are about.
    pub fn deploy(open_pages: &Vec<MissionId>, mission_id: MissionId) -> (r: Deployment)
        ensures
            deployed(open_pages@, mission_id, r),
    {
        deploy_page(open_pages, mission_id)
    }

    /// The page as it opens; the context of its mission is to be asked for.
    pub fn new(mission: Mission) -> (r: Self)
        ensures
            r.mission == mission,
            r.context_state is Loading,
    {
        EvidenceView { mission, context_state: MissionContextState::Loading }
    }

    /// The key to ask the store of shared context with, when the page opens and whenever the
    /// user asks for a reload.
    pub fn refresh_key(&self) -> (r: String)
        ensures
            r@ == hyphenated_form(self.mission.id.value),
    {
        self.mission.id.to_key_string()
    }

    /// Takes the outcome of a query for the context; `None` where there is no store.
    pub fn context_loaded(&mut self, result: Option<Result<MissionContext, String>>)
        ensures
            context_state_is(final(self).context_state, result),
            final(self).mission == old(self).mission,
    {
        self.context_state = mission_context_state_from_result(result);
    }

    /// The page, from top to bottom: what passes and what is stale, and every command with
    /// what it gave, newest first.
    pub fn render(&self, workers: &Vec<WorkerRow>) -> (r: EvidencePage)
        ensures
            r.title.reads("Evidence"@, "验证证据"@),
            r.subtitle@ == "· every claim links to a command that actually ran"@,
            r.reload == IconName::RotateCw,
            match self.context_state {
                MissionContextState::Populated(context) => evidence_shows(r, context, workers@),
                MissionContextState::Loading => evidence_says(r, "Loading the Mission's evidence…"@),
                MissionContextState::Unavailable => evidence_says(
                    r,
                    "The shared context store is unavailable, so this Mission's evidence can't be read."@,
                ),
                MissionContextState::NoSelection | MissionContextState::Empty => evidence_says(
                    r,
                    "No commands have been recorded as evidence for this Mission yet."@,
                ),
            },
    {
        let (body, counts) = match &self.context_state {
            MissionContextState::Populated(context) => {
                let newest = newest_artifact(&context.artifacts);
                let n: usize = context.evidence.len();
                let mut cards: Vec<EvidenceCard> = Vec::new();
                let mut i: usize = 0;
                while i < n
                    invariant
                        i <= n == context.evidence.len(),
                        cards.len() == i,
                        forall|j: int|
                            0 <= j < i ==> shows_card(
                                #[trigger] cards@[j],
                                context.evidence@[n - 1 - j],
                                newest,
                                workers@,
                            ),
                    decreases n - i,
                {
                    cards.push(render_evidence(&context.evidence[n - 1 - i], newest, workers));
                    i += 1;
                }
                let (passing, stale) = count_evidence(&context.evidence, newest);
                (EvidenceBody::Cards(cards), counts_text(passing, stale))
            },
            MissionContextState::Loading => (
                EvidenceBody::Message("Loading the Mission's evidence…"),
                counts_text(0, 0),
            ),
            MissionContextState::Unavailable => (
                EvidenceBody::Message(
                    "The shared context store is unavailable, so this Mission's evidence can't be read.",
                ),
                counts_text(0, 0),
            ),
            MissionContextState::NoSelection | MissionContextState::Empty => (
                EvidenceBody::Message(
                    "No commands have been recorded as evidence for this Mission yet.",
                ),
                counts_text(0, 0),
            ),
        };
        EvidencePage {
            title: bilingual_label("Evidence", "验证证据"),
            subtitle: "· every claim links to a command that actually ran",
            counts,
            reload: IconName::RotateCw,
            body,
        }
    }
}

/// The page of what waits for the user.
pub struct MissionQueueView {
    pub mission: Mission,
    /// What is typed in the field for a comment.
    pub comment_text: String,
}

/// A comment on its way to workers.
pub struct Comment {
    pub text: String,
    pub recipients: Vec<ThreadId>,
}

/// The threads of the workers that are loaded, in their order.
pub open spec fn loaded_threads(workers: Seq<WorkerRow>) -> Seq<ThreadId>
    decreases workers.len(),
{
    if workers.len() == 0 {
        Seq::empty()
    } else if workers.last().thread_loaded {
        loaded_threads(workers.drop_last()).push(workers.last().metadata.thread_id)
    } else {
        loaded_threads(workers.drop_last())
    }
}

/// The threads of the workers that are loaded, in their order.
pub fn loaded_worker_threads(workers: &Vec<WorkerRow>) -> (r: Vec<ThreadId>)
    ensures
        r@ == loaded_threads(workers@),
{
    let mut r: Vec<ThreadId> = Vec::new();
    let mut i: usize = 0;
    assert(r@ =~= loaded_threads(workers@.take(0)));
    while i < workers.len()
        invariant
            i <= workers.len(),
            r@ == loaded_threads(workers@.take(i as int)),
        decreases workers.len() - i,
    {
        assert(workers@.take(i + 1).drop_last() =~= workers@.take(i as int));
        if workers[i].thread_loaded {
            r.push(workers[i].metadata.thread_id);
        }
        i += 1;
    }
    assert(workers@.take(i as int) =~= workers@);
    r
}

/// The first file with a name.
pub open spec fn change_named(changes: Seq<MissionChange>, name: Seq<char>) -> Option<MissionChange>
    decreases changes.len(),
{
    if changes.len() == 0 {
        None
    } else if changes[0].name@ == name {
        Some(changes[0])
    } else {
        change_named(changes.subrange(1, changes.len() as int), name)
    }
}

/// A permission prompt in the queue.
pub struct PermissionCard {
    pub asked: String,
    pub label: String,
    pub allow: Option<AnswerButton>,
    pub reject: Option<AnswerButton>,
    pub open_session: Button,
    pub thread_id: ThreadId,
}

/// Whether `card` shows what a worker is blocked on; nothing is shown where the worker's
/// thread is not loaded.
pub open spec fn shows_permission_card(card: Option<PermissionCard>, worker: WorkerRow) -> bool {
    match worker.permission {
        Some(permission) => if worker.thread_loaded {
            &&& card matches Some(c) && c.asked@ == worker.label@ + " asked"@ && c.label
                == permission.label && is_answer(
                c.allow,
                "Allow"@,
                permission.tool_call_id,
                permission.allow,
            ) && is_answer(c.reject, "Reject"@, permission.tool_call_id, permission.reject)
                && c.open_session.reads("Open session"@, None) && c.thread_id
                == worker.metadata.thread_id
        } else {
            card is None
        },
        None => card is None,
    }
}

/// A contended file in the queue.
pub struct ConflictCard {
    pub title: String,
    pub text: String,
    pub open_diff: Button,
    pub name: String,
}

/// Whether `card` shows a contended file.
pub open spec fn shows_conflict(card: ConflictCard, change: MissionChange) -> bool {
    &&& card.title@ == "Conflict · "@ + joined(views(change.workers@), " vs "@)
    &&& card.text@ == "Both workers edited "@ + change.name@ + "."@
    &&& card.open_diff.reads(
        "Open diff"@,
        Some(
            "The Mission's workers share one working tree, so this shows the first author's diff against HEAD"@,
        ),
    )
    &&& card.name == change.name
}

/// A worker's report.
pub struct StandupLine {
    pub text: Label,
    pub meta: String,
}

/// What a worker is and has used.
pub open spec fn standup_meta(worker: WorkerRow) -> Seq<char> {
    worker.label@ + match worker.tokens {
        Some(tokens) => " · "@ + token_count(tokens as nat) + " tok"@,
        None => Seq::empty(),
    } + match worker.cost {
        Some(cost) => " · $"@ + cost@,
        None => Seq::empty(),
    }
}

/// Whether `line` is a worker's report.
pub open spec fn shows_report(line: StandupLine, worker: WorkerRow) -> bool {
    &&& match worker.summary {
        Some(summary) => line.text.reads(summary@, Color::Default),
        None => line.text.reads("Nothing reported yet"@, Color::Muted),
    }
    &&& line.meta@ == standup_meta(worker)
}

/// The reports of the workers, and what the mission has used in all.
pub struct Standup {
    pub header: SectionHeader,
    pub lines: Vec<StandupLine>,
    pub total_label: &'static str,
    pub total: String,
}

/// What the mission has used in all; the cost is left out where no worker has one.
pub open spec fn total_text(workers: Seq<WorkerRow>, total_cost: Option<Seq<char>>) -> Seq<char> {
    token_count(tokens_of(workers)) + " tok"@ + match total_cost {
        Some(cost) => " · $"@ + cost,
        None => Seq::empty(),
    }
}

/// Whether `standup` reports on the workers.
pub open spec fn shows_standup(
    standup: Standup,
    workers: Seq<WorkerRow>,
    total_cost: Option<Seq<char>>,
) -> bool {
    &&& standup.header.reads("STANDUP"@, "状态汇报"@, None)
    &&& standup.lines@.len() == workers.len()
    &&& forall|i: int|
        0 <= i < standup.lines@.len() ==> shows_report(#[trigger] standup.lines@[i], workers[i])
    &&& standup.total_label@ == "Mission total"@
    &&& standup.total@ == total_text(workers, total_cost)
}

/// A permission prompt in the queue, with the answers that it offers and a way to the
/// worker's conversation.
pub fn render_permission_card(worker: &WorkerRow) -> (r: Option<PermissionCard>)
    ensures
        shows_permission_card(r, *worker),
{
    let permission = match &worker.permission {
        Some(p) => p,
        None => return None,
    };
    if !worker.thread_loaded {
        return None;
    }
    let mut asked = worker.label.clone();
    asked.append(" asked");
    Some(
        PermissionCard {
            asked,
            label: permission.label.clone(),
            allow: answer_button("Allow", &permission.tool_call_id, &permission.allow),
            reject: answer_button("Reject", &permission.tool_call_id, &permission.reject),
            open_session: Button::new("Open session", None),
            thread_id: worker.metadata.thread_id,
        },
    )
}

/// A contended file in the queue.
pub fn render_conflict_card(change: &MissionChange) -> (r: ConflictCard)
    ensures
        shows_conflict(r, *change),
{
    let mut title = "Conflict · ".to_owned();
    title.append(join(&change.workers, " vs ").as_str());
    let mut text = "Both workers edited ".to_owned();
    text.append(change.name.as_str());
    text.append(".");
    ConflictCard {
        title,
        text,
        open_diff: Button::new(
            "Open diff",
            Some(
                "The Mission's workers share one working tree, so this shows the first author's diff against HEAD",
            ),
        ),
        name: change.name.clone(),
    }
}

/// The reports of the workers, and what the mission has used in all. `total_cost` is the sum
/// of the workers' costs in dollars with two decimals, where any of them has one.
pub fn render_standup(snapshot: &MissionSnapshot, total_cost: &Option<String>) -> (r: Standup)
    requires
        tokens_of(snapshot.workers@) <= u64::MAX,
    ensures
        shows_standup(r, snapshot.workers@, opt_view(*total_cost)),
{
    let workers = &snapshot.workers;
    let mut lines: Vec<StandupLine> = Vec::new();
    let mut i: usize = 0;
    while i < workers.len()
        invariant
            i <= workers.len(),
            lines.len() == i,
            forall|j: int| 0 <= j < i ==> shows_report(#[trigger] lines@[j], workers@[j]),
        decreases workers.len() - i,
    {
        let worker = &workers[i];
        let mut meta = worker.label.clone();
        match worker.tokens {
            Some(tokens) => {
                let mut part = " · ".to_owned();
                part.append(format_token_count(tokens).as_str());
                part.append(" tok");
                meta.append(part.as_str());
            },
            None => {
                assert(meta@ =~= meta@ + Seq::<char>::empty());
            },
        }
        match &worker.cost {
            Some(cost) => {
                let mut part = " · $".to_owned();
                part.append(cost.as_str());
                meta.append(part.as_str());
            },
            None => {
                assert(meta@ =~= meta@ + Seq::<char>::empty());
            },
        }
        let text = match &worker.summary {
            Some(summary) => Label::new(summary.clone(), Color::Default),
            None => Label::new("Nothing reported yet".to_owned(), Color::Muted),
        };
        lines.push(StandupLine { text, meta });
        i += 1;
    }
    let mut total = format_token_count(snapshot.total_tokens());
    total.append(" tok");
    match total_cost {
        Some(cost) => {
            let mut part = " · $".to_owned();
            part.append(cost.as_str());
            total.append(part.as_str());
        },
        None => {
            assert(total@ =~= total@ + Seq::<char>::empty());
        },
    }
    Standup {
        header: section_header("STANDUP", "状态汇报", None),
        lines,
        total_label: "Mission total",
        total,
    }
}

/// The queue, from top to bottom.
pub struct QueuePage {
    pub name: String,
    pub description: &'static str,
    pub asked_header: SectionHeader,
    pub nothing: Option<&'static str>,
    pub permissions: Vec<Option<PermissionCard>>,
    pub conflicts: Vec<ConflictCard>,
    pub comment_header: SectionHeader,
    pub comment_placeholder: &'static str,
    pub comment_hint: &'static str,
    pub send: Button,
    pub can_comment: bool,
    pub standup: Standup,
}

/// Whether `page` shows what waits for the user in a mission: what its blocked workers ask,
/// its contended files, a field for a comment, and the workers' reports.
pub open spec fn shows_queue(
    page: QueuePage,
    snapshot: MissionSnapshot,
    total_cost: Option<Seq<char>>,
) -> bool {
    let blocked = blocked_of(snapshot.workers@);
    let contended = contended_of(snapshot.changes@);
    let asked = blocked.len() + contended.len();
    let can_comment = loaded_threads(snapshot.workers@).len() > 0;
    &&& page.name == snapshot.human.name
    &&& page.description@ == "· you · Human teammate · owner & approver"@
    &&& page.asked_header.reads("ASKED OF YOU"@, "待你处理"@, Some(decimal(asked)))
    &&& match page.nothing {
        Some(text) => asked == 0 && text@ == "Nothing is waiting on you right now."@,
        None => asked > 0,
    }
    &&& page.permissions@.len() == blocked.len()
    &&& forall|i: int|
        0 <= i < blocked.len() ==> shows_permission_card(
            #[trigger] page.permissions@[i],
            blocked[i],
        )
    &&& page.conflicts@.len() == contended.len()
    &&& forall|i: int|
        0 <= i < contended.len() ==> shows_conflict(#[trigger] page.conflicts@[i], contended[i])
    &&& page.comment_header.reads("YOUR COMMENT"@, "留言"@, None)
    &&& page.comment_placeholder@ == "Reply to the mission — goes to every worker"@
    &&& page.send.reads("Send"@, None)
    &&& page.can_comment == can_comment
    &&& page.comment_hint@ == if can_comment {
        "Sent to every loaded worker as a user message"@
    } else {
        "No worker thread is loaded, so there is nobody to send to"@
    }
    &&& shows_standup(page.standup, snapshot.workers@, total_cost)
}

impl MissionQueueView {
    /// Whether a page of this kind that is open for the mission is to be shown again, or a
    /// new one opened; `open_pages` are the missions that the open ones are about.
    pub fn deploy(open_pages: &Vec<MissionId>, mission_id: MissionId) -> (r: Deployment)
        ensures
            deployed(open_pages@, mission_id, r),
    {
        deploy_page(open_pages, mission_id)
    }

    /// The queue as it opens.
    pub fn new(mission: Mission) -> (r: Self)
        ensures
            r.mission == mission,
            r.comment_text@.len() == 0,
    {
        MissionQueueView { mission, comment_text: String::new() }
    }

    /// Posts the typed comment to every worker whose thread is loaded, as a user message. The
    /// field is cleared where anybody gets it.
    pub fn post_comment(&mut self, workers: &Vec<WorkerRow>) -> (r: Option<Comment>)
        ensures
            final(self).mission == old(self).mission,
            if trimmed(old(self).comment_text@).len() == 0 {
                r is None && *final(self) == *old(self)
            } else {
                &&& r matches Some(comment) && comment.text@ == trimmed(old(self).comment_text@)
                    && comment.recipients@ == loaded_threads(workers@)
                &&& if loaded_threads(workers@).len() > 0 {
                    final(self).comment_text@.len() == 0
                } else {
                    *final(self) == *old(self)
                }
            },
    {
        let text = trim(self.comment_text.as_str());
        if text.as_str().unicode_len() == 0 {
            return None;
        }
        let recipients = loaded_worker_threads(workers);
        if recipients.len() > 0 {
            self.comment_text = String::new();
        }
        Some(Comment { text, recipients })
    }

    /// The thread whose diff is opened for a file: the workers share one working tree, so it
    /// is that of the first worker that touched the file.
    pub fn open_conflict_diff(
        &self,
        file_name: &str,
        snapshot: &MissionSnapshot,
    ) -> (r: Option<ThreadId>)
        ensures
            r == match change_named(snapshot.changes@, file_name@) {
                Some(change) => diff_thread_of(change, snapshot.workers@),
                None => None,
            },
    {
        let changes = &snapshot.changes;
        let mut i: usize = 0;
        assert(changes@.subrange(0, changes@.len() as int) =~= changes@);
        while i < changes.len()
            invariant
                i <= changes.len(),
                *changes == snapshot.changes,
                change_named(changes@, file_name@) == change_named(
                    changes@.subrange(i as int, changes@.len() as int),
                    file_name@,
                ),
            decreases changes.len() - i,
        {
            let ghost rest = changes@.subrange(i as int, changes@.len() as int);
            assert(rest[0] == changes@[i as int]);
            assert(rest.subrange(1, rest.len() as int) =~= changes@.subrange(
                i + 1,
                changes@.len() as int,
            ));
            if text_eq(changes[i].name.as_str(), file_name) {
                return diff_thread(&changes[i], &snapshot.workers);
            }
            i += 1;
        }
        None
    }

    /// The queue, from top to bottom.
    pub fn render(&self, snapshot: &MissionSnapshot, total_cost: &Option<String>) -> (r: QueuePage)
        requires
            tokens_of(snapshot.workers@) <= u64::MAX,
            snapshot.workers@.len() + snapshot.changes@.len() <= usize::MAX,
        ensures
            shows_queue(r, *snapshot, opt_view(*total_cost)),
    {
        let blocked = snapshot.blocked();
        let contended = snapshot.contended();
        let ghost blocked_rows = blocked_of(snapshot.workers@);
        let ghost contended_files = contended_of(snapshot.changes@);
        let mut permissions: Vec<Option<PermissionCard>> = Vec::new();
        let mut i: usize = 0;
        while i < blocked.len()
            invariant
                i <= blocked.len(),
                permissions.len() == i,
                blocked@.map_values(|w: &WorkerRow| *w) == blocked_rows,
                forall|j: int|
                    0 <= j < i ==> shows_permission_card(
                        #[trigger] permissions@[j],
                        blocked_rows[j],
                    ),
            decreases blocked.len() - i,
        {
            assert(blocked_rows[i as int] == *blocked@[i as int]);
            permissions.push(render_permission_card(blocked[i]));
            i += 1;
        }
        let mut conflicts: Vec<ConflictCard> = Vec::new();
        let mut k: usize = 0;
        while k < contended.len()
            invariant
                k <= contended.len(),
                conflicts.len() == k,
                contended@.map_values(|c: &MissionChange| *c) == contended_files,
                forall|j: int|
                    0 <= j < k ==> shows_conflict(#[trigger] conflicts@[j], contended_files[j]),
            decreases contended.len() - k,
        {
            assert(contended_files[k as int] == *contended@[k as int]);
            conflicts.push(render_conflict_card(contended[k]));
            k += 1;
        }
        proof {
            blocked_are_workers(snapshot.workers@);
            contended_are_changes(snapshot.changes@);
            assert(blocked_rows.len() == blocked.len());
            assert(contended_files.len() == contended.len());
        }
        let asked: usize = blocked.len() + contended.len();
        let can_comment = loaded_worker_threads(&snapshot.workers).len() > 0;
        QueuePage {
            name: snapshot.human.name.clone(),
            description: "· you · Human teammate · owner & approver",
            asked_header: section_header(
                "ASKED OF YOU",
                "待你处理",
                Some(decimal_text(asked as u64)),
            ),
            nothing: if asked == 0 {
                Some("Nothing is waiting on you right now.")
            } else {
                None
            },
            permissions,
            conflicts,
            comment_header: section_header("YOUR COMMENT", "留言", None),
            comment_placeholder: "Reply to the mission — goes to every worker",
            send: Button::new("Send", None),
            comment_hint: if can_comment {
                "Sent to every loaded worker as a user message"
            } else {
                "No worker thread is loaded, so there is nobody to send to"
            },
            can_comment,
            standup: render_standup(snapshot, total_cost),
        }
    }
}

proof fn blocked_are_workers(workers: Seq<WorkerRow>)
    ensures
        blocked_of(workers).len() <= workers.len(),
    decreases workers.len(),
{
    if workers.len() > 0 {
        blocked_are_workers(workers.drop_last());
    }
}

proof fn contended_are_changes(changes: Seq<MissionChange>)
    ensures
        contended_of(changes).len() <= changes.len(),
    decreases changes.len(),
{
    if changes.len() > 0 {
        contended_are_changes(changes.drop_last());
    }
}

/// The line about a mission in the status bar.
pub struct MissionStatusIndicator {
    pub mission: Option<Mission>,
}

/// The newest of the missions; of those of one time, the one listed last.
pub open spec fn newest_mission(missions: Seq<Mission>) -> Option<Mission>
    decreases missions.len(),
{
    if missions.len() == 0 {
        None
    } else {
        match newest_mission(missions.drop_last()) {
            Some(newest) => if missions.last().created_at.before(newest.created_at) {
                Some(newest)
            } else {
                Some(missions.last())
            },
            None => Some(missions.last()),
        }
    }
}

/// The mission that the status bar is about is one of those listed, and none is newer.
pub proof fn the_newest_mission_is_the_latest(missions: Seq<Mission>)
    ensures
        newest_mission(missions) is None <==> missions.len() == 0,
        newest_mission(missions) matches Some(m) ==> missions.contains(m),
        newest_mission(missions) matches Some(m) ==> forall|i: int|
            0 <= i < missions.len() ==> !m.created_at.before((#[trigger] missions[i]).created_at),
    decreases missions.len(),
{
    if missions.len() > 0 {
        let rest = missions.drop_last();
        the_newest_mission_is_the_latest(rest);
        let m = newest_mission(missions).unwrap();
        assert(missions[missions.len() - 1] == missions.last());
        if rest.len() > 0 {
            let k = choose|k: int| 0 <= k < rest.len() && rest[k] == newest_mission(rest).unwrap();
            assert(missions[k] == rest[k]);
        }
        assert forall|i: int| 0 <= i < missions.len() implies !m.created_at.before(
            (#[trigger] missions[i]).created_at,
        ) by {
            if i < rest.len() {
                assert(!newest_mission(rest).unwrap().created_at.before(rest[i].created_at));
            }
        }
    }
}

fn find_newest(missions: &Vec<Mission>) -> (r: Option<Mission>)
    ensures
        r == newest_mission(missions@),
{
    if missions.len() == 0 {
        return None;
    }
    let mut newest: usize = 0;
    let mut i: usize = 1;
    assert(newest_mission(missions@.take(1).drop_last()) is None);
    assert(missions@.take(1).last() == missions@[0]);
    while i < missions.len()
        invariant
            1 <= i <= missions.len(),
            newest < i,
            newest_mission(missions@.take(i as int)) == Some(missions@[newest as int]),
        decreases missions.len() - i,
    {
        assert(missions@.take(i + 1).drop_last() =~= missions@.take(i as int));
        if !missions[i].created_at.is_before(&missions[newest].created_at) {
            newest = i;
        }
        i += 1;
    }
    assert(missions@.take(i as int) =~= missions@);
    Some(missions[newest].clone())
}

/// What the status bar says of a mission.
pub struct StatusView {
    pub summary: String,
    pub color: Color,
    pub tooltip: &'static str,
}

/// How many agents work on a mission, and how many of them wait for the user.
pub open spec fn status_text(title: Seq<char>, running: nat, blocked: nat) -> Seq<char> {
    title + " · "@ + counted(running as int, "agent"@, "agents"@) + " working"@ + if blocked > 0 {
        " · "@ + decimal(blocked) + " waiting on you"@
    } else {
        Seq::empty()
    }
}

/// The id of a mission.
pub open spec fn id_of(mission: Option<Mission>) -> Option<MissionId> {
    match mission {
        Some(m) => Some(m.id),
        None => None,
    }
}

impl MissionStatusIndicator {
    /// An indicator that has no mission yet.
    pub fn new() -> (r: Self)
        ensures
            r.mission is None,
    {
        MissionStatusIndicator { mission: None }
    }

    /// Takes the list of missions, which is empty where it could not be read, and turns to
    /// the newest; returns whether that is another than before. Without a store of threads
    /// there is no list, and nothing changes.
    pub fn refresh(&mut self, missions: Option<&Vec<Mission>>) -> (r: bool)
        ensures
            match missions {
                None => !r && *final(self) == *old(self),
                Some(list) => {
                    &&& r == (id_of(newest_mission(list@)) != id_of(old(self).mission))
                    &&& final(self).mission == if r {
                        newest_mission(list@)
                    } else {
                        old(self).mission
                    }
                },
            },
    {
        let missions = match missions {
            Some(list) => list,
            None => return false,
        };
        let newest = find_newest(missions);
        let changed = match (&self.mission, &newest) {
            (Some(old_mission), Some(new_mission)) => old_mission.id != new_mission.id,
            (None, None) => false,
            _ => true,
        };
        if changed {
            self.mission = newest;
        }
        changed
    }

    /// What the status bar says, where there is a mission with workers.
    pub fn render(&self, snapshot: &MissionSnapshot) -> (r: Option<StatusView>)
        ensures
            match self.mission {
                Some(mission) => if snapshot.workers@.len() > 0 {
                    let states = states_of(snapshot.workers@);
                    let running = count_of(states, MissionThreadState::Running);
                    let blocked = count_of(states, MissionThreadState::Waiting);
                    &&& r matches Some(view) && view.summary@ == status_text(
                        mission.title@,
                        running,
                        blocked,
                    ) && view.color == if blocked > 0 {
                        Color::Warning
                    } else {
                        Color::Muted
                    } && view.tooltip@ == "Open this Mission's queue"@
                } else {
                    r is None
                },
                None => r is None,
            },
    {
        let mission = match &self.mission {
            Some(mission) => mission,
            None => return None,
        };
        let counts = snapshot.counts();
        if counts.agents == 0 {
            return None;
        }
        let mut summary = mission.title.clone();
        summary.append(" · ");
        summary.append(counted_text(counts.running, "agent", "agents").as_str());
        summary.append(" working");
        if counts.blocked > 0 {
            let mut part = " · ".to_owned();
            part.append(decimal_text(counts.blocked as u64).as_str());
            part.append(" waiting on you");
            summary.append(part.as_str());
        } else {
            assert(summary@ =~= summary@ + Seq::<char>::empty());
        }
        Some(
            StatusView {
                summary,
                color: if counts.blocked > 0 {
                    Color::Warning
                } else {
                    Color::Muted
                },
                tooltip: "Open this Mission's queue",
            },
        )
    }
}

} // verus!
