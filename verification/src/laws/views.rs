//! Laws about the pages of a mission: the search in its shared context, its evidence, its queue,
//! and the status bar.

use vstd::prelude::*;
use crate::laws::lists::filter_from_the_end;
use crate::laws::lists::what_a_filter_keeps;
use crate::laws::texts::blank;
use crate::laws::texts::is_bare;
use crate::laws::texts::trimming_cuts_the_white_space_at_the_ends;
use crate::mission_changes::MissionChange;
use crate::mission_id::hyphenated_form;
use crate::mission_id::MissionId;
use crate::mission_orchestrator::MissionThreadState;
use crate::mission_panel::evidence_is_stale;
use crate::mission_panel::find_worker;
use crate::mission_panel::first_position;
use crate::mission_panel::is_stale;
use crate::mission_panel::newest_artifact;
use crate::mission_panel::newest_is_the_latest;
use crate::mission_panel::newest_of;
use crate::mission_panel::worker_named;
use crate::mission_panel::MissionContextState;
use crate::mission_snapshot::blocked_of;
use crate::mission_snapshot::contended_of;
use crate::mission_snapshot::MissionSnapshot;
use crate::mission_snapshot::WorkerRow;
use crate::mission_views::answers_query;
use crate::mission_views::change_named;
use crate::mission_views::found_rows;
use crate::mission_views::loaded_threads;
use crate::mission_views::loaded_worker_threads;
use crate::mission_views::newest_mission;
use crate::mission_views::passing_of;
use crate::mission_views::render_conflict_card;
use crate::mission_views::render_evidence;
use crate::mission_views::render_permission_card;
use crate::mission_views::render_standup;
use crate::mission_views::row_views;
use crate::mission_views::stale_of;
use crate::mission_views::the_newest_mission_is_the_latest;
use crate::mission_views::worker_for_role;
use crate::mission_views::Comment;
use crate::mission_views::ConflictCard;
use crate::mission_views::ContextBody;
use crate::mission_views::ContextEntry;
use crate::mission_views::ContextRow;
use crate::mission_views::EvidenceBody;
use crate::mission_views::EvidenceCard;
use crate::mission_views::EvidencePage;
use crate::mission_views::EvidenceView;
use crate::mission_views::MissionQueueView;
use crate::mission_views::MissionStatusIndicator;
use crate::mission_views::PermissionCard;
use crate::mission_views::QueuePage;
use crate::mission_views::SharedContextPage;
use crate::mission_views::SharedContextView;
use crate::mission_views::Standup;
use crate::mission_views::StatusView;
use crate::shared_context::Artifact;
use crate::shared_context::Decision;
use crate::shared_context::Evidence;
use crate::shared_context::MissionContext;
use crate::text::decimal;
use crate::text::has_part;
use crate::text::joined;
use crate::text::lowercased;
use crate::text::signed_decimal;
use crate::text::views;
use crate::thread::Mission;
use crate::thread::ThreadId;
use crate::time::Timestamp;
use crate::token_count::token_count;
use crate::worker_dashboard::Deployment;

verus! {

/// A page that is open for a mission is shown again, the first one where there are several; where
/// none is open, one is opened.
pub proof fn an_open_page_of_a_mission_is_shown_again(
    pages: Vec<MissionId>,
    id: MissionId,
    context: Deployment,
    evidence: Deployment,
    queue: Deployment,
)
    requires
        call_ensures(SharedContextView::deploy, (&pages, id), context),
        call_ensures(EvidenceView::deploy, (&pages, id), evidence),
        call_ensures(MissionQueueView::deploy, (&pages, id), queue),
    ensures
        context matches Deployment::Activate(i) ==> (i as int) < pages@.len() && pages@[i as int] == id
            && forall|j: int| 0 <= j < i ==> #[trigger] pages@[j] != id,
        context is Open ==> !pages@.contains(id),
        evidence == context,
        queue == context,
{
    a_position_is_the_first(pages@, id);
    if pages@.contains(id) {
        let k = choose|k: int| 0 <= k < pages@.len() && pages@[k] == id;
        assert(pages@[k] == id);
    }
}

/// The first position of an id is a position of it, and none comes before.
pub proof fn a_position_is_the_first(ids: Seq<MissionId>, id: MissionId)
    ensures
        0 <= first_position(ids, id) <= ids.len(),
        first_position(ids, id) < ids.len() ==> ids[first_position(ids, id)] == id,
        forall|j: int| 0 <= j < first_position(ids, id) ==> #[trigger] ids[j] != id,
    decreases ids.len(),
{
    if ids.len() > 0 && ids[0] != id {
        let rest = ids.subrange(1, ids.len() as int);
        a_position_is_the_first(rest, id);
        assert forall|j: int| 0 <= j < first_position(ids, id) implies #[trigger] ids[j] != id by {
            if j > 0 {
                assert(rest[j - 1] == ids[j]);
            }
        }
    }
}

/// Whether a text holds what is searched for, in whatever case.
pub open spec fn holds(text: Seq<char>, query: Seq<char>) -> bool {
    query.len() == 0 || has_part(lowercased(text), query)
}

/// Whether the role of a row holds what is searched for.
pub open spec fn role_holds(role: Option<String>, query: Seq<char>) -> bool {
    match role {
        Some(text) => holds(text@, query),
        None => false,
    }
}

/// A text answers a search exactly where it holds the searched text, in whatever case; a search
/// for nothing finds everything.
pub proof fn a_text_answers_where_it_holds_the_query(text: &str, query: &str, r: bool)
    requires
        call_ensures(answers_query, (text, query), r),
    ensures
        r <==> holds(text@, query@),
{
}

/// What is searched for is the typed text without the white space around it, in lower case.
pub proof fn a_search_is_for_the_typed_text(page: SharedContextView, q: String)
    requires
        call_ensures(SharedContextView::query, (&page,), q),
    ensures
        exists|typed: Seq<char>| #[trigger]
            is_bare(page.filter_text@, typed) && q@ == lowercased(typed),
{
    trimming_cuts_the_white_space_at_the_ends(page.filter_text@);
    assert(is_bare(page.filter_text@, crate::text::trimmed(page.filter_text@)));
}

/// Whether a row was recorded before some artifact.
pub open spec fn is_before_an_artifact(at: Timestamp, artifacts: Seq<Artifact>) -> bool {
    exists|i: int|
        0 <= i < artifacts.len() && is_earlier(at, (#[trigger] artifacts[i]).created_at)
}

/// Whether an instant is earlier than another.
pub open spec fn is_earlier(a: Timestamp, b: Timestamp) -> bool {
    a.seconds < b.seconds || (a.seconds == b.seconds && a.nanos < b.nanos)
}

/// Evidence is older than the newest artifact exactly where it is older than some artifact.
pub proof fn staleness(at: Timestamp, artifacts: Seq<Artifact>)
    ensures
        is_stale(at, newest_of(artifacts)) <==> is_before_an_artifact(at, artifacts),
{
    newest_is_the_latest(artifacts);
    match newest_of(artifacts) {
        Some(t) => {
            let k = choose|k: int| 0 <= k < artifacts.len() && (#[trigger] artifacts[k]).created_at == t;
            if is_stale(at, newest_of(artifacts)) {
                assert(is_earlier(at, artifacts[k].created_at));
            }
            if is_before_an_artifact(at, artifacts) {
                let i = choose|i: int|
                    0 <= i < artifacts.len() && is_earlier(at, (#[trigger] artifacts[i]).created_at);
                assert(!t.before(artifacts[i].created_at));
            }
        },
        None => {},
    }
}

/// Evidence is stale exactly where some artifact was recorded after it.
pub proof fn evidence_is_stale_after_an_edit(
    at: Timestamp,
    artifacts: Vec<Artifact>,
    newest: Option<Timestamp>,
    r: bool,
)
    requires
        call_ensures(newest_artifact, (&artifacts,), newest),
        call_ensures(evidence_is_stale, (at, newest), r),
    ensures
        r <==> is_before_an_artifact(at, artifacts@),
{
    staleness(at, artifacts@);
}

/// Whether a decision answers a search: by its value, its key, its author or its role.
pub open spec fn decision_holds(d: Decision, query: Seq<char>) -> bool {
    holds(d.value@, query) || holds(d.key@, query) || holds(d.author@, query) || role_holds(
        d.role,
        query,
    )
}

/// Whether an artifact answers a search: by its path, its summary, its author or its role.
pub open spec fn artifact_holds(a: Artifact, query: Seq<char>) -> bool {
    holds(a.path@, query) || holds(a.change_summary@, query) || holds(a.author@, query)
        || role_holds(a.role, query)
}

/// Whether a piece of evidence answers a search: by its command, its author or its role.
pub open spec fn evidence_holds(e: Evidence, query: Seq<char>) -> bool {
    holds(e.command@, query) || holds(e.author@, query) || role_holds(e.role, query)
}

/// The name that a row goes by: its role, or else its author.
pub open spec fn name_of(role: Option<String>, author: String) -> Seq<char> {
    match role {
        Some(r) => r@,
        None => author@,
    }
}

proof fn rows_are_those_that_answer<E: ContextEntry>(
    entries: Seq<E>,
    query: Seq<char>,
    newest: Option<Timestamp>,
    pred: spec_fn(E) -> bool,
)
    requires
        forall|e: E| #[trigger] pred(e) == e.answers(query),
    ensures
        found_rows(entries, query, newest).len() == entries.filter(pred).len(),
        forall|k: int|
            0 <= k < entries.filter(pred).len() ==> #[trigger] found_rows(entries, query, newest)[k]
                == entries.filter(pred)[entries.filter(pred).len() - 1 - k].shown(newest),
    decreases entries.len(),
{
    filter_from_the_end(entries, pred);
    if entries.len() > 0 {
        let rest = entries.drop_last();
        rows_are_those_that_answer(rest, query, newest, pred);
        assert(pred(entries.last()) == entries.last().answers(query));
        let before = found_rows(rest, query, newest);
        let rows = found_rows(entries, query, newest);
        let kept = entries.filter(pred);
        let kept_before = rest.filter(pred);
        if pred(entries.last()) {
            assert forall|k: int| 0 <= k < kept.len() implies #[trigger] rows[k] == kept[kept.len() - 1
                - k].shown(newest) by {
                if k > 0 {
                    assert(rows[k] == before[k - 1]);
                    assert(kept[kept.len() - 1 - k] == kept_before[kept_before.len() - 1 - (k - 1)]);
                }
            }
        }
    }
}

/// Whether a row shows a decision: its value as the title, and whose it is.
pub open spec fn row_of_decision(row: ContextRow, d: Decision) -> bool {
    &&& row.title@ == d.value@
    &&& row.byline@ == name_of(d.role, d.author)
    &&& row.created_at == d.created_at
    &&& row.trailing is None
}

/// Whether a row shows an artifact: its path as the title, and who recorded what of it.
pub open spec fn row_of_artifact(row: ContextRow, a: Artifact) -> bool {
    &&& row.title@ == a.path@
    &&& row.byline@ == a.author@ + " · "@ + a.change_summary@
    &&& row.created_at == a.created_at
    &&& row.trailing is None
}

/// Whether a row shows a piece of evidence: its command as the title, whose it is, and whether an
/// artifact was recorded after it.
pub open spec fn row_of_evidence(row: ContextRow, e: Evidence, artifacts: Seq<Artifact>) -> bool {
    &&& row.title@ == e.command@
    &&& row.byline@ == name_of(e.role, e.author)
    &&& row.created_at == e.created_at
    &&& match row.trailing {
        Some((text, color)) => if is_before_an_artifact(e.created_at, artifacts) {
            text@ == "stale"@ && color is Warning
        } else {
            text@ == "current"@ && color is Muted
        },
        None => false,
    }
}

/// Whether rows show, newest first, the entries of which `kept` holds the oldest first.
pub open spec fn shows_newest_first<E>(
    rows: Seq<ContextRow>,
    kept: Seq<E>,
    shows: spec_fn(ContextRow, E) -> bool,
) -> bool {
    &&& rows.len() == kept.len()
    &&& forall|k: int|
        0 <= k < rows.len() ==> shows(#[trigger] rows[k], kept[kept.len() - 1 - k])
}

/// The page of shared context shows, newest first, the rows of the decisions, the artifacts and
/// the evidence that answer the search, and those alone; its headers count all that was
/// recorded.
pub proof fn a_search_shows_what_answers_it(
    page: SharedContextView,
    snapshot: MissionSnapshot,
    context: MissionContext,
    r: SharedContextPage,
    q: String,
)
    requires
        call_ensures(SharedContextView::render, (&page, &snapshot), r),
        call_ensures(SharedContextView::query, (&page,), q),
        page.context_state == MissionContextState::Populated(context),
    ensures
        match r.body {
            ContextBody::Trail {
                decisions_header,
                decisions,
                artifacts_header,
                artifacts,
                evidence_header,
                open_all,
                evidence,
            } => {
                &&& shows_newest_first(
                    decisions@,
                    context.decisions@.filter(|d: Decision| decision_holds(d, q@)),
                    |row: ContextRow, d: Decision| row_of_decision(row, d),
                )
                &&& shows_newest_first(
                    artifacts@,
                    context.artifacts@.filter(|a: Artifact| artifact_holds(a, q@)),
                    |row: ContextRow, a: Artifact| row_of_artifact(row, a),
                )
                &&& shows_newest_first(
                    evidence@,
                    context.evidence@.filter(|e: Evidence| evidence_holds(e, q@)),
                    |row: ContextRow, e: Evidence| row_of_evidence(row, e, context.artifacts@),
                )
                &&& decisions_header.meta matches Some(n) && n@ == decimal(context.decisions@.len())
                &&& artifacts_header.meta matches Some(n) && n@ == decimal(context.artifacts@.len())
                &&& evidence_header.meta matches Some(n) && n@ == decimal(context.evidence@.len())
            },
            _ => false,
        },
{
    let newest = newest_of(context.artifacts@);
    let of_decision = |d: Decision| decision_holds(d, q@);
    let of_artifact = |a: Artifact| artifact_holds(a, q@);
    let of_evidence = |e: Evidence| evidence_holds(e, q@);
    assert(forall|d: Decision| #[trigger] of_decision(d) == d.answers(q@));
    assert(forall|a: Artifact| #[trigger] of_artifact(a) == a.answers(q@));
    assert(forall|e: Evidence| #[trigger] of_evidence(e) == e.answers(q@));
    rows_are_those_that_answer(context.decisions@, q@, newest, of_decision);
    rows_are_those_that_answer(context.artifacts@, q@, newest, of_artifact);
    rows_are_those_that_answer(context.evidence@, q@, newest, of_evidence);
    match r.body {
        ContextBody::Trail { decisions, artifacts, evidence, .. } => {
            assert(row_views(decisions@).len() == decisions@.len());
            assert(row_views(artifacts@).len() == artifacts@.len());
            assert(row_views(evidence@).len() == evidence@.len());
            let kept = context.decisions@.filter(of_decision);
            assert forall|k: int| 0 <= k < decisions@.len() implies row_of_decision(
                #[trigger] decisions@[k],
                kept[kept.len() - 1 - k],
            ) by {
                assert(row_views(decisions@)[k] == decisions@[k]@);
                assert(found_rows(context.decisions@, q@, newest)[k] == decisions@[k]@);
            }
            let kept = context.artifacts@.filter(of_artifact);
            assert forall|k: int| 0 <= k < artifacts@.len() implies row_of_artifact(
                #[trigger] artifacts@[k],
                kept[kept.len() - 1 - k],
            ) by {
                assert(row_views(artifacts@)[k] == artifacts@[k]@);
                assert(found_rows(context.artifacts@, q@, newest)[k] == artifacts@[k]@);
            }
            let kept = context.evidence@.filter(of_evidence);
            assert forall|k: int| 0 <= k < evidence@.len() implies row_of_evidence(
                #[trigger] evidence@[k],
                kept[kept.len() - 1 - k],
                context.artifacts@,
            ) by {
                assert(row_views(evidence@)[k] == evidence@[k]@);
                assert(found_rows(context.evidence@, q@, newest)[k] == evidence@[k]@);
                staleness(kept[kept.len() - 1 - k].created_at, context.artifacts@);
            }
        },
        _ => {},
    }
}

/// A row whose own title holds the searched text, in whatever case, is shown: a decision by its
/// value, an artifact by its path and a piece of evidence by its command.
pub proof fn a_row_is_found_by_its_title(
    page: SharedContextView,
    snapshot: MissionSnapshot,
    context: MissionContext,
    r: SharedContextPage,
    q: String,
)
    requires
        call_ensures(SharedContextView::render, (&page, &snapshot), r),
        call_ensures(SharedContextView::query, (&page,), q),
        page.context_state == MissionContextState::Populated(context),
    ensures
        match r.body {
            ContextBody::Trail { decisions, artifacts, evidence, .. } => {
                &&& forall|i: int|
                    0 <= i < context.decisions@.len() && has_part(
                        lowercased((#[trigger] context.decisions@[i]).value@),
                        q@,
                    ) ==> exists|k: int|
                        0 <= k < decisions@.len() && row_of_decision(
                            #[trigger] decisions@[k],
                            context.decisions@[i],
                        )
                &&& forall|i: int|
                    0 <= i < context.artifacts@.len() && has_part(
                        lowercased((#[trigger] context.artifacts@[i]).path@),
                        q@,
                    ) ==> exists|k: int|
                        0 <= k < artifacts@.len() && row_of_artifact(
                            #[trigger] artifacts@[k],
                            context.artifacts@[i],
                        )
                &&& forall|i: int|
                    0 <= i < context.evidence@.len() && has_part(
                        lowercased((#[trigger] context.evidence@[i]).command@),
                        q@,
                    ) ==> exists|k: int|
                        0 <= k < evidence@.len() && row_of_evidence(
                            #[trigger] evidence@[k],
                            context.evidence@[i],
                            context.artifacts@,
                        )
            },
            _ => false,
        },
{
    a_search_shows_what_answers_it(page, snapshot, context, r, q);
    let of_decision = |d: Decision| decision_holds(d, q@);
    let of_artifact = |a: Artifact| artifact_holds(a, q@);
    let of_evidence = |e: Evidence| evidence_holds(e, q@);
    what_a_filter_keeps(context.decisions@, of_decision);
    what_a_filter_keeps(context.artifacts@, of_artifact);
    what_a_filter_keeps(context.evidence@, of_evidence);
    match r.body {
        ContextBody::Trail { decisions, artifacts, evidence, .. } => {
            let kept = context.decisions@.filter(of_decision);
            assert forall|i: int|
                0 <= i < context.decisions@.len() && has_part(
                    lowercased((#[trigger] context.decisions@[i]).value@),
                    q@,
                ) implies exists|k: int|
                0 <= k < decisions@.len() && row_of_decision(
                    #[trigger] decisions@[k],
                    context.decisions@[i],
                ) by {
                let d = context.decisions@[i];
                assert(of_decision(d));
                assert(kept.contains(d));
                let j = choose|j: int| 0 <= j < kept.len() && kept[j] == d;
                let k = kept.len() - 1 - j;
                assert(kept[kept.len() - 1 - k] == d);
                assert(row_of_decision(decisions@[k], d));
            }
            let kept = context.artifacts@.filter(of_artifact);
            assert forall|i: int|
                0 <= i < context.artifacts@.len() && has_part(
                    lowercased((#[trigger] context.artifacts@[i]).path@),
                    q@,
                ) implies exists|k: int|
                0 <= k < artifacts@.len() && row_of_artifact(
                    #[trigger] artifacts@[k],
                    context.artifacts@[i],
                ) by {
                let a = context.artifacts@[i];
                assert(of_artifact(a));
                assert(kept.contains(a));
                let j = choose|j: int| 0 <= j < kept.len() && kept[j] == a;
                let k = kept.len() - 1 - j;
                assert(kept[kept.len() - 1 - k] == a);
                assert(row_of_artifact(artifacts@[k], a));
            }
            let kept = context.evidence@.filter(of_evidence);
            assert forall|i: int|
                0 <= i < context.evidence@.len() && has_part(
                    lowercased((#[trigger] context.evidence@[i]).command@),
                    q@,
                ) implies exists|k: int|
                0 <= k < evidence@.len() && row_of_evidence(
                    #[trigger] evidence@[k],
                    context.evidence@[i],
                    context.artifacts@,
                ) by {
                let e = context.evidence@[i];
                assert(of_evidence(e));
                assert(kept.contains(e));
                let j = choose|j: int| 0 <= j < kept.len() && kept[j] == e;
                let k = kept.len() - 1 - j;
                assert(kept[kept.len() - 1 - k] == e);
                assert(row_of_evidence(evidence@[k], e, context.artifacts@));
            }
        },
        _ => {},
    }
}

/// An entry whose row's own title holds the searched text is among the rows found, of whatever
/// kind it is.
pub proof fn an_entry_is_found_by_its_title(
    decisions: Seq<Decision>,
    artifacts: Seq<Artifact>,
    evidence: Seq<Evidence>,
    query: Seq<char>,
    newest: Option<Timestamp>,
    i: int,
)
    ensures
        0 <= i < decisions.len() && has_part(lowercased(decisions[i].value@), query) ==> found_rows(
            decisions,
            query,
            newest,
        ).contains(decisions[i].shown(newest)) && decisions[i].shown(newest).title
            == decisions[i].value@,
        0 <= i < artifacts.len() && has_part(lowercased(artifacts[i].path@), query) ==> found_rows(
            artifacts,
            query,
            newest,
        ).contains(artifacts[i].shown(newest)) && artifacts[i].shown(newest).title
            == artifacts[i].path@,
        0 <= i < evidence.len() && has_part(lowercased(evidence[i].command@), query) ==> found_rows(
            evidence,
            query,
            newest,
        ).contains(evidence[i].shown(newest)) && evidence[i].shown(newest).title
            == evidence[i].command@,
{
    if 0 <= i < decisions.len() && has_part(lowercased(decisions[i].value@), query) {
        an_entry_that_answers_is_found(decisions, query, newest, i);
    }
    if 0 <= i < artifacts.len() && has_part(lowercased(artifacts[i].path@), query) {
        an_entry_that_answers_is_found(artifacts, query, newest, i);
    }
    if 0 <= i < evidence.len() && has_part(lowercased(evidence[i].command@), query) {
        an_entry_that_answers_is_found(evidence, query, newest, i);
    }
}

proof fn an_entry_that_answers_is_found<E: ContextEntry>(
    entries: Seq<E>,
    query: Seq<char>,
    newest: Option<Timestamp>,
    i: int,
)
    requires
        0 <= i < entries.len(),
        entries[i].answers(query),
    ensures
        found_rows(entries, query, newest).contains(entries[i].shown(newest)),
    decreases entries.len(),
{
    let rest = entries.drop_last();
    let rows = found_rows(entries, query, newest);
    if i < rest.len() {
        an_entry_that_answers_is_found(rest, query, newest, i);
        let before = found_rows(rest, query, newest);
        let k = choose|k: int| 0 <= k < before.len() && before[k] == rest[i].shown(newest);
        if entries.last().answers(query) {
            assert(rows[k + 1] == before[k]);
        }
    } else {
        assert(rows[0] == entries[i].shown(newest));
    }
}

/// The page of shared context says why it shows nothing, and otherwise shows the trail; it names
/// the mission and, for each worker, its label.
pub proof fn the_page_of_shared_context(
    page: SharedContextView,
    snapshot: MissionSnapshot,
    r: SharedContextPage,
    i: int,
)
    requires
        call_ensures(SharedContextView::render, (&page, &snapshot), r),
    ensures
        r.body is Trail <==> page.context_state is Populated,
        page.context_state is Loading ==> (r.body matches ContextBody::Message(text) && text@
            == "Loading the Mission's shared context…"@),
        page.context_state is Unavailable ==> (r.body matches ContextBody::Message(text) && text@
            == "The shared context store is unavailable, so this Mission's trail can't be read."@),
        page.context_state is Empty || page.context_state is NoSelection ==> (r.body matches
            ContextBody::Message(text) && text@
            == "No decisions, artifacts, or evidence recorded for this Mission yet."@),
        r.subscribers@.len() == snapshot.workers@.len(),
        0 <= i < snapshot.workers@.len() ==> r.subscribers@[i]@ == snapshot.workers@[i].label@,
        has_part(r.subtitle@, hyphenated_form(page.mission.id.value).take(8)),
{
    let labels = crate::mission_views::worker_labels(snapshot.workers@);
    assert(labels.len() == snapshot.workers@.len());
    assert(views(r.subscribers@).len() == r.subscribers@.len());
    if 0 <= i < snapshot.workers@.len() {
        assert(views(r.subscribers@)[i] == r.subscribers@[i]@);
        assert(labels[i] == snapshot.workers@[i].label@);
    }
    let short = hyphenated_form(page.mission.id.value).take(8);
    let a = "· mission "@;
    let c = " · written by "@ + decimal(snapshot.workers@.len()) + " workers · read by all"@;
    crate::laws::texts::a_text_has_its_parts(a, short, c);
    assert(a + short + c =~= r.subtitle@);
}

/// What a page makes of a reading: what was read where there is anything, that there is nothing,
/// or that it could not be read. Nothing else of the page changes, and it asks for its own
/// mission.
pub proof fn a_page_takes_what_was_read(
    shared: &mut SharedContextView,
    trail: &mut EvidenceView,
    result: Option<Result<MissionContext, String>>,
    key: String,
    other: String,
    before: SharedContextView,
    evidence_before: EvidenceView,
)
    requires
        call_ensures(SharedContextView::context_loaded, (shared, result), ()),
        call_ensures(EvidenceView::context_loaded, (trail, result), ()),
        call_ensures(SharedContextView::refresh_key, (&before,), key),
        call_ensures(EvidenceView::refresh_key, (&evidence_before,), other),
    ensures
        is_state_of(final(shared).context_state, result),
        is_state_of(final(trail).context_state, result),
        final(shared).mission == old(shared).mission,
        final(shared).filter_text == old(shared).filter_text,
        final(trail).mission == old(trail).mission,
        key@ == hyphenated_form(before.mission.id.value),
        other@ == hyphenated_form(evidence_before.mission.id.value),
{
}

/// Whether a state is what a reading shows: a context with anything in it is there to be shown,
/// one with nothing is empty, and a failure is no emptiness.
pub open spec fn is_state_of(
    state: MissionContextState,
    result: Option<Result<MissionContext, String>>,
) -> bool {
    match result {
        Some(Ok(context)) => {
            let n = context.decisions@.len() + context.artifacts@.len() + context.evidence@.len();
            &&& state is Empty <==> n == 0
            &&& n > 0 ==> state == MissionContextState::Populated(context)
        },
        _ => state is Unavailable,
    }
}

/// A card shows a command with a check where it exited with 0 and with a cross otherwise, whose it
/// is, how it ended and what it gave; it says that it is stale exactly where it is older than
/// the newest artifact, with a way to the worker named like its role, where there is one.
pub proof fn a_card_shows_how_a_command_ended(
    e: Evidence,
    newest: Option<Timestamp>,
    workers: Vec<WorkerRow>,
    card: EvidenceCard,
    stale: bool,
    worker: Option<&WorkerRow>,
    warns: bool,
)
    requires
        call_ensures(render_evidence, (&e, newest, &workers), card),
        call_ensures(evidence_is_stale, (e.created_at, newest), stale),
        call_ensures(worker_for_role, (&e.role, &workers), worker),
        call_ensures(EvidenceCard::warns, (&card,), warns),
    ensures
        card.command@ == e.command@,
        card.icon is Check <==> e.exit_code == Some(0i32),
        card.icon is XCircle <==> e.exit_code != Some(0i32),
        card.icon_color is Success <==> e.exit_code == Some(0i32),
        card.icon_color is Error <==> e.exit_code != Some(0i32),
        card.name@ == name_of(e.role, e.author),
        e.exit_code matches Some(code) ==> card.exit_label@ == "exit "@ + signed_decimal(code as int),
        e.exit_code is None ==> card.exit_label@ == "no exit code"@,
        card.created_at == e.created_at,
        card.result is None <==> blank(e.result@),
        card.result matches Some(text) ==> is_bare(e.result@, text@),
        card.stale is Some <==> stale,
        warns <==> stale,
        card.stale matches Some(note) ==> {
            &&& note.rerun is Some <==> worker is Some
            &&& note.rerun matches Some(button) ==> (worker matches Some(w) && button.thread_id
                == w.metadata.thread_id && button.text@ == "Ask "@ + card.name@ + " to re-run"@)
        },
{
    trimming_cuts_the_white_space_at_the_ends(e.result@);
}

proof fn a_worker_is_found_by_name(workers: Seq<WorkerRow>, label: Seq<char>)
    ensures
        match worker_named(workers, label) {
            Some(worker) => exists|i: int|
                0 <= i < workers.len() && #[trigger] workers[i] == worker && worker.label@ == label
                    && forall|j: int| 0 <= j < i ==> (#[trigger] workers[j]).label@ != label,
            None => forall|i: int| 0 <= i < workers.len() ==> (#[trigger] workers[i]).label@ != label,
        },
    decreases workers.len(),
{
    if workers.len() > 0 {
        if workers[0].label@ == label {
            assert(workers[0] == worker_named(workers, label).unwrap());
        } else {
            let rest = workers.subrange(1, workers.len() as int);
            a_worker_is_found_by_name(rest, label);
            assert(forall|j: int| 0 <= j < rest.len() ==> #[trigger] rest[j] == workers[j + 1]);
            match worker_named(rest, label) {
                Some(worker) => {
                    let i = choose|i: int|
                        0 <= i < rest.len() && #[trigger] rest[i] == worker && worker.label@ == label
                            && forall|j: int| 0 <= j < i ==> (#[trigger] rest[j]).label@ != label;
                    assert(workers[i + 1] == worker);
                    assert forall|j: int| 0 <= j < i + 1 implies (#[trigger] workers[j]).label@ != label by {
                        if j > 0 {
                            assert(rest[j - 1] == workers[j]);
                        }
                    }
                },
                None => {
                    assert forall|j: int| 0 <= j < workers.len() implies (
                    #[trigger] workers[j]).label@ != label by {
                        if j > 0 {
                            assert(rest[j - 1] == workers[j]);
                        }
                    }
                },
            }
        }
    }
}

/// A worker is found by its name: the first one with that label, and none where there is none. The
/// worker of a row is the one named like the row's role.
pub proof fn a_worker_goes_by_its_label(
    workers: Vec<WorkerRow>,
    label: &str,
    r: Option<&WorkerRow>,
    role: Option<String>,
    of_role: Option<&WorkerRow>,
)
    requires
        call_ensures(find_worker, (&workers, label), r),
        call_ensures(worker_for_role, (&role, &workers), of_role),
    ensures
        r matches Some(worker) ==> exists|i: int|
            0 <= i < workers@.len() && #[trigger] workers@[i] == *worker && worker.label@ == label@
                && forall|j: int| 0 <= j < i ==> (#[trigger] workers@[j]).label@ != label@,
        r is None ==> forall|i: int|
            0 <= i < workers@.len() ==> (#[trigger] workers@[i]).label@ != label@,
        role is None ==> of_role is None,
        role matches Some(text) ==> (text@ == label@ ==> of_role == r),
{
    a_worker_is_found_by_name(workers@, label@);
}

proof fn evidence_is_counted(evidence: Seq<Evidence>, artifacts: Seq<Artifact>)
    ensures
        passing_of(evidence, newest_of(artifacts)) == evidence.filter(
            |e: Evidence|
                e.exit_code == Some(0i32) && !is_before_an_artifact(e.created_at, artifacts),
        ).len(),
        stale_of(evidence, newest_of(artifacts)) == evidence.filter(
            |e: Evidence| is_before_an_artifact(e.created_at, artifacts),
        ).len(),
    decreases evidence.len(),
{
    filter_from_the_end(
        evidence,
        |e: Evidence| e.exit_code == Some(0i32) && !is_before_an_artifact(e.created_at, artifacts),
    );
    filter_from_the_end(evidence, |e: Evidence| is_before_an_artifact(e.created_at, artifacts));
    if evidence.len() > 0 {
        evidence_is_counted(evidence.drop_last(), artifacts);
        staleness(evidence.last().created_at, artifacts);
    }
}

/// The page of evidence shows a card for each command, the newest first, and counts as passing
/// those that exited with 0 and that no artifact came after, and as stale those that one came
/// after.
pub proof fn the_page_of_evidence(
    page: EvidenceView,
    workers: Vec<WorkerRow>,
    context: MissionContext,
    r: EvidencePage,
    i: int,
)
    requires
        call_ensures(EvidenceView::render, (&page, &workers), r),
        page.context_state == MissionContextState::Populated(context),
    ensures
        r.body matches EvidenceBody::Cards(cards) && cards@.len() == context.evidence@.len() && (0
            <= i < cards@.len() ==> cards@[i].command@ == context.evidence@[cards@.len() - 1
            - i].command@ && cards@[i].created_at == context.evidence@[cards@.len() - 1
            - i].created_at && (cards@[i].icon is Check <==> context.evidence@[cards@.len() - 1
            - i].exit_code == Some(0i32)) && (cards@[i].stale is Some <==> is_before_an_artifact(
            context.evidence@[cards@.len() - 1 - i].created_at,
            context.artifacts@,
        ))),
        r.counts@ == decimal(
            context.evidence@.filter(
                |e: Evidence|
                    e.exit_code == Some(0i32) && !is_before_an_artifact(
                        e.created_at,
                        context.artifacts@,
                    ),
            ).len(),
        ) + " passing · "@ + decimal(
            context.evidence@.filter(
                |e: Evidence| is_before_an_artifact(e.created_at, context.artifacts@),
            ).len(),
        ) + " stale"@,
{
    evidence_is_counted(context.evidence@, context.artifacts@);
    if 0 <= i < context.evidence@.len() {
        staleness(
            context.evidence@[context.evidence@.len() - 1 - i].created_at,
            context.artifacts@,
        );
    }
}

/// The page of evidence says why it shows no card, and then counts nothing.
pub proof fn a_page_without_evidence_says_why(page: EvidenceView, workers: Vec<WorkerRow>, r: EvidencePage)
    requires
        call_ensures(EvidenceView::render, (&page, &workers), r),
    ensures
        r.body is Cards <==> page.context_state is Populated,
        !(page.context_state is Populated) ==> r.counts@ == decimal(0) + " passing · "@ + decimal(0)
            + " stale"@,
        page.context_state is Loading ==> (r.body matches EvidenceBody::Message(text) && text@
            == "Loading the Mission's evidence…"@),
        page.context_state is Unavailable ==> (r.body matches EvidenceBody::Message(text) && text@
            == "The shared context store is unavailable, so this Mission's evidence can't be read."@),
        page.context_state is Empty || page.context_state is NoSelection ==> (r.body matches
            EvidenceBody::Message(text) && text@
            == "No commands have been recorded as evidence for this Mission yet."@),
{
}

/// The line over a command says whose it is, how long ago it ran and how it ended.
pub proof fn a_headline_says_who_when_and_how(card: EvidenceCard, elapsed: &str, r: String, row: ContextRow, line: String)
    requires
        call_ensures(EvidenceCard::headline, (&card, elapsed), r),
        call_ensures(ContextRow::byline_with, (&row, elapsed), line),
    ensures
        r@ == card.name@ + " · "@ + elapsed@ + " ago"@ + " · "@ + card.exit_label@,
        line@ == row.byline@ + " · "@ + elapsed@ + " ago"@,
{
    assert(card.name@ + " · "@ + (elapsed@ + " ago"@) =~= card.name@ + " · "@ + elapsed@ + " ago"@);
    assert(row.byline@ + " · "@ + (elapsed@ + " ago"@) =~= row.byline@ + " · "@ + elapsed@
        + " ago"@);
}

proof fn loaded_workers(workers: Seq<WorkerRow>)
    ensures
        loaded_threads(workers).len() == workers.filter(|w: WorkerRow| w.thread_loaded).len(),
        forall|k: int|
            0 <= k < loaded_threads(workers).len() ==> #[trigger] loaded_threads(workers)[k]
                == workers.filter(|w: WorkerRow| w.thread_loaded)[k].metadata.thread_id,
    decreases workers.len(),
{
    filter_from_the_end(workers, |w: WorkerRow| w.thread_loaded);
    if workers.len() > 0 {
        loaded_workers(workers.drop_last());
    }
}

/// A comment goes, without the white space around it, to every worker whose thread is loaded and
/// to no other; the field is cleared where anybody gets it. A blank comment goes nowhere.
pub proof fn a_comment_goes_to_every_loaded_worker(
    queue: &mut MissionQueueView,
    workers: Vec<WorkerRow>,
    r: Option<Comment>,
    threads: Vec<ThreadId>,
    k: int,
)
    requires
        call_ensures(MissionQueueView::post_comment, (queue, &workers), r),
        call_ensures(loaded_worker_threads, (&workers,), threads),
    ensures
        r is None <==> blank(old(queue).comment_text@),
        r is None ==> *final(queue) == *old(queue),
        r matches Some(comment) ==> is_bare(old(queue).comment_text@, comment.text@)
            && comment.recipients@ == threads@,
        threads@.len() == workers@.filter(|w: WorkerRow| w.thread_loaded).len(),
        0 <= k < threads@.len() ==> threads@[k] == workers@.filter(
            |w: WorkerRow| w.thread_loaded,
        )[k].metadata.thread_id,
        r is Some && threads@.len() > 0 ==> final(queue).comment_text@.len() == 0,
        r is Some && threads@.len() == 0 ==> final(queue).comment_text@ == old(queue).comment_text@,
        final(queue).mission == old(queue).mission,
{
    trimming_cuts_the_white_space_at_the_ends(old(queue).comment_text@);
    loaded_workers(workers@);
}

/// A worker's prompt is in the queue exactly where the worker waits for an answer and its thread is
/// loaded; the answers go to the call that asks.
pub proof fn a_loaded_workers_prompt_is_in_the_queue(worker: WorkerRow, r: Option<PermissionCard>)
    requires
        call_ensures(render_permission_card, (&worker,), r),
    ensures
        r is Some <==> worker.thread_loaded && worker.permission is Some,
        r matches Some(card) ==> (worker.permission matches Some(p) && card.label@ == p.label@
            && card.asked@ == worker.label@ + " asked"@ && card.thread_id == worker.metadata.thread_id
            && (card.allow is Some <==> p.allow is Some) && (card.reject is Some <==> p.reject is Some)
            && (card.allow matches Some(b) ==> (p.allow matches Some(o) && b.text@ == "Allow"@
            && b.authorization.tool_call_id@ == p.tool_call_id@ && b.authorization.option_id@
            == o.option_id@ && b.authorization.option_kind == o.kind)) && (card.reject matches Some(b)
            ==> (p.reject matches Some(o) && b.text@ == "Reject"@ && b.authorization.tool_call_id@
            == p.tool_call_id@ && b.authorization.option_id@ == o.option_id@
            && b.authorization.option_kind == o.kind))),
{
}

/// A contended file names its workers and itself.
pub proof fn a_conflict_names_the_file_and_its_workers(change: MissionChange, r: ConflictCard, i: int)
    requires
        call_ensures(render_conflict_card, (&change,), r),
        0 <= i < change.workers@.len(),
    ensures
        r.name@ == change.name@,
        has_part(r.text@, change.name@),
        r.title@ == "Conflict · "@ + joined(views(change.workers@), " vs "@),
        has_part(r.title@, change.workers@[i]@),
{
    crate::laws::texts::a_text_has_its_parts("Both workers edited "@, change.name@, "."@);
    crate::laws::texts::joining_keeps_each_part(views(change.workers@), " vs "@, i);
    assert(views(change.workers@)[i] == change.workers@[i]@);
    let all = joined(views(change.workers@), " vs "@);
    crate::laws::texts::a_part_of_a_part("Conflict · "@, all, seq![], change.workers@[i]@);
    assert("Conflict · "@ + all + seq![] =~= "Conflict · "@ + all);
}

/// The diff of a contended file is that of the first worker that touched it, where that worker's
/// thread is loaded.
pub proof fn a_diff_is_that_of_the_first_author(
    queue: MissionQueueView,
    name: &str,
    snapshot: MissionSnapshot,
    r: Option<ThreadId>,
    i: int,
    worker: Option<&WorkerRow>,
    label: &str,
)
    requires
        call_ensures(MissionQueueView::open_conflict_diff, (&queue, name, &snapshot), r),
        0 <= i < snapshot.changes@.len(),
        snapshot.changes@[i].name@ == name@,
        forall|j: int| 0 <= j < i ==> (#[trigger] snapshot.changes@[j]).name@ != name@,
        snapshot.changes@[i].workers@.len() > 0,
        label@ == snapshot.changes@[i].workers@[0]@,
        call_ensures(find_worker, (&snapshot.workers, label), worker),
    ensures
        r matches Some(id) ==> (worker matches Some(w) && w.thread_loaded && id
            == w.metadata.thread_id),
        r is None <==> !(worker matches Some(w) && w.thread_loaded),
{
    a_change_is_found_by_name(snapshot.changes@, name@, i);
}

proof fn a_change_is_found_by_name(changes: Seq<MissionChange>, name: Seq<char>, i: int)
    requires
        0 <= i < changes.len(),
        changes[i].name@ == name,
        forall|j: int| 0 <= j < i ==> (#[trigger] changes[j]).name@ != name,
    ensures
        change_named(changes, name) == Some(changes[i]),
    decreases changes.len(),
{
    if i > 0 {
        assert(changes[0].name@ != name);
        let rest = changes.subrange(1, changes.len() as int);
        assert forall|j: int| 0 <= j < i - 1 implies (#[trigger] rest[j]).name@ != name by {
            assert(rest[j] == changes[j + 1]);
        }
        assert(rest[i - 1] == changes[i]);
        a_change_is_found_by_name(rest, name, i - 1);
    }
}

/// A worker's report is what it said last, or that it has said nothing, with its name, what it used
/// and what it cost; the total is that of all workers.
pub proof fn a_standup_reports_each_worker(
    snapshot: MissionSnapshot,
    total_cost: Option<String>,
    r: Standup,
    i: int,
)
    requires
        call_ensures(render_standup, (&snapshot, &total_cost), r),
        0 <= i < snapshot.workers@.len(),
    ensures
        r.lines@.len() == snapshot.workers@.len(),
        ({
            let worker = snapshot.workers@[i];
            let line = r.lines@[i];
            &&& worker.summary matches Some(summary) ==> line.text.text@ == summary@
                && line.text.color is Default
            &&& worker.summary is None ==> line.text.text@ == "Nothing reported yet"@
                && line.text.color is Muted
            &&& line.meta@ == worker.label@ + (match worker.tokens {
                Some(tokens) => " · "@ + token_count(tokens as nat) + " tok"@,
                None => ""@,
            }) + (match worker.cost {
                Some(cost) => " · $"@ + cost@,
                None => ""@,
            })
        }),
        r.total@ == token_count(crate::mission_snapshot::tokens_of(snapshot.workers@)) + " tok"@ + (
        match total_cost {
            Some(cost) => " · $"@ + cost@,
            None => ""@,
        }),
{
    reveal_strlit("");
    assert(""@ =~= Seq::<char>::empty());
}

/// Whether a worker is blocked: it has a prompt that waits for the user.
pub open spec fn is_blocked(worker: WorkerRow) -> bool {
    worker.permission is Some
}

/// Whether a file is contended: more than one worker touched it.
pub open spec fn is_contended(change: MissionChange) -> bool {
    change.workers@.len() > 1
}

/// The blocked workers and the contended files are all of those, in their order.
pub proof fn blocked_and_contended_are_all_of_those(
    workers: Seq<WorkerRow>,
    changes: Seq<MissionChange>,
)
    ensures
        blocked_of(workers) == workers.filter(|w: WorkerRow| is_blocked(w)),
        contended_of(changes) == changes.filter(|c: MissionChange| is_contended(c)),
    decreases workers.len() + changes.len(),
{
    filter_from_the_end(workers, |w: WorkerRow| is_blocked(w));
    filter_from_the_end(changes, |c: MissionChange| is_contended(c));
    if workers.len() > 0 && changes.len() > 0 {
        blocked_and_contended_are_all_of_those(workers.drop_last(), changes.drop_last());
    } else if workers.len() > 0 {
        blocked_and_contended_are_all_of_those(workers.drop_last(), changes);
    } else if changes.len() > 0 {
        blocked_and_contended_are_all_of_those(workers, changes.drop_last());
    }
}

/// The queue shows what every blocked worker asks and every contended file, and counts them; it
/// says that nothing waits exactly where there is neither. A comment can be sent exactly where
/// some worker's thread is loaded.
pub proof fn the_queue_shows_all_that_waits(
    queue: MissionQueueView,
    snapshot: MissionSnapshot,
    total_cost: Option<String>,
    r: QueuePage,
)
    requires
        call_ensures(MissionQueueView::render, (&queue, &snapshot, &total_cost), r),
    ensures
        ({
            let blocked = snapshot.workers@.filter(|w: WorkerRow| is_blocked(w));
            let contended = snapshot.changes@.filter(|c: MissionChange| is_contended(c));
            &&& r.permissions@.len() == blocked.len()
            &&& forall|i: int|
                0 <= i < blocked.len() ==> (match #[trigger] r.permissions@[i] {
                    Some(card) => blocked[i].thread_loaded && card.thread_id
                        == blocked[i].metadata.thread_id,
                    None => !blocked[i].thread_loaded,
                })
            &&& r.conflicts@.len() == contended.len()
            &&& forall|i: int|
                0 <= i < contended.len() ==> (#[trigger] r.conflicts@[i]).name@ == contended[i].name@
            &&& r.asked_header.meta matches Some(n) && n@ == decimal(blocked.len() + contended.len())
            &&& r.nothing is Some <==> blocked.len() + contended.len() == 0
        }),
        r.can_comment <==> exists|i: int|
            0 <= i < snapshot.workers@.len() && (#[trigger] snapshot.workers@[i]).thread_loaded,
        r.can_comment ==> r.comment_hint@ == "Sent to every loaded worker as a user message"@,
        !r.can_comment ==> r.comment_hint@
            == "No worker thread is loaded, so there is nobody to send to"@,
        r.name@ == snapshot.human.name@,
{
    blocked_and_contended_are_all_of_those(snapshot.workers@, snapshot.changes@);
    loaded_workers(snapshot.workers@);
    what_a_filter_keeps(snapshot.workers@, |w: WorkerRow| w.thread_loaded);
}

/// The status bar turns to the newest mission, and says whether that is another than before; among
/// missions none listed is newer. Without a list nothing changes.
pub proof fn the_status_bar_turns_to_the_newest_mission(
    indicator: &mut MissionStatusIndicator,
    missions: Option<&Vec<Mission>>,
    r: bool,
)
    requires
        call_ensures(MissionStatusIndicator::refresh, (indicator, missions), r),
    ensures
        missions is None ==> !r && *final(indicator) == *old(indicator),
        !r ==> *final(indicator) == *old(indicator),
        missions matches Some(list) ==> {
            &&& list@.len() == 0 ==> final(indicator).mission is None
            &&& list@.len() > 0 ==> (final(indicator).mission matches Some(m) && exists|i: int|
                0 <= i < list@.len() && (#[trigger] list@[i]).id == m.id && forall|j: int|
                    0 <= j < list@.len() ==> !is_earlier(
                        list@[i].created_at,
                        (#[trigger] list@[j]).created_at,
                    ))
            &&& r ==> (match (old(indicator).mission, final(indicator).mission) {
                (Some(a), Some(b)) => a.id != b.id,
                (None, None) => false,
                _ => true,
            })
        },
{
    match missions {
        Some(list) => {
            the_newest_mission_is_the_latest(list@);
            match newest_mission(list@) {
                Some(m) => {
                    let i = choose|i: int| 0 <= i < list@.len() && list@[i] == m;
                    assert(list@[i].id == m.id);
                },
                None => {},
            }
        },
        None => {},
    }
}

/// How many workers are in a state.
pub open spec fn workers_in(workers: Seq<WorkerRow>, state: MissionThreadState) -> nat {
    workers.filter(|w: WorkerRow| w.state == state).len()
}

/// The count of a state is the number of workers in it.
pub proof fn a_state_is_counted_by_its_workers(workers: Seq<WorkerRow>, state: MissionThreadState)
    ensures
        crate::mission_changes::count_of(crate::mission_snapshot::states_of(workers), state)
            == workers_in(workers, state),
    decreases workers.len(),
{
    filter_from_the_end(workers, |w: WorkerRow| w.state == state);
    let states = crate::mission_snapshot::states_of(workers);
    if workers.len() > 0 {
        a_state_is_counted_by_its_workers(workers.drop_last(), state);
        assert(states.drop_last() =~= crate::mission_snapshot::states_of(workers.drop_last()));
        assert(states.last() == workers.last().state);
    }
}

/// The status bar says, of a mission with workers, its title and how many of them work, and, in the
/// colour of warnings, how many wait for the user where any does.
pub proof fn the_status_bar_counts_the_workers(
    indicator: MissionStatusIndicator,
    snapshot: MissionSnapshot,
    r: Option<StatusView>,
)
    requires
        call_ensures(MissionStatusIndicator::render, (&indicator, &snapshot), r),
    ensures
        r is Some <==> indicator.mission is Some && snapshot.workers@.len() > 0,
        r matches Some(view) ==> {
            let running = workers_in(snapshot.workers@, MissionThreadState::Running);
            let blocked = workers_in(snapshot.workers@, MissionThreadState::Waiting);
            &&& view.color is Warning <==> blocked > 0
            &&& view.color is Muted <==> blocked == 0
            &&& indicator.mission matches Some(mission) && view.summary@ == mission.title@ + " · "@
                + decimal(running) + " "@ + (if running == 1 {
                "agent"@
            } else {
                "agents"@
            }) + " working"@ + (if blocked > 0 {
                " · "@ + decimal(blocked) + " waiting on you"@
            } else {
                ""@
            })
        },
{
    a_state_is_counted_by_its_workers(snapshot.workers@, MissionThreadState::Running);
    a_state_is_counted_by_its_workers(snapshot.workers@, MissionThreadState::Waiting);
    reveal_strlit("");
    match (r, indicator.mission) {
        (Some(view), Some(mission)) => {
            let running = workers_in(snapshot.workers@, MissionThreadState::Running);
            let blocked = workers_in(snapshot.workers@, MissionThreadState::Waiting);
            let word = if running == 1 {
                "agent"@
            } else {
                "agents"@
            };
            let tail = if blocked > 0 {
                " · "@ + decimal(blocked) + " waiting on you"@
            } else {
                ""@
            };
            assert(""@ =~= Seq::<char>::empty());
            assert(mission.title@ + " · "@ + (decimal(running) + " "@ + word) + " working"@ + tail
                =~= mission.title@ + " · "@ + decimal(running) + " "@ + word + " working"@ + tail);
        },
        _ => {},
    }
}

} // verus!
