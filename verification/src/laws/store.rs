//! Laws about the store of shared context: what is recorded, and what a reading holds.

use vstd::prelude::*;
use crate::laws::server::is_stamped_by_a_clock;
use crate::laws::server::stamps_are_a_clocks;
use crate::mcp_server::read_newest_first;
use crate::mission_id::hyphenated_form;
use crate::mission_id::MissionId;
use crate::shared_context::a_reading_holds_the_most_recent_rows;
use crate::shared_context::a_reading_is_capped_ordered_and_of_the_mission;
use crate::shared_context::backfilled_role;
use crate::shared_context::bound_follows_time;
use crate::shared_context::db_path_from_env;
use crate::shared_context::keys;
use crate::shared_context::recent;
use crate::shared_context::selected;
use crate::shared_context::since_bound;
use crate::shared_context::stamped;
use crate::shared_context::Artifact;
use crate::shared_context::ArtifactRow;
use crate::shared_context::Decision;
use crate::shared_context::DecisionRow;
use crate::shared_context::Evidence;
use crate::shared_context::EvidenceRow;
use crate::shared_context::MissionContext;
use crate::shared_context::RowKey;
use crate::shared_context::SharedContextStore;
use crate::shared_context::StoredRow;
use crate::shared_context::Table;
use crate::time::reads_as;
use crate::time::Timestamp;

verus! {

/// A store is empty at first.
pub proof fn a_new_store_is_empty(r: SharedContextStore)
    requires
        call_ensures(SharedContextStore::new, (), r),
    ensures
        r.decisions@.len() == 0,
        r.artifacts@.len() == 0,
        r.evidence@.len() == 0,
{
}

/// Recording a decision adds one row behind the decisions, with the mission, the key, the value,
/// the author and the role as they were given, stamped with the given time, and leaves the other
/// tables alone.
pub proof fn recording_a_decision_adds_its_row(
    store: &mut SharedContextStore,
    at: Timestamp,
    mission_id: MissionId,
    key: String,
    value: String,
    author: String,
    role: Option<String>,
)
    requires
        call_ensures(
            SharedContextStore::record_decision_at,
            (store, at, mission_id, key, value, author, role),
            (),
        ),
    ensures
        final(store).decisions@.len() == old(store).decisions@.len() + 1,
        final(store).decisions@.drop_last() == old(store).decisions@,
        final(store).artifacts@ == old(store).artifacts@,
        final(store).evidence@ == old(store).evidence@,
        ({
            let row = final(store).decisions@.last();
            &&& row.mission_id == mission_id
            &&& row.key@ == key@
            &&& row.value@ == value@
            &&& row.author@ == author@
            &&& row.role == role
            &&& at.four_digit_year() ==> reads_as(row.created_at@, at)
        }),
{
}

/// Recording an artifact adds one row behind the artifacts, with the mission, the path, the summary,
/// the author and the role as they were given, stamped with the given time, and leaves the other
/// tables alone.
pub proof fn recording_an_artifact_adds_its_row(
    store: &mut SharedContextStore,
    at: Timestamp,
    mission_id: MissionId,
    path: String,
    change_summary: String,
    author: String,
    role: Option<String>,
)
    requires
        call_ensures(
            SharedContextStore::record_artifact_at,
            (store, at, mission_id, path, change_summary, author, role),
            (),
        ),
    ensures
        final(store).artifacts@.len() == old(store).artifacts@.len() + 1,
        final(store).artifacts@.drop_last() == old(store).artifacts@,
        final(store).decisions@ == old(store).decisions@,
        final(store).evidence@ == old(store).evidence@,
        ({
            let row = final(store).artifacts@.last();
            &&& row.mission_id == mission_id
            &&& row.path@ == path@
            &&& row.change_summary@ == change_summary@
            &&& row.author@ == author@
            &&& row.role == role
            &&& at.four_digit_year() ==> reads_as(row.created_at@, at)
        }),
{
}

/// Recording evidence adds one row behind the evidence, with the mission, the command, the result,
/// the exit code, the author and the role as they were given, stamped with the given time, and
/// leaves the other tables alone.
pub proof fn recording_evidence_adds_its_row(
    store: &mut SharedContextStore,
    at: Timestamp,
    mission_id: MissionId,
    command: String,
    result: String,
    exit_code: Option<i32>,
    author: String,
    role: Option<String>,
)
    requires
        call_ensures(
            SharedContextStore::record_evidence_at,
            (store, at, mission_id, command, result, exit_code, author, role),
            (),
        ),
    ensures
        final(store).evidence@.len() == old(store).evidence@.len() + 1,
        final(store).evidence@.drop_last() == old(store).evidence@,
        final(store).decisions@ == old(store).decisions@,
        final(store).artifacts@ == old(store).artifacts@,
        ({
            let row = final(store).evidence@.last();
            &&& row.mission_id == mission_id
            &&& row.command@ == command@
            &&& row.result@ == result@
            &&& row.exit_code == exit_code
            &&& row.author@ == author@
            &&& row.role == role
            &&& at.four_digit_year() ==> reads_as(row.created_at@, at)
        }),
{
}

/// What is recorded without a time is recorded with what was given, in the table it belongs to,
/// stamped with the time of some clock.
pub proof fn recording_keeps_what_was_given(
    decided: &mut SharedContextStore,
    changed: &mut SharedContextStore,
    ran: &mut SharedContextStore,
    mission_id: MissionId,
    first: String,
    second: String,
    exit_code: Option<i32>,
    author: String,
    role: Option<String>,
)
    requires
        call_ensures(
            SharedContextStore::record_decision,
            (decided, mission_id, first, second, author, role),
            (),
        ),
        call_ensures(
            SharedContextStore::record_artifact,
            (changed, mission_id, first, second, author, role),
            (),
        ),
        call_ensures(
            SharedContextStore::record_evidence,
            (ran, mission_id, first, second, exit_code, author, role),
            (),
        ),
    ensures
        final(decided).decisions@.len() == old(decided).decisions@.len() + 1,
        final(decided).decisions@.drop_last() == old(decided).decisions@,
        is_stamped_by_a_clock(final(decided).decisions@.last().created_at@),
        final(decided).artifacts@ == old(decided).artifacts@,
        final(decided).evidence@ == old(decided).evidence@,
        ({
            let row = final(decided).decisions@.last();
            row.mission_id == mission_id && row.key@ == first@ && row.value@ == second@ && row.author@
                == author@ && row.role == role
        }),
        final(changed).artifacts@.len() == old(changed).artifacts@.len() + 1,
        final(changed).artifacts@.drop_last() == old(changed).artifacts@,
        is_stamped_by_a_clock(final(changed).artifacts@.last().created_at@),
        final(changed).decisions@ == old(changed).decisions@,
        final(changed).evidence@ == old(changed).evidence@,
        ({
            let row = final(changed).artifacts@.last();
            row.mission_id == mission_id && row.path@ == first@ && row.change_summary@ == second@
                && row.author@ == author@ && row.role == role
        }),
        final(ran).evidence@.len() == old(ran).evidence@.len() + 1,
        final(ran).evidence@.drop_last() == old(ran).evidence@,
        is_stamped_by_a_clock(final(ran).evidence@.last().created_at@),
        final(ran).decisions@ == old(ran).decisions@,
        final(ran).artifacts@ == old(ran).artifacts@,
        ({
            let row = final(ran).evidence@.last();
            row.mission_id == mission_id && row.command@ == first@ && row.result@ == second@
                && row.exit_code == exit_code && row.author@ == author@ && row.role == role
        }),
{
    stamps_are_a_clocks(final(decided).decisions@.last().created_at@);
    stamps_are_a_clocks(final(changed).artifacts@.last().created_at@);
    stamps_are_a_clocks(final(ran).evidence@.last().created_at@);
}

/// Whether a row of the table is of a mission and says what was read.
pub open spec fn is_read_from(row: EvidenceRow, mission_id: MissionId, e: Evidence) -> bool {
    &&& row.mission_id == mission_id
    &&& row.command@ == e.command@
    &&& row.result@ == e.result@
    &&& row.exit_code == e.exit_code
    &&& row.author@ == e.author@
    &&& row.role == e.role
    &&& reads_as(row.created_at@, e.created_at)
}

/// Whether a row of the table is of a mission and says what was read.
pub open spec fn is_decision_read_from(row: DecisionRow, mission_id: MissionId, d: Decision) -> bool {
    &&& row.mission_id == mission_id
    &&& row.key@ == d.key@
    &&& row.value@ == d.value@
    &&& row.author@ == d.author@
    &&& row.role == d.role
    &&& reads_as(row.created_at@, d.created_at)
}

/// Whether a row of the table is of a mission and says what was read.
pub open spec fn is_artifact_read_from(row: ArtifactRow, mission_id: MissionId, a: Artifact) -> bool {
    &&& row.mission_id == mission_id
    &&& row.path@ == a.path@
    &&& row.change_summary@ == a.change_summary@
    &&& row.author@ == a.author@
    &&& row.role == a.role
    &&& reads_as(row.created_at@, a.created_at)
}

/// A reading holds nothing but rows of the mission, each with what was recorded in it, and of each
/// table fifty at most.
pub proof fn a_reading_is_of_the_mission(
    store: SharedContextStore,
    mission_id: MissionId,
    since: Option<Timestamp>,
    context: MissionContext,
    k: int,
)
    requires
        call_ensures(
            SharedContextStore::get_mission_context,
            (&store, mission_id, since),
            Ok(context),
        ),
    ensures
        context.mission_id@ == hyphenated_form(mission_id.value),
        context.decisions@.len() <= 50,
        context.artifacts@.len() <= 50,
        context.evidence@.len() <= 50,
        0 <= k < context.decisions@.len() ==> exists|i: int|
            0 <= i < store.decisions@.len() && is_decision_read_from(
                #[trigger] store.decisions@[i],
                mission_id,
                context.decisions@[k],
            ),
        0 <= k < context.artifacts@.len() ==> exists|i: int|
            0 <= i < store.artifacts@.len() && is_artifact_read_from(
                #[trigger] store.artifacts@[i],
                mission_id,
                context.artifacts@[k],
            ),
        0 <= k < context.evidence@.len() ==> exists|i: int|
            0 <= i < store.evidence@.len() && is_read_from(
                #[trigger] store.evidence@[i],
                mission_id,
                context.evidence@[k],
            ),
{
    let bound = since_bound(since);
    let d = keys(store.decisions@);
    let a = keys(store.artifacts@);
    let e = keys(store.evidence@);
    a_reading_is_capped_ordered_and_of_the_mission(d, mission_id, bound);
    a_reading_is_capped_ordered_and_of_the_mission(a, mission_id, bound);
    a_reading_is_capped_ordered_and_of_the_mission(e, mission_id, bound);
    if 0 <= k < context.decisions@.len() {
        let i = recent(d, mission_id, bound)[k];
        assert(d[i] == store.decisions@[i].key());
        assert(store.decisions@[i].reads(context.decisions@[k]));
        assert(is_decision_read_from(store.decisions@[i], mission_id, context.decisions@[k]));
    }
    if 0 <= k < context.artifacts@.len() {
        let i = recent(a, mission_id, bound)[k];
        assert(a[i] == store.artifacts@[i].key());
        assert(store.artifacts@[i].reads(context.artifacts@[k]));
        assert(is_artifact_read_from(store.artifacts@[i], mission_id, context.artifacts@[k]));
    }
    if 0 <= k < context.evidence@.len() {
        let i = recent(e, mission_id, bound)[k];
        assert(e[i] == store.evidence@[i].key());
        assert(store.evidence@[i].reads(context.evidence@[k]));
        assert(is_read_from(store.evidence@[i], mission_id, context.evidence@[k]));
    }
}

/// Whether a row that was stamped with a time is read with the bound `since`: without a bound it is,
/// and with one it is where its time is later.
pub open spec fn is_after(at: Timestamp, since: Option<Timestamp>) -> bool {
    match since {
        Some(t) => t.seconds < at.seconds || (t.seconds == at.seconds && t.nanos < at.nanos),
        None => true,
    }
}

/// Whether a stamp is that of an instant from 1970 to the year 9999.
pub open spec fn is_stamp(text: Seq<char>, at: Timestamp) -> bool {
    at.valid() && 0 <= at.seconds <= 253402300799 && stamped(text, at)
}

/// A reading holds every row of the mission that was recorded after the bound, as long as there are
/// fewer than fifty in its table's reading; and none that was not recorded after it.
pub proof fn a_reading_holds_what_was_recorded_after_the_bound(
    store: SharedContextStore,
    mission_id: MissionId,
    since: Option<Timestamp>,
    context: MissionContext,
    i: int,
    at: Timestamp,
)
    requires
        call_ensures(
            SharedContextStore::get_mission_context,
            (&store, mission_id, since),
            Ok(context),
        ),
    ensures
        0 <= i < store.decisions@.len() && is_stamp(store.decisions@[i].created_at@, at)
            && store.decisions@[i].mission_id == mission_id && is_after(at, since)
            && context.decisions@.len() < 50 ==> exists|k: int|
            0 <= k < context.decisions@.len() && is_decision_read_from(
                store.decisions@[i],
                mission_id,
                #[trigger] context.decisions@[k],
            ),
        0 <= i < store.artifacts@.len() && is_stamp(store.artifacts@[i].created_at@, at)
            && store.artifacts@[i].mission_id == mission_id && is_after(at, since)
            && context.artifacts@.len() < 50 ==> exists|k: int|
            0 <= k < context.artifacts@.len() && is_artifact_read_from(
                store.artifacts@[i],
                mission_id,
                #[trigger] context.artifacts@[k],
            ),
        0 <= i < store.evidence@.len() && is_stamp(store.evidence@[i].created_at@, at)
            && store.evidence@[i].mission_id == mission_id && is_after(at, since)
            && context.evidence@.len() < 50 ==> exists|k: int|
            0 <= k < context.evidence@.len() && is_read_from(
                store.evidence@[i],
                mission_id,
                #[trigger] context.evidence@[k],
            ),
{
    let bound = since_bound(since);
    let d = keys(store.decisions@);
    let a = keys(store.artifacts@);
    let e = keys(store.evidence@);
    if 0 <= i < store.decisions@.len() && is_stamp(store.decisions@[i].created_at@, at)
        && store.decisions@[i].mission_id == mission_id && is_after(at, since)
        && context.decisions@.len() < 50 {
        assert(d[i] == store.decisions@[i].key());
        a_row_after_the_bound_is_listed(d, mission_id, since, i, at);
        let order = recent(d, mission_id, bound);
        let k = choose|k: int| 0 <= k < order.len() && order[k] == i;
        assert(store.decisions@[i].reads(context.decisions@[k]));
        assert(is_decision_read_from(store.decisions@[i], mission_id, context.decisions@[k]));
    }
    if 0 <= i < store.artifacts@.len() && is_stamp(store.artifacts@[i].created_at@, at)
        && store.artifacts@[i].mission_id == mission_id && is_after(at, since)
        && context.artifacts@.len() < 50 {
        assert(a[i] == store.artifacts@[i].key());
        a_row_after_the_bound_is_listed(a, mission_id, since, i, at);
        let order = recent(a, mission_id, bound);
        let k = choose|k: int| 0 <= k < order.len() && order[k] == i;
        assert(store.artifacts@[i].reads(context.artifacts@[k]));
        assert(is_artifact_read_from(store.artifacts@[i], mission_id, context.artifacts@[k]));
    }
    if 0 <= i < store.evidence@.len() && is_stamp(store.evidence@[i].created_at@, at)
        && store.evidence@[i].mission_id == mission_id && is_after(at, since)
        && context.evidence@.len() < 50 {
        assert(e[i] == store.evidence@[i].key());
        a_row_after_the_bound_is_listed(e, mission_id, since, i, at);
        let order = recent(e, mission_id, bound);
        let k = choose|k: int| 0 <= k < order.len() && order[k] == i;
        assert(store.evidence@[i].reads(context.evidence@[k]));
        assert(is_read_from(store.evidence@[i], mission_id, context.evidence@[k]));
    }
}

proof fn a_row_after_the_bound_is_listed(
    rows: Seq<RowKey>,
    mission_id: MissionId,
    since: Option<Timestamp>,
    i: int,
    at: Timestamp,
)
    requires
        bound_follows_time(since),
        0 <= i < rows.len(),
        rows[i].mission_id == mission_id,
        is_stamp(rows[i].created_at, at),
        is_after(at, since),
        recent(rows, mission_id, since_bound(since)).len() < 50,
    ensures
        recent(rows, mission_id, since_bound(since)).contains(i),
{
    assert(selected(rows[i], mission_id, since_bound(since)));
    if !recent(rows, mission_id, since_bound(since)).contains(i) {
        a_reading_holds_the_most_recent_rows(rows, mission_id, since_bound(since), i);
    }
}

/// No row that was not recorded after the bound is read.
pub proof fn nothing_from_before_the_bound_is_read(
    store: SharedContextStore,
    mission_id: MissionId,
    since: Timestamp,
    context: MissionContext,
    times: spec_fn(Seq<char>) -> Timestamp,
    k: int,
)
    requires
        call_ensures(
            SharedContextStore::get_mission_context,
            (&store, mission_id, Some(since)),
            Ok(context),
        ),
        forall|i: int|
            0 <= i < store.evidence@.len() ==> is_stamp(
                (#[trigger] store.evidence@[i]).created_at@,
                times(store.evidence@[i].created_at@),
            ),
        forall|i: int|
            0 <= i < store.decisions@.len() ==> is_stamp(
                (#[trigger] store.decisions@[i]).created_at@,
                times(store.decisions@[i].created_at@),
            ),
        forall|i: int|
            0 <= i < store.artifacts@.len() ==> is_stamp(
                (#[trigger] store.artifacts@[i]).created_at@,
                times(store.artifacts@[i].created_at@),
            ),
    ensures
        0 <= k < context.evidence@.len() ==> is_after(context.evidence@[k].created_at, Some(since)),
        0 <= k < context.decisions@.len() ==> is_after(context.decisions@[k].created_at, Some(since)),
        0 <= k < context.artifacts@.len() ==> is_after(context.artifacts@[k].created_at, Some(since)),
{
    let bound = since_bound(Some(since));
    let d = keys(store.decisions@);
    let a = keys(store.artifacts@);
    let e = keys(store.evidence@);
    a_reading_is_capped_ordered_and_of_the_mission(d, mission_id, bound);
    a_reading_is_capped_ordered_and_of_the_mission(a, mission_id, bound);
    a_reading_is_capped_ordered_and_of_the_mission(e, mission_id, bound);
    if 0 <= k < context.decisions@.len() {
        let i = recent(d, mission_id, bound)[k];
        assert(d[i] == store.decisions@[i].key());
        assert(store.decisions@[i].reads(context.decisions@[k]));
        let t = times(store.decisions@[i].created_at@);
        assert(is_stamp(store.decisions@[i].created_at@, t));
        assert(context.decisions@[k].created_at == t);
    }
    if 0 <= k < context.artifacts@.len() {
        let i = recent(a, mission_id, bound)[k];
        assert(a[i] == store.artifacts@[i].key());
        assert(store.artifacts@[i].reads(context.artifacts@[k]));
        let t = times(store.artifacts@[i].created_at@);
        assert(is_stamp(store.artifacts@[i].created_at@, t));
        assert(context.artifacts@[k].created_at == t);
    }
    if 0 <= k < context.evidence@.len() {
        let i = recent(e, mission_id, bound)[k];
        assert(e[i] == store.evidence@[i].key());
        assert(store.evidence@[i].reads(context.evidence@[k]));
        let t = times(store.evidence@[i].created_at@);
        assert(is_stamp(store.evidence@[i].created_at@, t));
        assert(context.evidence@[k].created_at == t);
    }
}

/// The tool's reading is the store's with each list turned round: what the one lists first the
/// other lists last; and where the one is refused the other is, with the same words.
pub proof fn the_tools_reading_is_the_stores_turned_round(
    store: SharedContextStore,
    mission_id: MissionId,
    since: Option<Timestamp>,
    oldest: Result<MissionContext, String>,
    newest: Result<MissionContext, String>,
    k: int,
)
    requires
        call_ensures(
            SharedContextStore::get_mission_context,
            (&store, mission_id, since),
            oldest,
        ),
        call_ensures(read_newest_first, (&store, mission_id, since), newest),
    ensures
        oldest is Ok <==> newest is Ok,
        (oldest matches Err(a)) ==> (oldest matches Err(a) && newest matches Err(b) && a@ == b@),
        (oldest matches Ok(o) && newest matches Ok(n)) ==> {
            let o = oldest.unwrap();
            let n = newest.unwrap();
            &&& o.mission_id@ == n.mission_id@
            &&& o.decisions@.len() == n.decisions@.len()
            &&& o.artifacts@.len() == n.artifacts@.len()
            &&& o.evidence@.len() == n.evidence@.len()
            &&& 0 <= k < n.decisions@.len() ==> {
                let a = o.decisions@[o.decisions@.len() - 1 - k];
                let b = n.decisions@[k];
                a.key@ == b.key@ && a.value@ == b.value@ && a.author@ == b.author@ && a.role == b.role
                    && a.created_at == b.created_at
            }
            &&& 0 <= k < n.artifacts@.len() ==> {
                let a = o.artifacts@[o.artifacts@.len() - 1 - k];
                let b = n.artifacts@[k];
                a.path@ == b.path@ && a.change_summary@ == b.change_summary@ && a.author@ == b.author@
                    && a.role == b.role && a.created_at == b.created_at
            }
            &&& 0 <= k < n.evidence@.len() ==> {
                let a = o.evidence@[o.evidence@.len() - 1 - k];
                let b = n.evidence@[k];
                a.command@ == b.command@ && a.result@ == b.result@ && a.exit_code == b.exit_code
                    && a.author@ == b.author@ && a.role == b.role && a.created_at == b.created_at
            }
        },
{
    match (oldest, newest) {
        (Ok(o), Ok(n)) => {
            let bound = since_bound(since);
            let d = recent(keys(store.decisions@), mission_id, bound);
            let a = recent(keys(store.artifacts@), mission_id, bound);
            let e = recent(keys(store.evidence@), mission_id, bound);
            if 0 <= k < n.decisions@.len() {
                let j = d.len() - 1 - k;
                assert(d.reverse()[k] == d[j]);
                assert(store.decisions@[d[j]].reads(o.decisions@[j]));
                assert(store.decisions@[d.reverse()[k]].reads(n.decisions@[k]));
            }
            if 0 <= k < n.artifacts@.len() {
                let j = a.len() - 1 - k;
                assert(a.reverse()[k] == a[j]);
                assert(store.artifacts@[a[j]].reads(o.artifacts@[j]));
                assert(store.artifacts@[a.reverse()[k]].reads(n.artifacts@[k]));
            }
            if 0 <= k < n.evidence@.len() {
                let j = e.len() - 1 - k;
                assert(e.reverse()[k] == e[j]);
                assert(store.evidence@[e[j]].reads(o.evidence@[j]));
                assert(store.evidence@[e.reverse()[k]].reads(n.evidence@[k]));
            }
        },
        _ => {},
    }
}

/// An old row without a role gets that of its author, unless it is a decision or its author is the
/// observer or unknown.
pub proof fn an_old_row_gets_its_authors_role(table: Table, author: &str, r: Option<String>)
    requires
        call_ensures(backfilled_role, (table, author), r),
    ensures
        table is Decisions ==> r is None,
        author@ == "zed-observer"@ || author@ == "unknown"@ ==> r is None,
        !(table is Decisions) && author@ != "zed-observer"@ && author@ != "unknown"@ ==> (r matches Some(
            role,
        ) && role@ == author@),
{
}

/// The database lies where the environment says, unless it says nothing, and otherwise where it
/// lies by default.
pub proof fn the_database_lies_where_the_environment_says(
    variable: Option<String>,
    default_path: String,
    r: String,
)
    requires
        call_ensures(db_path_from_env, (variable, default_path), r),
    ensures
        variable matches Some(path) ==> (path@.len() > 0 ==> r@ == path@),
        variable is None || (variable matches Some(path) && path@.len() == 0) ==> r@ == default_path@,
{
}

} // verus!
