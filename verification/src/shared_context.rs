//! The context that the workers of a mission share: decisions, artifacts and evidence,
//! recorded as rows and read back per mission.

use vstd::prelude::*;
use crate::mission_id::hyphenated_form;
use crate::mission_id::MissionId;
use crate::text::clone_opt;
use crate::text::less;
use crate::text::text_eq;
use crate::text::text_less;
use crate::text::text_order_is_irreflexive;
use crate::text::text_order_is_total;
use crate::text::text_order_is_transitive;
use crate::time::from_rfc3339;
use crate::time::reads_as;
use crate::time::rfc3339_instant;
use crate::time::rfc3339_text;
use crate::time::to_rfc3339;
use crate::time::utc_now;
use crate::time::Timestamp;
use crate::time::YEAR_9999_END;
use crate::time::YEAR_ZERO;

verus! {

/// The most rows of one table that a reading of a mission's context returns.
pub const MAX_CONTEXT_ROWS_PER_TABLE: usize = 50;

/// The environment variable that says where the store's database lies.
pub const DB_PATH_ENV_VAR: &'static str = "ZED_SHARED_CONTEXT_DB_PATH";

/// The author of rows that were derived from watching a thread.
pub const OBSERVER_AUTHOR: &'static str = "zed-observer";

/// The author of rows whose writer did not name itself.
pub const UNKNOWN_AUTHOR: &'static str = "unknown";

/// The bound that stands for "no lower bound": the text of the first instant of the year 0.
pub const EPOCH_SENTINEL: &'static str = "0000-01-01T00:00:00+00:00";

/// Something a worker decided. `author` says who recorded it, `role` whose work it is.
pub struct Decision {
    pub key: String,
    pub value: String,
    pub author: String,
    pub role: Option<String>,
    pub created_at: Timestamp,
}

/// A change to a file. `author` says who recorded it, `role` whose work it is.
pub struct Artifact {
    pub path: String,
    pub change_summary: String,
    pub author: String,
    pub role: Option<String>,
    pub created_at: Timestamp,
}

/// What a command gave. `author` says who recorded it, `role` whose work it is.
pub struct Evidence {
    pub command: String,
    pub result: String,
    pub exit_code: Option<i32>,
    pub author: String,
    pub role: Option<String>,
    pub created_at: Timestamp,
}

/// What the workers of one mission have recorded, as far as it was read. The order of the
/// lists is the reader's: the store lists the oldest first.
pub struct MissionContext {
    pub mission_id: String,
    pub decisions: Vec<Decision>,
    pub artifacts: Vec<Artifact>,
    pub evidence: Vec<Evidence>,
}

/// A row of the decisions table.
pub struct DecisionRow {
    pub mission_id: MissionId,
    pub key: String,
    pub value: String,
    pub author: String,
    pub role: Option<String>,
    pub created_at: String,
}

/// A row of the artifacts table.
pub struct ArtifactRow {
    pub mission_id: MissionId,
    pub path: String,
    pub change_summary: String,
    pub author: String,
    pub role: Option<String>,
    pub created_at: String,
}

/// A row of the evidence table.
pub struct EvidenceRow {
    pub mission_id: MissionId,
    pub command: String,
    pub result: String,
    pub exit_code: Option<i32>,
    pub author: String,
    pub role: Option<String>,
    pub created_at: String,
}

/// The part of a row that decides whether and where it is listed.
pub struct RowKey {
    pub mission_id: MissionId,
    pub created_at: Seq<char>,
}

/// A row of one of the tables, and what it is read as.
pub trait StoredRow: Sized {
    type Item;

    spec fn key(&self) -> RowKey;

    /// Whether `item` is what the row says.
    spec fn reads(&self, item: Self::Item) -> bool;

    /// The mission that the row belongs to.
    fn mission(&self) -> (r: MissionId)
        ensures
            r == self.key().mission_id,
    ;

    /// When the row was recorded, in RFC 3339.
    fn stamp(&self) -> (r: &str)
        ensures
            r@ == self.key().created_at,
    ;

    /// What the row says, its time being read already.
    fn read(&self, created_at: Timestamp) -> (r: Self::Item)
        requires
            reads_as(self.key().created_at, created_at),
        ensures
            self.reads(r),
    ;
}

impl StoredRow for DecisionRow {
    type Item = Decision;

    open spec fn key(&self) -> RowKey {
        RowKey { mission_id: self.mission_id, created_at: self.created_at@ }
    }

    open spec fn reads(&self, item: Decision) -> bool {
        decision_reads(*self, item)
    }

    fn mission(&self) -> (r: MissionId) {
        self.mission_id
    }

    fn stamp(&self) -> (r: &str) {
        self.created_at.as_str()
    }

    fn read(&self, created_at: Timestamp) -> (r: Decision) {
        Decision {
            key: self.key.clone(),
            value: self.value.clone(),
            author: self.author.clone(),
            role: clone_opt(&self.role),
            created_at,
        }
    }
}

impl StoredRow for ArtifactRow {
    type Item = Artifact;

    open spec fn key(&self) -> RowKey {
        RowKey { mission_id: self.mission_id, created_at: self.created_at@ }
    }

    open spec fn reads(&self, item: Artifact) -> bool {
        artifact_reads(*self, item)
    }

    fn mission(&self) -> (r: MissionId) {
        self.mission_id
    }

    fn stamp(&self) -> (r: &str) {
        self.created_at.as_str()
    }

    fn read(&self, created_at: Timestamp) -> (r: Artifact) {
        Artifact {
            path: self.path.clone(),
            change_summary: self.change_summary.clone(),
            author: self.author.clone(),
            role: clone_opt(&self.role),
            created_at,
        }
    }
}

impl StoredRow for EvidenceRow {
    type Item = Evidence;

    open spec fn key(&self) -> RowKey {
        RowKey { mission_id: self.mission_id, created_at: self.created_at@ }
    }

    open spec fn reads(&self, item: Evidence) -> bool {
        evidence_reads(*self, item)
    }

    fn mission(&self) -> (r: MissionId) {
        self.mission_id
    }

    fn stamp(&self) -> (r: &str) {
        self.created_at.as_str()
    }

    fn read(&self, created_at: Timestamp) -> (r: Evidence) {
        Evidence {
            command: self.command.clone(),
            result: self.result.clone(),
            exit_code: self.exit_code,
            author: self.author.clone(),
            role: clone_opt(&self.role),
            created_at,
        }
    }
}

/// The keys of a table, in the order of recording.
pub open spec fn keys<R: StoredRow>(rows: Seq<R>) -> Seq<RowKey> {
    rows.map_values(|r: R| r.key())
}

/// Whether a row belongs to `mission` and was recorded after `bound`.
pub open spec fn selected(key: RowKey, mission: MissionId, bound: Seq<char>) -> bool {
    key.mission_id == mission && text_less(bound, key.created_at)
}

/// Where in `order`, a listing by time, row `i` goes: behind every row that is not later.
pub open spec fn place(keys: Seq<RowKey>, order: Seq<int>, i: int) -> int
    decreases order.len(),
{
    if order.len() == 0 {
        0
    } else if text_less(keys[i].created_at, keys[order.last()].created_at) {
        place(keys, order.drop_last(), i)
    } else {
        order.len() as int
    }
}

/// The selected ones of the first `n` rows by time, rows of one time in the order of
/// recording.
pub open spec fn by_time(
    keys: Seq<RowKey>,
    mission: MissionId,
    bound: Seq<char>,
    n: int,
) -> Seq<int>
    decreases n,
{
    if n <= 0 {
        Seq::empty()
    } else {
        let earlier = by_time(keys, mission, bound, n - 1);
        if selected(keys[n - 1], mission, bound) {
            earlier.insert(place(keys, earlier, n - 1), n - 1)
        } else {
            earlier
        }
    }
}

/// The last rows of a listing, as many as one reading returns.
pub open spec fn capped(order: Seq<int>) -> Seq<int> {
    if order.len() > MAX_CONTEXT_ROWS_PER_TABLE {
        order.subrange(order.len() - MAX_CONTEXT_ROWS_PER_TABLE, order.len() as int)
    } else {
        order
    }
}

/// The rows of a table that a reading returns: the most recent ones of the mission after
/// the bound, oldest first, as positions in the table.
pub open spec fn recent(keys: Seq<RowKey>, mission: MissionId, bound: Seq<char>) -> Seq<int> {
    capped(by_time(keys, mission, bound, keys.len() as int))
}

/// The last instant of the year 9999, a leap second; later ones have texts that do not sort
/// behind it.
pub open spec fn last_bound() -> Timestamp {
    Timestamp { seconds: YEAR_9999_END, nanos: 1_999_999_999 }
}

/// The lower bound of a reading, as text. One after the year 9999 is taken for the last
/// instant of that year.
pub open spec fn since_bound(since: Option<Timestamp>) -> Seq<char> {
    match since {
        Some(t) => if t.seconds > YEAR_9999_END {
            rfc3339_text(last_bound().seconds, last_bound().nanos)
        } else {
            rfc3339_text(t.seconds, t.nanos)
        },
        None => EPOCH_SENTINEL@,
    }
}

/// Whether, with the lower bound `since`, the rows after the bound's text are those recorded
/// strictly after the instant, as far as rows of the years 0 to 9999 go; and whether a bound
/// after those years lets no row from the year 0 on through.
pub open spec fn bound_follows_time(since: Option<Timestamp>) -> bool {
    match since {
        Some(t) => {
            &&& forall|u: Timestamp|
                u.valid() && u.four_digit_year() ==> text_less(
                    since_bound(since),
                    #[trigger] rfc3339_text(u.seconds, u.nanos),
                ) == t.before(u)
            &&& t.seconds > YEAR_9999_END ==> forall|u: Timestamp|
                u.valid() && u.seconds >= YEAR_ZERO ==> !text_less(
                    since_bound(since),
                    #[trigger] rfc3339_text(u.seconds, u.nanos),
                )
        },
        None => true,
    }
}

/// The words with which the first unreadable time of a list is refused.
pub open spec fn first_refusal(stamps: Seq<Seq<char>>) -> Option<Seq<char>>
    decreases stamps.len(),
{
    if stamps.len() == 0 {
        None
    } else {
        match first_refusal(stamps.drop_last()) {
            Some(why) => Some(why),
            None => match rfc3339_instant(stamps.last()) {
                Ok(_) => None,
                Err(why) => Some(why),
            },
        }
    }
}

/// The times of the rows that a reading of one table returns.
pub open spec fn recent_stamps(
    keys: Seq<RowKey>,
    mission: MissionId,
    bound: Seq<char>,
) -> Seq<Seq<char>> {
    recent(keys, mission, bound).map_values(|i: int| keys[i].created_at)
}

/// Whether `d` is what the row says.
pub open spec fn decision_reads(row: DecisionRow, d: Decision) -> bool {
    &&& d.key == row.key
    &&& d.value == row.value
    &&& d.author == row.author
    &&& d.role == row.role
    &&& reads_as(row.created_at@, d.created_at)
}

/// Whether `a` is what the row says.
pub open spec fn artifact_reads(row: ArtifactRow, a: Artifact) -> bool {
    &&& a.path == row.path
    &&& a.change_summary == row.change_summary
    &&& a.author == row.author
    &&& a.role == row.role
    &&& reads_as(row.created_at@, a.created_at)
}

/// Whether `e` is what the row says.
pub open spec fn evidence_reads(row: EvidenceRow, e: Evidence) -> bool {
    &&& e.command == row.command
    &&& e.result == row.result
    &&& e.exit_code == row.exit_code
    &&& e.author == row.author
    &&& e.role == row.role
    &&& reads_as(row.created_at@, e.created_at)
}

/// Whether `list` holds what the rows at the positions `order` say, in that order.
pub open spec fn rows_read<R: StoredRow>(rows: Seq<R>, order: Seq<int>, list: Seq<R::Item>) -> bool {
    &&& list.len() == order.len()
    &&& forall|i: int| 0 <= i < list.len() ==> rows[order[i]].reads(#[trigger] list[i])
}

proof fn place_is_in_range(keys: Seq<RowKey>, order: Seq<int>, i: int)
    ensures
        0 <= place(keys, order, i) <= order.len(),
    decreases order.len(),
{
    if order.len() > 0 {
        place_is_in_range(keys, order.drop_last(), i);
    }
}

proof fn by_time_lists_rows(keys: Seq<RowKey>, mission: MissionId, bound: Seq<char>, n: int)
    requires
        0 <= n <= keys.len(),
    ensures
        by_time(keys, mission, bound, n).len() <= n,
        forall|j: int|
            0 <= j < by_time(keys, mission, bound, n).len() ==> 0 <= #[trigger] by_time(
                keys,
                mission,
                bound,
                n,
            )[j] < n,
    decreases n,
{
    if n > 0 {
        by_time_lists_rows(keys, mission, bound, n - 1);
        place_is_in_range(keys, by_time(keys, mission, bound, n - 1), n - 1);
    }
}

/// The positions of the rows that a reading returns.
fn recent_rows<R: StoredRow>(rows: &Vec<R>, mission: MissionId, bound: &str) -> (r: Vec<usize>)
    ensures
        r@.map_values(|i: usize| i as int) == recent(keys(rows@), mission, bound@),
        forall|j: int| 0 <= j < r@.len() ==> #[trigger] r@[j] < rows.len(),
{
    let ghost ks = keys(rows@);
    let mut order: Vec<usize> = Vec::new();
    let mut n: usize = 0;
    assert(order@.map_values(|i: usize| i as int) =~= by_time(ks, mission, bound@, 0));
    while n < rows.len()
        invariant
            n <= rows.len(),
            ks == keys(rows@),
            order@.map_values(|i: usize| i as int) == by_time(ks, mission, bound@, n as int),
            forall|j: int| 0 <= j < order@.len() ==> #[trigger] order@[j] < n,
        decreases rows.len() - n,
    {
        let ghost listed = by_time(ks, mission, bound@, n as int);
        assert(ks[n as int] == rows[n as int].key());
        if rows[n].mission() == mission && less(bound, rows[n].stamp()) {
            let mut at: usize = order.len();
            assert(listed.take(at as int) =~= listed);
            while at > 0 && less(rows[n].stamp(), rows[order[at - 1]].stamp())
                invariant
                    n < rows.len(),
                    at <= order@.len(),
                    ks == keys(rows@),
                    listed == order@.map_values(|i: usize| i as int),
                    forall|j: int| 0 <= j < order@.len() ==> #[trigger] order@[j] < n,
                    place(ks, listed, n as int) == place(ks, listed.take(at as int), n as int),
                decreases at,
            {
                proof {
                    let shorter = listed.take(at as int);
                    assert(shorter.last() == order@[at - 1] as int);
                    assert(ks[order@[at - 1] as int] == rows[order@[at - 1] as int].key());
                    assert(ks[n as int] == rows[n as int].key());
                    assert(shorter.drop_last() =~= listed.take(at - 1));
                }
                at -= 1;
            }
            proof {
                let shorter = listed.take(at as int);
                if at > 0 {
                    assert(shorter.last() == order@[at - 1] as int);
                    assert(ks[order@[at - 1] as int] == rows[order@[at - 1] as int].key());
                    assert(ks[n as int] == rows[n as int].key());
                }
                assert(place(ks, listed, n as int) == at);
            }
            order.insert(at, n);
            assert(order@.map_values(|i: usize| i as int) =~= listed.insert(at as int, n as int));
        }
        n += 1;
    }
    let total: usize = order.len();
    if total > MAX_CONTEXT_ROWS_PER_TABLE {
        let kept = order.split_off(total - MAX_CONTEXT_ROWS_PER_TABLE);
        assert(kept@.map_values(|i: usize| i as int) =~= recent(ks, mission, bound@));
        kept
    } else {
        order
    }
}

/// What a reading of one table returns, or the words with which the first unreadable time is
/// refused.
fn read_table<R: StoredRow>(
    rows: &Vec<R>,
    mission_id: MissionId,
    bound: &str,
) -> (r: Result<Vec<R::Item>, String>)
    ensures
        match r {
            Ok(list) => first_refusal(recent_stamps(keys(rows@), mission_id, bound@)) is None
                && rows_read(rows@, recent(keys(rows@), mission_id, bound@), list@),
            Err(e) => first_refusal(recent_stamps(keys(rows@), mission_id, bound@)) == Some(e@),
        },
{
    let order = recent_rows(rows, mission_id, bound);
    let ghost positions = recent(keys(rows@), mission_id, bound@);
    let ghost stamps = recent_stamps(keys(rows@), mission_id, bound@);
    let mut list: Vec<R::Item> = Vec::new();
    let mut i: usize = 0;
    while i < order.len()
        invariant
            i <= order.len(),
            list.len() == i,
            positions == order@.map_values(|i: usize| i as int),
            positions == recent(keys(rows@), mission_id, bound@),
            stamps == recent_stamps(keys(rows@), mission_id, bound@),
            forall|j: int| 0 <= j < order@.len() ==> #[trigger] order@[j] < rows.len(),
            first_refusal(stamps.take(i as int)) is None,
            forall|j: int| 0 <= j < i ==> rows@[positions[j]].reads(#[trigger] list@[j]),
        decreases order.len() - i,
    {
        let row = &rows[order[i]];
        let ghost here = stamps.take(i + 1);
        assert(here.drop_last() =~= stamps.take(i as int));
        assert(here.last() == row.key().created_at);
        match from_rfc3339(row.stamp()) {
            Ok(created_at) => {
                list.push(row.read(created_at));
            },
            Err(e) => {
                proof {
                    assert(first_refusal(here) == Some(e@));
                    refusal_of_a_prefix(stamps, i + 1);
                }
                return Err(e);
            },
        }
        i += 1;
    }
    assert(stamps.take(i as int) =~= stamps);
    Ok(list)
}

/// The lower bound of a reading, as text.
fn bound_text(since: &Option<Timestamp>) -> (r: String)
    requires
        since matches Some(t) ==> t.valid(),
    ensures
        r@ == since_bound(*since),
        bound_follows_time(*since),
{
    match since {
        Some(t) => if t.seconds > YEAR_9999_END {
            to_rfc3339(&Timestamp { seconds: YEAR_9999_END, nanos: 1_999_999_999 })
        } else {
            to_rfc3339(t)
        },
        None => EPOCH_SENTINEL.to_owned(),
    }
}

/// The three tables of recorded rows, each in the order of recording. Recording here always
/// succeeds; whoever keeps the rows in a file answers for the file.
pub struct SharedContextStore {
    pub decisions: Vec<DecisionRow>,
    pub artifacts: Vec<ArtifactRow>,
    pub evidence: Vec<EvidenceRow>,
}

/// Whether `text` is the stored form of the instant `at`.
pub open spec fn stamped(text: Seq<char>, at: Timestamp) -> bool {
    &&& text == rfc3339_text(at.seconds, at.nanos)
    &&& at.four_digit_year() ==> reads_as(text, at)
    &&& at.four_digit_year() ==> forall|u: Timestamp|
        u.valid() && u.four_digit_year() ==> text_less(
            text,
            #[trigger] rfc3339_text(u.seconds, u.nanos),
        ) == at.before(u)
    &&& at.four_digit_year() && at.seconds >= 0 ==> text_less(EPOCH_SENTINEL@, text)
}

/// Whether an instant is one that the clock can show.
pub open spec fn clock_instant(at: Timestamp) -> bool {
    at.valid() && at.seconds >= 0 && at.nanos < 1_000_000_000
}

/// The row that a decision recorded at `at` makes.
pub open spec fn is_decision_row(
    row: DecisionRow,
    mission_id: MissionId,
    key: String,
    value: String,
    author: String,
    role: Option<String>,
    at: Timestamp,
) -> bool {
    &&& row.mission_id == mission_id
    &&& row.key == key
    &&& row.value == value
    &&& row.author == author
    &&& row.role == role
    &&& stamped(row.created_at@, at)
}

/// The row that an artifact recorded at `at` makes.
pub open spec fn is_artifact_row(
    row: ArtifactRow,
    mission_id: MissionId,
    path: String,
    change_summary: String,
    author: String,
    role: Option<String>,
    at: Timestamp,
) -> bool {
    &&& row.mission_id == mission_id
    &&& row.path == path
    &&& row.change_summary == change_summary
    &&& row.author == author
    &&& row.role == role
    &&& stamped(row.created_at@, at)
}

/// The row that evidence recorded at `at` makes.
pub open spec fn is_evidence_row(
    row: EvidenceRow,
    mission_id: MissionId,
    command: String,
    result: String,
    exit_code: Option<i32>,
    author: String,
    role: Option<String>,
    at: Timestamp,
) -> bool {
    &&& row.mission_id == mission_id
    &&& row.command == command
    &&& row.result == result
    &&& row.exit_code == exit_code
    &&& row.author == author
    &&& row.role == role
    &&& stamped(row.created_at@, at)
}

/// The stored form of an instant.
fn stamp_text(at: &Timestamp) -> (r: String)
    requires
        at.valid(),
    ensures
        stamped(r@, *at),
{
    let r = to_rfc3339(at);
    proof {
        reveal_strlit("0000-01-01T00:00:00+00:00");
    }
    r
}

impl SharedContextStore {
    /// A store without rows.
    pub fn new() -> (r: Self)
        ensures
            r.decisions@ == Seq::<DecisionRow>::empty(),
            r.artifacts@ == Seq::<ArtifactRow>::empty(),
            r.evidence@ == Seq::<EvidenceRow>::empty(),
    {
        SharedContextStore { decisions: Vec::new(), artifacts: Vec::new(), evidence: Vec::new() }
    }

    /// Records a decision with the time `at`.
    pub fn record_decision_at(
        &mut self,
        at: Timestamp,
        mission_id: MissionId,
        key: String,
        value: String,
        author: String,
        role: Option<String>,
    )
        requires
            at.valid(),
        ensures
            final(self).decisions@.len() == old(self).decisions@.len() + 1,
            final(self).decisions@.drop_last() == old(self).decisions@,
            is_decision_row(final(self).decisions@.last(), mission_id, key, value, author, role, at),
            final(self).artifacts == old(self).artifacts,
            final(self).evidence == old(self).evidence,
    {
        let created_at = stamp_text(&at);
        self.decisions.push(DecisionRow { mission_id, key, value, author, role, created_at });
        assert(self.decisions@.drop_last() =~= old(self).decisions@);
    }

    /// Records a decision now.
    pub fn record_decision(
        &mut self,
        mission_id: MissionId,
        key: String,
        value: String,
        author: String,
        role: Option<String>,
    )
        ensures
            final(self).decisions@.len() == old(self).decisions@.len() + 1,
            final(self).decisions@.drop_last() == old(self).decisions@,
            exists|at: Timestamp| #[trigger]
                clock_instant(at) && is_decision_row(
                    final(self).decisions@.last(),
                    mission_id,
                    key,
                    value,
                    author,
                    role,
                    at,
                ),
            final(self).artifacts == old(self).artifacts,
            final(self).evidence == old(self).evidence,
    {
        let now = utc_now();
        self.record_decision_at(now, mission_id, key, value, author, role);
        assert(clock_instant(now));
    }

    /// Records a change to a file with the time `at`.
    pub fn record_artifact_at(
        &mut self,
        at: Timestamp,
        mission_id: MissionId,
        path: String,
        change_summary: String,
        author: String,
        role: Option<String>,
    )
        requires
            at.valid(),
        ensures
            final(self).artifacts@.len() == old(self).artifacts@.len() + 1,
            final(self).artifacts@.drop_last() == old(self).artifacts@,
            is_artifact_row(
                final(self).artifacts@.last(),
                mission_id,
                path,
                change_summary,
                author,
                role,
                at,
            ),
            final(self).decisions == old(self).decisions,
            final(self).evidence == old(self).evidence,
    {
        let created_at = stamp_text(&at);
        self.artifacts.push(ArtifactRow { mission_id, path, change_summary, author, role, created_at });
        assert(self.artifacts@.drop_last() =~= old(self).artifacts@);
    }

    /// Records a change to a file now.
    pub fn record_artifact(
        &mut self,
        mission_id: MissionId,
        path: String,
        change_summary: String,
        author: String,
        role: Option<String>,
    )
        ensures
            final(self).artifacts@.len() == old(self).artifacts@.len() + 1,
            final(self).artifacts@.drop_last() == old(self).artifacts@,
            exists|at: Timestamp| #[trigger]
                clock_instant(at) && is_artifact_row(
                    final(self).artifacts@.last(),
                    mission_id,
                    path,
                    change_summary,
                    author,
                    role,
                    at,
                ),
            final(self).decisions == old(self).decisions,
            final(self).evidence == old(self).evidence,
    {
        let now = utc_now();
        self.record_artifact_at(now, mission_id, path, change_summary, author, role);
        assert(clock_instant(now));
    }

    /// Records what a command gave with the time `at`.
    pub fn record_evidence_at(
        &mut self,
        at: Timestamp,
        mission_id: MissionId,
        command: String,
        result: String,
        exit_code: Option<i32>,
        author: String,
        role: Option<String>,
    )
        requires
            at.valid(),
        ensures
            final(self).evidence@.len() == old(self).evidence@.len() + 1,
            final(self).evidence@.drop_last() == old(self).evidence@,
            is_evidence_row(
                final(self).evidence@.last(),
                mission_id,
                command,
                result,
                exit_code,
                author,
                role,
                at,
            ),
            final(self).decisions == old(self).decisions,
            final(self).artifacts == old(self).artifacts,
    {
        let created_at = stamp_text(&at);
        self.evidence.push(
            EvidenceRow { mission_id, command, result, exit_code, author, role, created_at },
        );
        assert(self.evidence@.drop_last() =~= old(self).evidence@);
    }

    /// Records what a command gave now.
    pub fn record_evidence(
        &mut self,
        mission_id: MissionId,
        command: String,
        result: String,
        exit_code: Option<i32>,
        author: String,
        role: Option<String>,
    )
        ensures
            final(self).evidence@.len() == old(self).evidence@.len() + 1,
            final(self).evidence@.drop_last() == old(self).evidence@,
            exists|at: Timestamp| #[trigger]
                clock_instant(at) && is_evidence_row(
                    final(self).evidence@.last(),
                    mission_id,
                    command,
                    result,
                    exit_code,
                    author,
                    role,
                    at,
                ),
            final(self).decisions == old(self).decisions,
            final(self).artifacts == old(self).artifacts,
    {
        let now = utc_now();
        self.record_evidence_at(now, mission_id, command, result, exit_code, author, role);
        assert(clock_instant(now));
    }

    /// The most recent rows of each table for `mission_id`, at most
    /// `MAX_CONTEXT_ROWS_PER_TABLE` of each and oldest first, limited to those recorded
    /// strictly after `since` where it is given. Where a time among them cannot be read,
    /// the words with which the first such one is refused.
    pub fn get_mission_context(
        &self,
        mission_id: MissionId,
        since: Option<Timestamp>,
    ) -> (r: Result<
        MissionContext,
        String,
    >)
        requires
            since matches Some(t) ==> t.valid(),
        ensures
            self.context_reads(mission_id, since, r),
            bound_follows_time(since),
    {
        let bound = bound_text(&since);
        proof {
            let b = since_bound(since);
            let d = recent_stamps(keys(self.decisions@), mission_id, b);
            let a = recent_stamps(keys(self.artifacts@), mission_id, b);
            let e = recent_stamps(keys(self.evidence@), mission_id, b);
            refusal_of_a_sum(d, a);
            refusal_of_a_sum(d + a, e);
        }
        let decisions = match read_table(&self.decisions, mission_id, bound.as_str()) {
            Ok(list) => list,
            Err(e) => return Err(e),
        };
        let artifacts = match read_table(&self.artifacts, mission_id, bound.as_str()) {
            Ok(list) => list,
            Err(e) => return Err(e),
        };
        let evidence = match read_table(&self.evidence, mission_id, bound.as_str()) {
            Ok(list) => list,
            Err(e) => return Err(e),
        };
        Ok(MissionContext { mission_id: mission_id.to_key_string(), decisions, artifacts, evidence })
    }

    /// The times of all rows that a reading returns: decisions, then artifacts, then
    /// evidence.
    pub open spec fn stamps_read(
        self,
        mission_id: MissionId,
        since: Option<Timestamp>,
    ) -> Seq<Seq<char>> {
        recent_stamps(keys(self.decisions@), mission_id, since_bound(since)) + recent_stamps(
            keys(self.artifacts@),
            mission_id,
            since_bound(since),
        ) + recent_stamps(keys(self.evidence@), mission_id, since_bound(since))
    }

    /// Whether `r` is what reading the context of `mission_id` after `since` gives.
    pub open spec fn context_reads(
        self,
        mission_id: MissionId,
        since: Option<Timestamp>,
        r: Result<MissionContext, String>,
    ) -> bool {
        match first_refusal(self.stamps_read(mission_id, since)) {
            Some(why) => r matches Err(e) && e@ == why,
            None => r matches Ok(context) && self.context_is(mission_id, since, context),
        }
    }

    /// Whether `context` holds the recent rows of `mission_id` after `since`.
    pub open spec fn context_is(
        self,
        mission_id: MissionId,
        since: Option<Timestamp>,
        context: MissionContext,
    ) -> bool {
        let bound = since_bound(since);
        &&& context.mission_id@ == hyphenated_form(mission_id.value)
        &&& rows_read(
            self.decisions@,
            recent(keys(self.decisions@), mission_id, bound),
            context.decisions@,
        )
        &&& rows_read(
            self.artifacts@,
            recent(keys(self.artifacts@), mission_id, bound),
            context.artifacts@,
        )
        &&& rows_read(
            self.evidence@,
            recent(keys(self.evidence@), mission_id, bound),
            context.evidence@,
        )
    }
}

proof fn refusal_of_a_prefix(stamps: Seq<Seq<char>>, n: int)
    requires
        0 <= n <= stamps.len(),
        first_refusal(stamps.take(n)) is Some,
    ensures
        first_refusal(stamps) == first_refusal(stamps.take(n)),
    decreases stamps.len() - n,
{
    if n < stamps.len() {
        assert(stamps.take(n + 1).drop_last() =~= stamps.take(n));
        refusal_of_a_prefix(stamps, n + 1);
    } else {
        assert(stamps.take(n) =~= stamps);
    }
}

proof fn refusal_of_a_sum(a: Seq<Seq<char>>, b: Seq<Seq<char>>)
    ensures
        first_refusal(a + b) == match first_refusal(a) {
            Some(why) => Some(why),
            None => first_refusal(b),
        },
    decreases b.len(),
{
    if b.len() == 0 {
        assert(a + b =~= a);
    } else {
        refusal_of_a_sum(a, b.drop_last());
        assert((a + b).drop_last() =~= a + b.drop_last());
        assert((a + b).last() == b.last());
    }
}

/// One of the tables.
#[derive(Clone, Copy, Debug, PartialEq, Eq, Structural)]
pub enum Table {
    Decisions,
    Artifacts,
    Evidence,
}

/// The role that a row recorded before roles existed is given. Decisions were only ever
/// recorded by agents under a name of their own, which is no role, so they get none. An
/// artifact or a piece of evidence gets its author's name, unless the author is nobody in
/// particular.
pub fn backfilled_role(table: Table, author: &str) -> (r: Option<String>)
    ensures
        r is None <==> (table == Table::Decisions || author@ == OBSERVER_AUTHOR@ || author@
            == UNKNOWN_AUTHOR@),
        r matches Some(role) ==> role@ == author@,
{
    if table == Table::Decisions || text_eq(author, OBSERVER_AUTHOR) || text_eq(
        author,
        UNKNOWN_AUTHOR,
    ) {
        None
    } else {
        Some(author.to_owned())
    }
}

/// Where the store's database lies: at the path that the environment gives, unless it is
/// unset or empty, and at the default path otherwise.
pub fn db_path_from_env(variable: Option<String>, default_db_path: String) -> (r: String)
    ensures
        r@ == match variable {
            Some(path) => if path@.len() > 0 {
                path@
            } else {
                default_db_path@
            },
            None => default_db_path@,
        },
{
    match variable {
        Some(path) => if path.as_str().is_empty() {
            default_db_path
        } else {
            path
        },
        None => default_db_path,
    }
}

/// Whether row `i` is listed before row `j`: it is earlier, or of the same time and
/// recorded before.
pub open spec fn listed_before(keys: Seq<RowKey>, i: int, j: int) -> bool {
    ||| text_less(keys[i].created_at, keys[j].created_at)
    ||| keys[i].created_at == keys[j].created_at && i < j
}

/// Whether `order` is a listing by time without repetition.
pub open spec fn ordered(keys: Seq<RowKey>, order: Seq<int>) -> bool {
    forall|a: int, b: int|
        0 <= a < b < order.len() ==> listed_before(keys, #[trigger] order[a], #[trigger] order[b])
}

proof fn listed_before_is_transitive(keys: Seq<RowKey>, i: int, j: int, k: int)
    requires
        listed_before(keys, i, j),
        listed_before(keys, j, k),
    ensures
        listed_before(keys, i, k),
{
    let x = keys[i].created_at;
    let y = keys[j].created_at;
    let z = keys[k].created_at;
    if text_less(x, y) && text_less(y, z) {
        text_order_is_transitive(x, y, z);
    }
}

proof fn place_separates(keys: Seq<RowKey>, order: Seq<int>, i: int)
    requires
        ordered(keys, order),
        forall|a: int| 0 <= a < order.len() ==> #[trigger] order[a] < i,
    ensures
        0 <= place(keys, order, i) <= order.len(),
        forall|a: int|
            0 <= a < place(keys, order, i) ==> listed_before(keys, #[trigger] order[a], i),
        forall|a: int|
            place(keys, order, i) <= a < order.len() ==> listed_before(keys, i, #[trigger] order[a]),
    decreases order.len(),
{
    if order.len() > 0 {
        let last = order.last();
        let rest = order.drop_last();
        if text_less(keys[i].created_at, keys[last].created_at) {
            assert(forall|a: int| 0 <= a < rest.len() ==> rest[a] == order[a]);
            place_separates(keys, rest, i);
            assert forall|a: int| place(keys, order, i) <= a < order.len() implies listed_before(
                keys,
                i,
                #[trigger] order[a],
            ) by {
                if a < rest.len() {
                    assert(rest[a] == order[a]);
                }
            }
            assert forall|a: int| 0 <= a < place(keys, order, i) implies listed_before(
                keys,
                #[trigger] order[a],
                i,
            ) by {
                assert(rest[a] == order[a]);
            }
        } else {
            text_order_is_total(keys[i].created_at, keys[last].created_at);
            assert forall|a: int| 0 <= a < order.len() implies listed_before(
                keys,
                #[trigger] order[a],
                i,
            ) by {
                assert(listed_before(keys, last, i));
                if a < order.len() - 1 {
                    assert(listed_before(keys, order[a], order[order.len() - 1]));
                    listed_before_is_transitive(keys, order[a], last, i);
                }
            }
        }
    }
}

/// A listing holds each selected row once and no other, in the order of time, and rows of
/// one time in the order of recording.
pub proof fn a_listing_is_ordered_and_complete(
    keys: Seq<RowKey>,
    mission: MissionId,
    bound: Seq<char>,
    n: int,
)
    requires
        0 <= n <= keys.len(),
    ensures
        ordered(keys, by_time(keys, mission, bound, n)),
        by_time(keys, mission, bound, n).no_duplicates(),
        forall|i: int|
            #[trigger] by_time(keys, mission, bound, n).contains(i) <==> 0 <= i < n && selected(
                keys[i],
                mission,
                bound,
            ),
    decreases n,
{
    let order = by_time(keys, mission, bound, n);
    if n > 0 {
        let earlier = by_time(keys, mission, bound, n - 1);
        a_listing_is_ordered_and_complete(keys, mission, bound, n - 1);
        by_time_lists_rows(keys, mission, bound, n - 1);
        if selected(keys[n - 1], mission, bound) {
            let p = place(keys, earlier, n - 1);
            place_separates(keys, earlier, n - 1);
            assert forall|a: int, b: int| 0 <= a < b < order.len() implies listed_before(
                keys,
                #[trigger] order[a],
                #[trigger] order[b],
            ) by {
                if a < p {
                    assert(order[a] == earlier[a]);
                } else if a > p {
                    assert(order[a] == earlier[a - 1]);
                }
                if b < p {
                    assert(order[b] == earlier[b]);
                } else if b > p {
                    assert(order[b] == earlier[b - 1]);
                }
            }
            assert forall|i: int| #[trigger] order.contains(i) <==> 0 <= i < n && selected(
                keys[i],
                mission,
                bound,
            ) by {
                if order.contains(i) {
                    let a = choose|a: int| 0 <= a < order.len() && order[a] == i;
                    if a < p {
                        assert(earlier[a] == i);
                        assert(earlier.contains(i));
                    } else if a > p {
                        assert(earlier[a - 1] == i);
                        assert(earlier.contains(i));
                    }
                }
                if 0 <= i < n && selected(keys[i], mission, bound) {
                    if i == n - 1 {
                        assert(order[p] == i);
                    } else {
                        assert(earlier.contains(i));
                        let a = choose|a: int| 0 <= a < earlier.len() && earlier[a] == i;
                        if a < p {
                            assert(order[a] == i);
                        } else {
                            assert(order[a + 1] == i);
                        }
                    }
                }
            }
        } else {
            assert forall|i: int| #[trigger] order.contains(i) <==> 0 <= i < n && selected(
                keys[i],
                mission,
                bound,
            ) by {
                assert(earlier.contains(i) <==> 0 <= i < n - 1 && selected(keys[i], mission, bound));
            }
        }
    }
    assert forall|a: int, b: int| 0 <= a < order.len() && 0 <= b < order.len() && a != b implies order[a]
        != order[b] by {
        if a < b {
            assert(listed_before(keys, order[a], order[b]));
            text_order_is_irreflexive(keys[order[a]].created_at);
        } else {
            assert(listed_before(keys, order[b], order[a]));
            text_order_is_irreflexive(keys[order[a]].created_at);
        }
    }
}

/// A reading returns at most `MAX_CONTEXT_ROWS_PER_TABLE` rows of a table, oldest first,
/// each once, all of the mission and recorded after the bound: no row of another mission
/// comes along.
pub proof fn a_reading_is_capped_ordered_and_of_the_mission(
    keys: Seq<RowKey>,
    mission: MissionId,
    bound: Seq<char>,
)
    ensures
        recent(keys, mission, bound).len() <= MAX_CONTEXT_ROWS_PER_TABLE,
        ordered(keys, recent(keys, mission, bound)),
        recent(keys, mission, bound).no_duplicates(),
        forall|a: int|
            0 <= a < recent(keys, mission, bound).len() ==> {
                let i = #[trigger] recent(keys, mission, bound)[a];
                0 <= i < keys.len() && selected(keys[i], mission, bound)
            },
{
    let n = keys.len() as int;
    let order = by_time(keys, mission, bound, n);
    a_listing_is_ordered_and_complete(keys, mission, bound, n);
    let r = recent(keys, mission, bound);
    let d = order.len() - r.len();
    assert forall|a: int| 0 <= a < r.len() implies {
        let i = #[trigger] r[a];
        0 <= i < keys.len() && selected(keys[i], mission, bound)
    } by {
        assert(r[a] == order[a + d]);
        assert(order.contains(r[a]));
    }
    assert forall|a: int, b: int| 0 <= a < b < r.len() implies listed_before(
        keys,
        #[trigger] r[a],
        #[trigger] r[b],
    ) by {
        assert(r[a] == order[a + d] && r[b] == order[b + d]);
    }
}

/// What a reading leaves out is older than all that it returns, and it leaves something
/// out only where it is full.
pub proof fn a_reading_holds_the_most_recent_rows(
    keys: Seq<RowKey>,
    mission: MissionId,
    bound: Seq<char>,
    i: int,
)
    requires
        0 <= i < keys.len(),
        selected(keys[i], mission, bound),
        !recent(keys, mission, bound).contains(i),
    ensures
        recent(keys, mission, bound).len() == MAX_CONTEXT_ROWS_PER_TABLE,
        forall|a: int|
            0 <= a < recent(keys, mission, bound).len() ==> listed_before(
                keys,
                i,
                #[trigger] recent(keys, mission, bound)[a],
            ),
{
    let n = keys.len() as int;
    let order = by_time(keys, mission, bound, n);
    a_listing_is_ordered_and_complete(keys, mission, bound, n);
    let r = recent(keys, mission, bound);
    let d = order.len() - r.len();
    assert(order.contains(i));
    let p = choose|p: int| 0 <= p < order.len() && order[p] == i;
    if p >= d {
        assert(r[p - d] == i);
    }
    assert forall|a: int| 0 <= a < r.len() implies listed_before(keys, i, #[trigger] r[a]) by {
        assert(r[a] == order[a + d]);
        assert(listed_before(keys, order[p], order[a + d]));
    }
}

proof fn place_ignores_later_rows(keys: Seq<RowKey>, more: Seq<RowKey>, order: Seq<int>, i: int)
    requires
        keys.len() <= more.len(),
        forall|k: int| 0 <= k < keys.len() ==> keys[k] == #[trigger] more[k],
        0 <= i < keys.len(),
        forall|a: int| 0 <= a < order.len() ==> 0 <= #[trigger] order[a] < keys.len(),
    ensures
        place(keys, order, i) == place(more, order, i),
    decreases order.len(),
{
    if order.len() > 0 {
        assert(0 <= order[order.len() - 1] < keys.len());
        assert(more[i] == keys[i] && more[order.last()] == keys[order.last()]);
        place_ignores_later_rows(keys, more, order.drop_last(), i);
    }
}

proof fn by_time_ignores_later_rows(
    keys: Seq<RowKey>,
    more: Seq<RowKey>,
    mission: MissionId,
    bound: Seq<char>,
    n: int,
)
    requires
        0 <= n <= keys.len() <= more.len(),
        forall|k: int| 0 <= k < keys.len() ==> keys[k] == #[trigger] more[k],
    ensures
        by_time(keys, mission, bound, n) == by_time(more, mission, bound, n),
    decreases n,
{
    if n > 0 {
        by_time_ignores_later_rows(keys, more, mission, bound, n - 1);
        by_time_lists_rows(keys, mission, bound, n - 1);
        assert(more[n - 1] == keys[n - 1]);
        place_ignores_later_rows(keys, more, by_time(keys, mission, bound, n - 1), n - 1);
    }
}

/// Recording a row for another mission, or one not after the bound, changes nothing in a
/// reading of this mission.
pub proof fn other_rows_do_not_show(
    keys: Seq<RowKey>,
    row: RowKey,
    mission: MissionId,
    bound: Seq<char>,
)
    requires
        !selected(row, mission, bound),
    ensures
        recent(keys.push(row), mission, bound) == recent(keys, mission, bound),
{
    by_time_ignores_later_rows(keys, keys.push(row), mission, bound, keys.len() as int);
}

/// A row recorded for a mission is the last of the mission's next reading, unless a row of
/// the mission carries a later time.
pub proof fn a_recorded_row_is_read_last(
    keys: Seq<RowKey>,
    row: RowKey,
    mission: MissionId,
    bound: Seq<char>,
)
    requires
        selected(row, mission, bound),
        forall|i: int|
            0 <= i < keys.len() && #[trigger] selected(keys[i], mission, bound) ==> !text_less(
                row.created_at,
                keys[i].created_at,
            ),
    ensures
        recent(keys.push(row), mission, bound).len() > 0,
        recent(keys.push(row), mission, bound).last() == keys.len(),
{
    let more = keys.push(row);
    let n = keys.len() as int;
    by_time_ignores_later_rows(keys, more, mission, bound, n);
    let earlier = by_time(more, mission, bound, n);
    a_listing_is_ordered_and_complete(more, mission, bound, n);
    assert(more[n] == row);
    if earlier.len() > 0 {
        let i = earlier.last();
        assert(earlier.contains(i));
        assert(selected(keys[i], mission, bound));
    }
    let order = by_time(more, mission, bound, n + 1);
    assert(order == earlier.insert(earlier.len() as int, n));
    assert(order.last() == n);
}

/// The selected ones of the first `n` rows, in the order of recording.
pub open spec fn as_recorded(
    keys: Seq<RowKey>,
    mission: MissionId,
    bound: Seq<char>,
    n: int,
) -> Seq<int>
    decreases n,
{
    if n <= 0 {
        Seq::empty()
    } else if selected(keys[n - 1], mission, bound) {
        as_recorded(keys, mission, bound, n - 1).push(n - 1)
    } else {
        as_recorded(keys, mission, bound, n - 1)
    }
}

/// Rows that were recorded one after the other come back in the order of recording; of too
/// many, the last ones.
pub proof fn rows_come_back_as_recorded(keys: Seq<RowKey>, mission: MissionId, bound: Seq<char>)
    requires
        forall|i: int, j: int|
            0 <= i < j < keys.len() && selected(keys[i], mission, bound) && selected(
                keys[j],
                mission,
                bound,
            ) ==> !text_less((#[trigger] keys[j]).created_at, (#[trigger] keys[i]).created_at),
    ensures
        recent(keys, mission, bound) == capped(
            as_recorded(keys, mission, bound, keys.len() as int),
        ),
{
    by_time_keeps_the_order(keys, mission, bound, keys.len() as int);
}

proof fn by_time_keeps_the_order(keys: Seq<RowKey>, mission: MissionId, bound: Seq<char>, n: int)
    requires
        0 <= n <= keys.len(),
        forall|i: int, j: int|
            0 <= i < j < keys.len() && selected(keys[i], mission, bound) && selected(
                keys[j],
                mission,
                bound,
            ) ==> !text_less((#[trigger] keys[j]).created_at, (#[trigger] keys[i]).created_at),
    ensures
        by_time(keys, mission, bound, n) == as_recorded(keys, mission, bound, n),
    decreases n,
{
    if n > 0 {
        by_time_keeps_the_order(keys, mission, bound, n - 1);
        a_listing_is_ordered_and_complete(keys, mission, bound, n - 1);
        let earlier = by_time(keys, mission, bound, n - 1);
        if selected(keys[n - 1], mission, bound) {
            if earlier.len() > 0 {
                assert(earlier.contains(earlier.last()));
            }
            assert(earlier.insert(earlier.len() as int, n - 1) =~= earlier.push(n - 1));
        }
    }
}

/// Whether every time in a table can be read.
pub open spec fn all_readable(keys: Seq<RowKey>) -> bool {
    forall|i: int| 0 <= i < keys.len() ==> rfc3339_instant(#[trigger] keys[i].created_at) is Ok
}

proof fn readable_rows_are_not_refused(keys: Seq<RowKey>, mission: MissionId, bound: Seq<char>)
    requires
        all_readable(keys),
    ensures
        first_refusal(recent_stamps(keys, mission, bound)) is None,
{
    a_reading_is_capped_ordered_and_of_the_mission(keys, mission, bound);
    let stamps = recent_stamps(keys, mission, bound);
    assert forall|a: int| 0 <= a < stamps.len() implies rfc3339_instant(#[trigger] stamps[a]) is Ok by {
        let i = recent(keys, mission, bound)[a];
        assert(0 <= i < keys.len());
        assert(stamps[a] == keys[i].created_at);
    }
    no_refusal(stamps);
}

proof fn no_refusal(stamps: Seq<Seq<char>>)
    requires
        forall|a: int| 0 <= a < stamps.len() ==> rfc3339_instant(#[trigger] stamps[a]) is Ok,
    ensures
        first_refusal(stamps) is None,
    decreases stamps.len(),
{
    if stamps.len() > 0 {
        let rest = stamps.drop_last();
        assert forall|a: int| 0 <= a < rest.len() implies rfc3339_instant(#[trigger] rest[a]) is Ok by {
            assert(rest[a] == stamps[a]);
        }
        assert(rfc3339_instant(stamps[stamps.len() - 1]) is Ok);
        no_refusal(rest);
    }
}

/// Where every stored time can be read, a reading succeeds.
pub proof fn a_readable_store_is_read(
    store: SharedContextStore,
    mission: MissionId,
    since: Option<Timestamp>,
    r: Result<MissionContext, String>,
)
    requires
        all_readable(keys(store.decisions@)),
        all_readable(keys(store.artifacts@)),
        all_readable(keys(store.evidence@)),
        store.context_reads(mission, since, r),
    ensures
        r matches Ok(context) && store.context_is(mission, since, context),
{
    let b = since_bound(since);
    let d = recent_stamps(keys(store.decisions@), mission, b);
    let a = recent_stamps(keys(store.artifacts@), mission, b);
    let e = recent_stamps(keys(store.evidence@), mission, b);
    readable_rows_are_not_refused(keys(store.decisions@), mission, b);
    readable_rows_are_not_refused(keys(store.artifacts@), mission, b);
    readable_rows_are_not_refused(keys(store.evidence@), mission, b);
    refusal_of_a_sum(d, a);
    refusal_of_a_sum(d + a, e);
}

/// Whether no row of `mission` in the table carries a time after `at`'s text.
pub open spec fn none_later(keys: Seq<RowKey>, mission: MissionId, text: Seq<char>) -> bool {
    forall|i: int|
        0 <= i < keys.len() && (#[trigger] keys[i]).mission_id == mission ==> !text_less(
            text,
            keys[i].created_at,
        )
}

/// A decision that was just recorded is the last decision of the mission's next reading,
/// with its key, value, author, role and time as they were recorded.
pub proof fn a_recorded_decision_is_read_back(
    before: SharedContextStore,
    after: SharedContextStore,
    mission_id: MissionId,
    key: String,
    value: String,
    author: String,
    role: Option<String>,
    at: Timestamp,
    context: MissionContext,
)
    requires
        at.four_digit_year(),
        at.seconds >= 0,
        after.decisions@.len() > 0,
        after.decisions@.drop_last() == before.decisions@,
        is_decision_row(after.decisions@.last(), mission_id, key, value, author, role, at),
        none_later(keys(before.decisions@), mission_id, after.decisions@.last().created_at@),
        after.context_is(mission_id, None, context),
    ensures
        context.decisions@.len() > 0,
        context.decisions@.last().key == key,
        context.decisions@.last().value == value,
        context.decisions@.last().author == author,
        context.decisions@.last().role == role,
        context.decisions@.last().created_at == at,
{
    let row = after.decisions@.last();
    assert(keys(after.decisions@) =~= keys(before.decisions@).push(row.key()));
    a_recorded_row_is_read_last(keys(before.decisions@), row.key(), mission_id, EPOCH_SENTINEL@);
    let last = context.decisions@.len() - 1;
    assert(decision_reads(row, context.decisions@[last]));
}

/// An artifact that was just recorded is the last artifact of the mission's next reading,
/// with its path, summary, author, role and time as they were recorded.
pub proof fn a_recorded_artifact_is_read_back(
    before: SharedContextStore,
    after: SharedContextStore,
    mission_id: MissionId,
    path: String,
    change_summary: String,
    author: String,
    role: Option<String>,
    at: Timestamp,
    context: MissionContext,
)
    requires
        at.four_digit_year(),
        at.seconds >= 0,
        after.artifacts@.len() > 0,
        after.artifacts@.drop_last() == before.artifacts@,
        is_artifact_row(
            after.artifacts@.last(),
            mission_id,
            path,
            change_summary,
            author,
            role,
            at,
        ),
        none_later(keys(before.artifacts@), mission_id, after.artifacts@.last().created_at@),
        after.context_is(mission_id, None, context),
    ensures
        context.artifacts@.len() > 0,
        context.artifacts@.last().path == path,
        context.artifacts@.last().change_summary == change_summary,
        context.artifacts@.last().author == author,
        context.artifacts@.last().role == role,
        context.artifacts@.last().created_at == at,
{
    let row = after.artifacts@.last();
    assert(keys(after.artifacts@) =~= keys(before.artifacts@).push(row.key()));
    a_recorded_row_is_read_last(keys(before.artifacts@), row.key(), mission_id, EPOCH_SENTINEL@);
    let last = context.artifacts@.len() - 1;
    assert(artifact_reads(row, context.artifacts@[last]));
}

/// Evidence that was just recorded is the last evidence of the mission's next reading, with
/// its command, result, exit code, author, role and time as they were recorded.
pub proof fn recorded_evidence_is_read_back(
    before: SharedContextStore,
    after: SharedContextStore,
    mission_id: MissionId,
    command: String,
    result: String,
    exit_code: Option<i32>,
    author: String,
    role: Option<String>,
    at: Timestamp,
    context: MissionContext,
)
    requires
        at.four_digit_year(),
        at.seconds >= 0,
        after.evidence@.len() > 0,
        after.evidence@.drop_last() == before.evidence@,
        is_evidence_row(
            after.evidence@.last(),
            mission_id,
            command,
            result,
            exit_code,
            author,
            role,
            at,
        ),
        none_later(keys(before.evidence@), mission_id, after.evidence@.last().created_at@),
        after.context_is(mission_id, None, context),
    ensures
        context.evidence@.len() > 0,
        context.evidence@.last().command == command,
        context.evidence@.last().result == result,
        context.evidence@.last().exit_code == exit_code,
        context.evidence@.last().author == author,
        context.evidence@.last().role == role,
        context.evidence@.last().created_at == at,
{
    let row = after.evidence@.last();
    assert(keys(after.evidence@) =~= keys(before.evidence@).push(row.key()));
    a_recorded_row_is_read_last(keys(before.evidence@), row.key(), mission_id, EPOCH_SENTINEL@);
    let last = context.evidence@.len() - 1;
    assert(evidence_reads(row, context.evidence@[last]));
}

/// With a bound, a row of the mission is selected exactly where it was recorded strictly after
/// the bound's instant.
pub proof fn rows_after_the_bound_are_selected(
    key: RowKey,
    mission: MissionId,
    since: Timestamp,
    recorded_at: Timestamp,
)
    requires
        bound_follows_time(Some(since)),
        recorded_at.valid(),
        recorded_at.four_digit_year(),
        stamped(key.created_at, recorded_at),
    ensures
        selected(key, mission, since_bound(Some(since))) <==> key.mission_id == mission
            && since.before(recorded_at),
{
}

/// Without a bound, every row of the mission that the clock has stamped is selected.
pub proof fn without_a_bound_every_row_is_selected(
    key: RowKey,
    mission: MissionId,
    recorded_at: Timestamp,
)
    requires
        recorded_at.four_digit_year(),
        recorded_at.seconds >= 0,
        stamped(key.created_at, recorded_at),
    ensures
        selected(key, mission, since_bound(None)) <==> key.mission_id == mission,
{
}

/// A bound after the year 9999 lets no row through: none was recorded after it.
pub proof fn a_bound_beyond_the_rows_lets_none_through(
    keys: Seq<RowKey>,
    times: Seq<Timestamp>,
    mission: MissionId,
    since: Timestamp,
)
    requires
        bound_follows_time(Some(since)),
        since.seconds > YEAR_9999_END,
        times.len() == keys.len(),
        forall|i: int|
            0 <= i < keys.len() ==> (#[trigger] times[i]).valid() && times[i].seconds >= YEAR_ZERO
                && stamped(keys[i].created_at, times[i]),
    ensures
        recent(keys, mission, since_bound(Some(since))).len() == 0,
{
    let bound = since_bound(Some(since));
    a_reading_is_capped_ordered_and_of_the_mission(keys, mission, bound);
    let order = recent(keys, mission, bound);
    if order.len() > 0 {
        let i = order[0];
        assert(selected(keys[i], mission, bound));
        assert(times[i].valid());
    }
}

/// A reading is oldest first in time: no row that it lists was recorded before one that it
/// lists earlier.
pub proof fn a_reading_is_oldest_first_in_time(
    keys: Seq<RowKey>,
    times: Seq<Timestamp>,
    mission: MissionId,
    bound: Seq<char>,
)
    requires
        times.len() == keys.len(),
        forall|i: int|
            0 <= i < keys.len() ==> (#[trigger] times[i]).valid() && times[i].four_digit_year()
                && stamped(keys[i].created_at, times[i]),
    ensures
        forall|a: int, b: int|
            0 <= a < b < recent(keys, mission, bound).len() ==> !times[#[trigger] recent(
                keys,
                mission,
                bound,
            )[b]].before(times[#[trigger] recent(keys, mission, bound)[a]]),
{
    a_reading_is_capped_ordered_and_of_the_mission(keys, mission, bound);
    let order = recent(keys, mission, bound);
    assert forall|a: int, b: int| 0 <= a < b < order.len() implies !times[#[trigger] order[b]].before(
        times[#[trigger] order[a]],
    ) by {
        let i = order[a];
        let j = order[b];
        assert(listed_before(keys, i, j));
        assert(times[i].valid() && times[j].valid());
        let x = keys[i].created_at;
        let y = keys[j].created_at;
        assert(text_less(x, y) == times[i].before(times[j]));
        assert(text_less(y, x) == times[j].before(times[i]));
        if x == y {
            text_order_is_irreflexive(x);
        }
    }
}

} // verus!
