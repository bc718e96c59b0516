//! Laws about creating missions: the registration of the server, the prompt, the workers that
//! are chosen, and the dialog.

use vstd::prelude::*;
use crate::laws::lists::filter_from_the_end;
use crate::laws::lists::what_a_filter_keeps;
use crate::laws::texts::a_text_has_its_parts;
use crate::laws::texts::blank;
use crate::laws::texts::is_bare;
use crate::laws::texts::trimming_cuts_the_white_space_at_the_ends;
use crate::laws::texts::white_space_around_a_text_does_not_matter;
use crate::mission_id::hyphenated_form;
use crate::mission_id::MissionId;
use crate::mission_orchestrator::add_worker_to_mission;
use crate::mission_orchestrator::aggregate_mission_state;
use crate::mission_orchestrator::chosen;
use crate::mission_orchestrator::clashes;
use crate::mission_orchestrator::duplicate_role;
use crate::mission_orchestrator::ensure_shared_context_server;
use crate::mission_orchestrator::first_clash;
use crate::mission_orchestrator::mission_prompt;
use crate::mission_orchestrator::normalized;
use crate::mission_orchestrator::normalized_role;
use crate::mission_orchestrator::normalized_roles;
use crate::mission_orchestrator::prompt_text;
use crate::mission_orchestrator::register_shared_context_server;
use crate::mission_orchestrator::selected_thread_specs;
use crate::mission_orchestrator::server_index;
use crate::mission_orchestrator::shared_context_server_path;
use crate::mission_orchestrator::show_create_mission_modal;
use crate::mission_orchestrator::spec_views;
use crate::mission_orchestrator::taken_roles;
use crate::mission_orchestrator::used_roles;
use crate::mission_orchestrator::worker_requests;
use crate::mission_orchestrator::Agent;
use crate::mission_orchestrator::Candidate;
use crate::mission_orchestrator::ContextServerSettings;
use crate::mission_orchestrator::ExternalAgent;
use crate::mission_orchestrator::MissionAgentEntry;
use crate::mission_orchestrator::MissionOrchestratorModal;
use crate::mission_orchestrator::MissionPlan;
use crate::mission_orchestrator::MissionState;
use crate::mission_orchestrator::MissionThreadSpec;
use crate::mission_orchestrator::MissionThreadState;
use crate::mission_orchestrator::OrchestratorModalView;
use crate::mission_orchestrator::PathParts;
use crate::mission_orchestrator::ProjectSettings;
use crate::mission_orchestrator::Registration;
use crate::mission_orchestrator::SettingsOutcome;
use crate::mission_orchestrator::SpecView;
use crate::mission_orchestrator::WorkerRequest;
use crate::text::ascii_lower;
use crate::text::has_part;
use crate::text::has_prefix;
use crate::text::is_ascii_text;
use crate::text::trimmed;
use crate::thread::Mission;
use crate::thread::ThreadMetadata;

verus! {

/// The state of a mission is decided by the most pressing of its threads: a failed one, then one
/// that waits, then one that runs, then one that has not started; it is completed where every
/// thread is, and not started where there is none.
pub proof fn the_most_pressing_thread_decides(states: &[MissionThreadState], r: MissionState)
    requires
        call_ensures(aggregate_mission_state, (states,), r),
    ensures
        r is Failed <==> states@.contains(MissionThreadState::Failed),
        r is Waiting <==> !states@.contains(MissionThreadState::Failed) && states@.contains(
            MissionThreadState::Waiting,
        ),
        r is Running <==> !states@.contains(MissionThreadState::Failed) && !states@.contains(
            MissionThreadState::Waiting,
        ) && states@.contains(MissionThreadState::Running),
        r is Completed <==> states@.len() > 0 && forall|i: int|
            0 <= i < states@.len() ==> #[trigger] states@[i] is Completed,
{
    if states@.len() > 0 {
        assert(states@.contains(states@[0]));
    }
    if r is Completed {
        assert forall|i: int| 0 <= i < states@.len() implies #[trigger] states@[i] is Completed by {
            assert(states@.contains(states@[i]));
        }
    }
}

/// Whether the first entry for the server of shared context stands at `i`.
pub open spec fn server_stands_at(servers: Seq<(String, ContextServerSettings)>, i: int) -> bool {
    &&& 0 <= i < servers.len()
    &&& servers[i].0@ == "shared-context"@
    &&& forall|j: int| 0 <= j < i ==> (#[trigger] servers[j]).0@ != "shared-context"@
}

/// Whether the settings have no entry for the server of shared context.
pub open spec fn has_no_server(servers: Seq<(String, ContextServerSettings)>) -> bool {
    forall|j: int| 0 <= j < servers.len() ==> (#[trigger] servers[j]).0@ != "shared-context"@
}

proof fn the_server_is_found(servers: Seq<(String, ContextServerSettings)>, i: int)
    ensures
        server_stands_at(servers, i) ==> server_index(servers) == i,
        has_no_server(servers) ==> server_index(servers) == servers.len(),
    decreases servers.len(),
{
    if servers.len() > 0 {
        let rest = servers.subrange(1, servers.len() as int);
        the_server_is_found(rest, i - 1);
        assert(forall|j: int| 0 <= j < rest.len() ==> #[trigger] rest[j] == servers[j + 1]);
        if server_stands_at(servers, i) && i > 0 {
            assert(servers[0].0@ != "shared-context"@);
            assert forall|j: int| 0 <= j < i - 1 implies (#[trigger] rest[j]).0@
                != "shared-context"@ by {
                assert(servers[j + 1].0@ != "shared-context"@);
            }
            assert(server_stands_at(rest, i - 1));
        }
        if has_no_server(servers) {
            assert(servers[0].0@ != "shared-context"@);
            assert forall|j: int| 0 <= j < rest.len() implies (#[trigger] rest[j]).0@
                != "shared-context"@ by {
                assert(servers[j + 1].0@ != "shared-context"@);
            }
        }
    }
}

/// Whether two paths are one: in their text, their components, the name of their file, and in
/// whether they start at a root.
pub open spec fn is_the_path(a: PathParts, b: PathParts) -> bool {
    &&& a.text@ == b.text@
    &&& a.components@ == b.components@
    &&& a.file_name == b.file_name
    &&& a.absolute == b.absolute
}

/// Whether an entry starts the server at a path, on a database, and says nothing else.
pub open spec fn starts_the_server(
    entry: ContextServerSettings,
    server_path: PathParts,
    db_path: Seq<char>,
) -> bool {
    match entry {
        ContextServerSettings::Stdio { enabled, remote, command } => {
            &&& enabled
            &&& !remote
            &&& is_the_path(command.path, server_path)
            &&& command.args@.len() == 0
            &&& command.timeout is None
            &&& match command.env {
                Some(pairs) => pairs@.len() == 1 && pairs@[0].0@ == "ZED_SHARED_CONTEXT_DB_PATH"@
                    && pairs@[0].1@ == db_path,
                None => false,
            }
        },
        ContextServerSettings::Other(_) => false,
    }
}

/// Whether an entry is nothing but the bare name of our binary, or our own path with no database.
pub open spec fn is_bare_entry(entry: ContextServerSettings, server_path: PathParts) -> bool {
    match entry {
        ContextServerSettings::Stdio { enabled, remote, command } => {
            &&& enabled
            &&& !remote
            &&& command.args@.len() == 0
            &&& command.timeout is None
            &&& match command.env {
                Some(pairs) => pairs@.len() == 0,
                None => true,
            }
            &&& match command.path.file_name {
                Some(name) => name@ == "shared-context-mcp"@,
                None => false,
            }
            &&& !command.path.absolute || (command.path.components@.len()
                == server_path.components@.len() && forall|i: int|
                0 <= i < command.path.components@.len() ==> (
                #[trigger] command.path.components@[i])@ == server_path.components@[i]@)
        },
        ContextServerSettings::Other(_) => false,
    }
}

/// Settings without an entry for the server get one, behind what is there; an entry that is
/// nothing but our own bare one is replaced where it stands; any other is the user's, and the
/// settings stay as they are.
pub proof fn the_server_is_registered_where_the_user_has_none(
    settings: &mut ProjectSettings,
    server_path: PathParts,
    db_path: &str,
    r: bool,
    i: int,
)
    requires
        call_ensures(ensure_shared_context_server, (settings, &server_path, db_path), r),
    ensures
        has_no_server(old(settings).context_servers@) ==> r && {
            let after = final(settings).context_servers@;
            &&& after.len() == old(settings).context_servers@.len() + 1
            &&& after.drop_last() == old(settings).context_servers@
            &&& after.last().0@ == "shared-context"@
            &&& starts_the_server(after.last().1, server_path, db_path@)
        },
        server_stands_at(old(settings).context_servers@, i) ==> {
            let before = old(settings).context_servers@;
            let after = final(settings).context_servers@;
            &&& r <==> is_bare_entry(before[i].1, server_path)
            &&& r ==> after.len() == before.len() && after[i].0@ == "shared-context"@
                && starts_the_server(after[i].1, server_path, db_path@)
            &&& r ==> forall|j: int| 0 <= j < before.len() && j != i ==> #[trigger] after[j] == before[j]
            &&& !r ==> after == before
        },
{
    let before = old(settings).context_servers@;
    let after = final(settings).context_servers@;
    the_server_is_found(before, i);
    if has_no_server(before) {
        assert(after.drop_last() =~= before);
    }
    if server_stands_at(before, i) {
        match before[i].1 {
            ContextServerSettings::Stdio { enabled, remote, command } => {
                let a = crate::text::views(command.path.components@);
                let b = crate::text::views(server_path.components@);
                assert(a.len() == command.path.components@.len());
                assert(b.len() == server_path.components@.len());
                assert(forall|k: int|
                    0 <= k < a.len() ==> #[trigger] a[k] == command.path.components@[k]@);
                assert(forall|k: int|
                    0 <= k < b.len() ==> #[trigger] b[k] == server_path.components@[k]@);
                if a == b {
                    assert forall|k: int| 0 <= k < a.len() implies (
                    #[trigger] command.path.components@[k])@ == server_path.components@[k]@ by {
                        assert(a[k] == b[k]);
                    }
                }
                if is_bare_entry(before[i].1, server_path) && command.path.absolute {
                    assert(a =~= b) by {
                        assert forall|k: int| 0 <= k < a.len() implies a[k] == b[k] by {
                            assert(command.path.components@[k]@ == server_path.components@[k]@);
                        }
                    }
                }
            },
            ContextServerSettings::Other(_) => {},
        }
    }
}

/// Without the server's binary nothing is registered and nothing changes; that is reported where
/// the settings have no entry. With it, what is reported is whether the settings changed.
pub proof fn a_registration_says_what_it_did(
    settings: &mut ProjectSettings,
    server_path: Option<&PathParts>,
    db_path: &str,
    r: Registration,
    i: int,
)
    requires
        call_ensures(register_shared_context_server, (settings, server_path, db_path), r),
    ensures
        server_path is None ==> *final(settings) == *old(settings),
        server_path is None && has_no_server(old(settings).context_servers@) ==> r is MissingBinary,
        server_path is None && server_stands_at(old(settings).context_servers@, i) ==> r
            is Unchanged,
        server_path is Some && has_no_server(old(settings).context_servers@) ==> r is Registered,
        server_path matches Some(path) ==> (r is Registered ==> exists|k: int|
            0 <= k < final(settings).context_servers@.len() && (
            #[trigger] final(settings).context_servers@[k]).0@ == "shared-context"@
                && starts_the_server(final(settings).context_servers@[k].1, *path, db_path@)),
        r is Unchanged ==> *final(settings) == *old(settings),
        server_path is Some ==> !(r is MissingBinary),
{
    let before = old(settings).context_servers@;
    the_server_is_found(before, i);
    the_index_is_in_range(before);
    if r is Registered {
        let k = server_index(before);
        assert(final(settings).context_servers@[k].0@ == "shared-context"@);
    }
}

proof fn the_index_is_in_range(servers: Seq<(String, ContextServerSettings)>)
    ensures
        0 <= server_index(servers) <= servers.len(),
    decreases servers.len(),
{
    if servers.len() > 0 {
        the_index_is_in_range(servers.subrange(1, servers.len() as int));
    }
}

/// The binary is taken from the bundle where it lies there, or else from beside the executable,
/// or else from below it, and from nowhere else.
pub proof fn the_binary_is_taken_where_it_lies(
    auxiliary: Option<Candidate>,
    beside: Option<Candidate>,
    below: Option<Candidate>,
    r: Option<PathParts>,
)
    requires
        call_ensures(shared_context_server_path, (&auxiliary, &beside, &below), r),
    ensures
        auxiliary matches Some(c) ==> (c.exists ==> (r matches Some(path) && is_the_path(path, c.path))),
        !(auxiliary matches Some(c) && c.exists) ==> (beside matches Some(c) ==> (c.exists ==> (r
            matches Some(path) && is_the_path(path, c.path)))),
        !(auxiliary matches Some(c) && c.exists) && !(beside matches Some(c) && c.exists) ==> (below
            matches Some(c) ==> (c.exists ==> (r matches Some(path) && is_the_path(path, c.path)))),
        r is None <==> !(auxiliary matches Some(c) && c.exists) && !(beside matches Some(c)
            && c.exists) && !(below matches Some(c) && c.exists),
{
}

/// The prompt that introduces a mission names its id, its title and the worker's role, and tells
/// the worker to pass that role on.
pub proof fn a_prompt_names_mission_and_role(mission: Mission, role: &str, r: String)
    requires
        call_ensures(mission_prompt, (&mission, role), r),
    ensures
        has_part(r@, "mission_id: "@ + hyphenated_form(mission.id.value) + "\n"@),
        has_part(r@, "\ntitle: "@ + mission.title@ + "\nrole: "@ + role@ + "\n"@),
        has_part(r@, "Pass role: '"@ + role@ + "'"@),
        has_prefix(r@, "<zed-mission-context>\n"@),
{
    let id = hyphenated_form(mission.id.value);
    let title = mission.title@;
    let a = "<zed-mission-context>\nmission_id: "@;
    let b = "\ntitle: "@;
    let c = "\nrole: "@;
    let d =
        "\nshared_context: \"Use record_decision, record_artifact, record_evidence, and get_mission_context with this mission_id when sharing information across Harnesses. Pass role: '"@;
    let e =
        "' on every record_* call so your work is attributed to you, and an author naming yourself (e.g. 'codex').\"\n</zed-mission-context>"@;
    reveal_strlit("<zed-mission-context>\nmission_id: ");
    reveal_strlit("<zed-mission-context>\n");
    reveal_strlit("mission_id: ");
    reveal_strlit("\n");
    reveal_strlit("\ntitle: ");
    reveal_strlit("\nrole: ");
    reveal_strlit("Pass role: '");
    reveal_strlit("'");
    reveal_strlit(
        "\nshared_context: \"Use record_decision, record_artifact, record_evidence, and get_mission_context with this mission_id when sharing information across Harnesses. Pass role: '",
    );
    reveal_strlit(
        "' on every record_* call so your work is attributed to you, and an author naming yourself (e.g. 'codex').\"\n</zed-mission-context>",
    );
    let p = "mission_id: "@ + id + "\n"@;
    assert(r@.subrange(22, 22int + p.len()) =~= p);
    let q = b + title + c + role@ + "\n"@;
    let at = a.len() as int + id.len();
    assert(r@.subrange(at, at + q.len()) =~= q);
    let x = "Pass role: '"@ + role@ + "'"@;
    let k = at + b.len() + title.len() + c.len() + role@.len() + d.len() - 12;
    assert(r@.subrange(k, k + x.len()) =~= x);
    assert(r@.subrange(0, 22) =~= "<zed-mission-context>\n"@);
}

/// Whether a row of the dialog asks for a worker: it is chosen and has a role that is not blank.
pub open spec fn asks_for_a_worker(entry: MissionAgentEntry) -> bool {
    entry.selected && !blank(entry.role_text@)
}

proof fn the_chosen_are_those_who_ask(entries: Seq<MissionAgentEntry>)
    ensures
        chosen(entries).len() == entries.filter(|e: MissionAgentEntry| asks_for_a_worker(e)).len(),
        forall|k: int|
            0 <= k < chosen(entries).len() ==> (#[trigger] chosen(entries)[k]).agent
                == entries.filter(|e: MissionAgentEntry| asks_for_a_worker(e))[k].agent
                && chosen(entries)[k].role == trimmed(
                entries.filter(|e: MissionAgentEntry| asks_for_a_worker(e))[k].role_text@,
            ),
    decreases entries.len(),
{
    let asks = |e: MissionAgentEntry| asks_for_a_worker(e);
    filter_from_the_end(entries, asks);
    if entries.len() > 0 {
        the_chosen_are_those_who_ask(entries.drop_last());
        trimming_cuts_the_white_space_at_the_ends(entries.last().role_text@);
    }
}

/// The workers are those of the rows that are chosen and have a role, in the order of the rows,
/// each with the agent of its row and the role without the white space around it.
pub proof fn the_workers_are_those_of_the_chosen_rows(
    entries: Vec<MissionAgentEntry>,
    r: Vec<MissionThreadSpec>,
    k: int,
)
    requires
        call_ensures(selected_thread_specs, (&entries,), r),
        0 <= k < r@.len(),
    ensures
        r@.len() == entries@.filter(|e: MissionAgentEntry| asks_for_a_worker(e)).len(),
        r@[k].agent == entries@.filter(|e: MissionAgentEntry| asks_for_a_worker(e))[k].agent,
        r@[k].role@.len() > 0,
        is_bare(
            entries@.filter(|e: MissionAgentEntry| asks_for_a_worker(e))[k].role_text@,
            r@[k].role@,
        ),
{
    let asks = |e: MissionAgentEntry| asks_for_a_worker(e);
    the_chosen_are_those_who_ask(entries@);
    assert(spec_views(r@)[k] == r@[k]@);
    assert(spec_views(r@).len() == r@.len());
    let row = entries@.filter(asks)[k];
    entries@.lemma_filter_pred(asks, k);
    trimming_cuts_the_white_space_at_the_ends(row.role_text@);
}

/// Whether rows ask for nobody exactly where no worker comes of them.
pub proof fn no_worker_comes_of_rows_that_ask_for_none(
    entries: Vec<MissionAgentEntry>,
    r: Vec<MissionThreadSpec>,
)
    requires
        call_ensures(selected_thread_specs, (&entries,), r),
    ensures
        r@.len() == 0 <==> forall|i: int|
            0 <= i < entries@.len() ==> !asks_for_a_worker(#[trigger] entries@[i]),
{
    let asks = |e: MissionAgentEntry| asks_for_a_worker(e);
    the_chosen_are_those_who_ask(entries@);
    assert(spec_views(r@).len() == r@.len());
    what_a_filter_keeps(entries@, asks);
    assert forall|i: int| 0 <= i < entries@.len() implies asks(#[trigger] entries@[i])
        == asks_for_a_worker(entries@[i]) by {}
}

/// Roles are the same where they differ by white space around them alone, and, in ASCII, by the
/// case of their letters alone.
pub proof fn roles_are_compared_without_white_space_and_case(
    a: &str,
    b: &str,
    x: String,
    y: String,
    before: Seq<char>,
    after: Seq<char>,
)
    requires
        call_ensures(normalized_role, (a,), x),
        call_ensures(normalized_role, (b,), y),
    ensures
        blank(before) && blank(after) && b@ == before + a@ + after ==> x@ == y@,
        is_ascii_text(trimmed(a@)) && is_ascii_text(trimmed(b@)) ==> (x@ == y@ <==> trimmed(
            a@,
        ).map_values(|c: char| ascii_lower(c)) == trimmed(b@).map_values(|c: char| ascii_lower(c))),
{
    if blank(before) && blank(after) && b@ == before + a@ + after {
        white_space_around_a_text_does_not_matter(before, a@, after);
    }
}

/// Whether a thread of a mission has a role, as roles are compared.
pub open spec fn has_worker(
    threads: Seq<ThreadMetadata>,
    mission_id: Option<MissionId>,
    role: Seq<char>,
) -> bool {
    mission_id is Some && exists|t: int|
        0 <= t < threads.len() && (#[trigger] threads[t]).mission_id == mission_id && (threads[t].role
            matches Some(r) && normalized(r@) == normalized(role))
}

proof fn used_roles_are_those_of_the_threads(
    threads: Seq<ThreadMetadata>,
    id: MissionId,
    role: Seq<char>,
)
    ensures
        used_roles(threads, id).contains(normalized(role)) <==> has_worker(threads, Some(id), role),
    decreases threads.len(),
{
    if threads.len() > 0 {
        let rest = threads.drop_last();
        used_roles_are_those_of_the_threads(rest, id, role);
        let before = used_roles(rest, id);
        let n = rest.len() as int;
        assert(threads[n] == threads.last());
        if has_worker(rest, Some(id), role) {
            let t = choose|t: int|
                0 <= t < rest.len() && (#[trigger] rest[t]).mission_id == Some(id) && (rest[t].role
                    matches Some(r) && normalized(r@) == normalized(role));
            assert(threads[t] == rest[t]);
            assert(has_worker(threads, Some(id), role));
        }
        if has_worker(threads, Some(id), role) {
            let t = choose|t: int|
                0 <= t < threads.len() && (#[trigger] threads[t]).mission_id == Some(id) && (
                threads[t].role matches Some(r) && normalized(r@) == normalized(role));
            if t < n {
                assert(rest[t] == threads[t]);
                assert(has_worker(rest, Some(id), role));
            }
        }
        match threads.last().role {
            Some(last) => {
                crate::lists::contains_after_push(before, normalized(last@));
            },
            None => {},
        }
    }
}

/// Whether the role of the `i`-th worker is taken: by a thread of the mission, or by a worker
/// before it.
pub open spec fn role_is_taken(
    specs: Seq<MissionThreadSpec>,
    mission_id: Option<MissionId>,
    threads: Seq<ThreadMetadata>,
    i: int,
) -> bool {
    has_worker(threads, mission_id, specs[i].role@) || exists|j: int|
        0 <= j < i && normalized((#[trigger] specs[j]).role@) == normalized(specs[i].role@)
}

proof fn a_clash_is_a_taken_role(
    specs: Seq<MissionThreadSpec>,
    mission_id: Option<MissionId>,
    threads: Seq<ThreadMetadata>,
    i: int,
)
    requires
        0 <= i < specs.len(),
    ensures
        clashes(spec_views(specs), taken_roles(threads, mission_id), i) <==> role_is_taken(
            specs,
            mission_id,
            threads,
            i,
        ),
{
    let views = spec_views(specs);
    let taken = taken_roles(threads, mission_id);
    let roles = normalized_roles(views.take(i));
    let role = specs[i].role@;
    assert(views[i] == specs[i]@);
    crate::lists::contains_in_sum(taken, roles);
    match mission_id {
        Some(id) => {
            used_roles_are_those_of_the_threads(threads, id, role);
        },
        None => {},
    }
    assert forall|j: int| 0 <= j < i implies #[trigger] roles[j] == normalized(specs[j].role@) by {
        assert(views.take(i)[j] == specs[j]@);
    }
    if roles.contains(normalized(role)) {
        let j = choose|j: int| 0 <= j < roles.len() && roles[j] == normalized(role);
        assert(normalized(specs[j].role@) == normalized(role));
    }
    if exists|j: int| 0 <= j < i && normalized((#[trigger] specs[j]).role@) == normalized(role) {
        let j = choose|j: int| 0 <= j < i && normalized((#[trigger] specs[j]).role@) == normalized(role);
        assert(roles[j] == normalized(role));
    }
}

proof fn the_first_clash_is_the_first(specs: Seq<SpecView>, taken: Seq<Seq<char>>)
    ensures
        match first_clash(specs, taken) {
            Some(role) => exists|i: int|
                0 <= i < specs.len() && specs[i].role == role && #[trigger] clashes(specs, taken, i)
                    && forall|j: int| 0 <= j < i ==> !#[trigger] clashes(specs, taken, j),
            None => forall|i: int| 0 <= i < specs.len() ==> !#[trigger] clashes(specs, taken, i),
        },
    decreases specs.len(),
{
    if specs.len() > 0 {
        let rest = specs.drop_last();
        let n = rest.len() as int;
        the_first_clash_is_the_first(rest, taken);
        assert forall|j: int| 0 <= j < n implies #[trigger] clashes(rest, taken, j) == clashes(
            specs,
            taken,
            j,
        ) by {
            assert(rest.take(j) =~= specs.take(j));
            assert(rest[j] == specs[j]);
        }
        match first_clash(rest, taken) {
            Some(role) => {
                let i = choose|i: int|
                    0 <= i < rest.len() && rest[i].role == role && #[trigger] clashes(rest, taken, i)
                        && forall|j: int| 0 <= j < i ==> !#[trigger] clashes(rest, taken, j);
                assert(clashes(specs, taken, i));
                assert forall|j: int| 0 <= j < i implies !#[trigger] clashes(specs, taken, j) by {
                    assert(!clashes(rest, taken, j));
                }
            },
            None => {
                assert forall|j: int| 0 <= j < n implies !#[trigger] clashes(specs, taken, j) by {
                    assert(!clashes(rest, taken, j));
                }
                if clashes(specs, taken, n) {
                    assert(specs[n].role == specs.last().role);
                }
            },
        }
    }
}

/// The role that is refused is the first that a thread of the mission has or that a worker before
/// has; where no role is taken, none is refused.
pub proof fn the_first_taken_role_is_refused(
    specs: Vec<MissionThreadSpec>,
    mission_id: Option<MissionId>,
    threads: Vec<ThreadMetadata>,
    r: Option<String>,
)
    requires
        call_ensures(duplicate_role, (&specs, mission_id, &threads), r),
    ensures
        r matches Some(role) ==> exists|i: int|
            0 <= i < specs@.len() && (#[trigger] specs@[i]).role@ == role@ && role_is_taken(
                specs@,
                mission_id,
                threads@,
                i,
            ) && forall|j: int|
                0 <= j < i ==> !#[trigger] role_is_taken(specs@, mission_id, threads@, j),
        r is None ==> forall|i: int|
            0 <= i < specs@.len() ==> !#[trigger] role_is_taken(specs@, mission_id, threads@, i),
{
    let views = spec_views(specs@);
    let taken = taken_roles(threads@, mission_id);
    the_first_clash_is_the_first(views, taken);
    assert forall|i: int| 0 <= i < specs@.len() implies #[trigger] clashes(views, taken, i)
        == role_is_taken(specs@, mission_id, threads@, i) by {
        a_clash_is_a_taken_role(specs@, mission_id, threads@, i);
    }
    match r {
        Some(role) => {
            let i = choose|i: int|
                0 <= i < views.len() && views[i].role == role@ && #[trigger] clashes(views, taken, i)
                    && forall|j: int| 0 <= j < i ==> !#[trigger] clashes(views, taken, j);
            assert(views[i] == specs@[i]@);
            assert(specs@[i].role@ == role@);
            assert forall|j: int| 0 <= j < i implies !#[trigger] role_is_taken(
                specs@,
                mission_id,
                threads@,
                j,
            ) by {
                assert(!clashes(views, taken, j));
            }
        },
        None => {
            assert forall|i: int| 0 <= i < specs@.len() implies !#[trigger] role_is_taken(
                specs@,
                mission_id,
                threads@,
                i,
            ) by {
                assert(!clashes(views, taken, i));
            }
        },
    }
}

/// Each worker gets one thread: under the mission's title and id, with the worker's agent and
/// role, and a prompt for that mission and role, which is submitted at once.
pub proof fn each_worker_gets_its_thread(
    mission: Mission,
    specs: Vec<MissionThreadSpec>,
    r: Vec<WorkerRequest>,
    prompt: String,
    i: int,
)
    requires
        call_ensures(worker_requests, (&mission, &specs), r),
        0 <= i < specs@.len(),
        prompt@ == prompt_text(mission.id, mission.title@, specs@[i].role@),
    ensures
        r@.len() == specs@.len(),
        r@[i].title@ == mission.title@,
        r@[i].mission_id == mission.id,
        r@[i].agent == specs@[i].agent,
        r@[i].role@ == specs@[i].role@,
        r@[i].prompt@ == prompt@,
        r@[i].auto_submit,
{
}

/// The dialog opens with our own agent chosen and the others offered but not chosen, each with
/// its name as its label and role; the title is that of the mission that workers are added to,
/// and can be typed only for a new one.
pub proof fn the_dialog_opens_with_our_agent_chosen(
    mission: Mission,
    external: Vec<ExternalAgent>,
    adding: Option<MissionOrchestratorModal>,
    creating: Option<MissionOrchestratorModal>,
    panel: bool,
    i: int,
)
    requires
        call_ensures(add_worker_to_mission, (mission, panel, &external), adding),
        call_ensures(show_create_mission_modal, (panel, &external), creating),
        0 <= i < external@.len(),
    ensures
        adding is Some <==> panel,
        creating is Some <==> panel,
        adding matches Some(modal) ==> modal.title_text@ == mission.title@ && modal.title_read_only
            && modal.existing_mission == Some(mission) && offers(modal, external@, i),
        creating matches Some(modal) ==> modal.title_text@.len() == 0 && !modal.title_read_only
            && modal.existing_mission is None && offers(modal, external@, i),
{
}

/// Whether a dialog offers our own agent, chosen and focused, and the `i`-th external one, not
/// chosen, under its name or, without one, its id.
pub open spec fn offers(
    modal: MissionOrchestratorModal,
    external: Seq<ExternalAgent>,
    i: int,
) -> bool {
    let row = modal.agents@[i + 1];
    let name = match external[i].display_name {
        Some(name) => name@,
        None => external[i].id@,
    };
    &&& modal.agents@.len() == external.len() + 1
    &&& modal.agents@[0].agent is NativeAgent
    &&& modal.agents@[0].selected
    &&& modal.agents@[0].role_text@ == modal.agents@[0].label@
    &&& (row.agent matches Agent::Custom { id } && id@ == external[i].id@)
    &&& row.label@ == name
    &&& row.role_text@ == name
    &&& !row.selected
    &&& modal.selected_index == Some(0usize)
    &&& !modal.creating
    &&& modal.error is None
}

/// Whether two states of the dialog differ in nothing but the choice of the `index`-th row.
pub open spec fn same_but_choice(
    a: MissionOrchestratorModal,
    b: MissionOrchestratorModal,
    index: int,
) -> bool {
    &&& a.existing_mission == b.existing_mission
    &&& a.title_text@ == b.title_text@
    &&& a.title_read_only == b.title_read_only
    &&& a.selected_index == b.selected_index
    &&& a.creating == b.creating
    &&& a.error == b.error
    &&& a.agents@.len() == b.agents@.len()
    &&& forall|j: int| 0 <= j < a.agents@.len() && j != index ==> a.agents@[j] == #[trigger] b.agents@[j]
    &&& 0 <= index < a.agents@.len() ==> {
        &&& a.agents@[index].agent == b.agents@[index].agent
        &&& a.agents@[index].label == b.agents@[index].label
        &&& a.agents@[index].role_text == b.agents@[index].role_text
    }
}

/// Toggling a row changes whether it is chosen and nothing else, so toggling it twice changes
/// nothing; while a mission is created, and at a row that there is not, nothing is toggled.
pub proof fn toggling_a_row_twice_changes_nothing(
    first: &mut MissionOrchestratorModal,
    second: &mut MissionOrchestratorModal,
    index: usize,
)
    requires
        call_ensures(MissionOrchestratorModal::toggle_selected_agent, (first, index), ()),
        call_ensures(MissionOrchestratorModal::toggle_selected_agent, (second, index), ()),
        *old(second) == *final(first),
    ensures
        same_but_choice(*final(first), *old(first), index as int),
        (index as int) < old(first).agents@.len() ==> (final(first).agents@[index as int].selected != old(first).agents@[index as int].selected <==> !old(first).creating),
        final(second).agents@ =~= old(first).agents@,
{
}

/// Confirming toggles the row that has the focus, and nothing where none has it.
pub proof fn confirming_toggles_the_focused_row(
    a: &mut MissionOrchestratorModal,
    b: &mut MissionOrchestratorModal,
    index: usize,
)
    requires
        call_ensures(MissionOrchestratorModal::confirm_selection, (a,), ()),
        call_ensures(MissionOrchestratorModal::toggle_selected_agent, (b, index), ()),
        *old(a) == *old(b),
    ensures
        old(a).selected_index == Some(index) ==> final(a).agents@ == final(b).agents@,
        old(a).selected_index is None ==> final(a).agents@ == old(a).agents@,
        same_but_choice(
            *final(a),
            *old(a),
            match old(a).selected_index {
                Some(i) => i as int,
                None => -1,
            },
        ),
{
}

/// The focus moves to the neighbouring row and round at the ends, so that a step forward and a
/// step back undo each other; nothing but the focus changes.
pub proof fn the_focus_moves_round(
    next: &mut MissionOrchestratorModal,
    back: &mut MissionOrchestratorModal,
)
    requires
        call_ensures(MissionOrchestratorModal::select_next, (next,), ()),
        call_ensures(MissionOrchestratorModal::select_previous, (back,), ()),
        *old(back) == *final(next),
        old(next).selected_index matches Some(i) ==> (i as int) < old(next).agents@.len(),
    ensures
        same_but_focus(*final(next), *old(next)),
        same_but_focus(*final(back), *old(back)),
        old(next).selected_index is Some ==> final(back).selected_index == old(next).selected_index,
        old(next).agents@.len() > 0 ==> (final(next).selected_index matches Some(i) && match old(next).selected_index {
            Some(from) => i as int == (from as int + 1) % (old(next).agents@.len() as int),
            None => i == 0,
        }),
        old(next).agents@.len() == 0 ==> final(next).selected_index == old(next).selected_index,
{
    let n = old(next).agents.len() as int;
    match old(next).selected_index {
        Some(from) => {
            if from as int + 1 < n {
                vstd::arithmetic::div_mod::lemma_small_mod((from + 1) as nat, n as nat);
            } else {
                assert(from as int + 1 == n);
                vstd::arithmetic::div_mod::lemma_mod_self_0(n);
            }
        },
        None => {},
    }
}

/// Whether two states of the dialog differ in nothing but the focus.
pub open spec fn same_but_focus(a: MissionOrchestratorModal, b: MissionOrchestratorModal) -> bool {
    &&& a.existing_mission == b.existing_mission
    &&& a.title_text@ == b.title_text@
    &&& a.title_read_only == b.title_read_only
    &&& a.agents@ == b.agents@
    &&& a.creating == b.creating
    &&& a.error == b.error
}

/// A step back without a focus goes to the last row.
pub proof fn a_step_back_without_a_focus_goes_to_the_last_row(back: &mut MissionOrchestratorModal)
    requires
        call_ensures(MissionOrchestratorModal::select_previous, (back,), ()),
        old(back).selected_index is None,
        old(back).agents@.len() > 0,
    ensures
        final(back).selected_index matches Some(i) && i as int == old(back).agents@.len() - 1,
{
    let n = old(back).agents.len();
}

/// Whether the dialog is in order: a title for a new mission, a chosen row with a role, and no
/// role that is taken, by a thread of the mission or twice.
pub open spec fn is_in_order(
    modal: MissionOrchestratorModal,
    specs: Seq<MissionThreadSpec>,
    threads: Seq<ThreadMetadata>,
) -> bool {
    &&& modal.existing_mission is Some || !blank(modal.title_text@)
    &&& specs.len() > 0
    &&& forall|i: int|
        0 <= i < specs.len() ==> !#[trigger] role_is_taken(
            specs,
            id_of_mission(modal.existing_mission),
            threads,
            i,
        )
}

/// The id of the mission that workers are added to, where there is one.
pub open spec fn id_of_mission(mission: Option<Mission>) -> Option<MissionId> {
    match mission {
        Some(m) => Some(m.id),
        None => None,
    }
}

/// A plan is handed on exactly where the dialog is in order and no mission is being created; the
/// plan holds the title without the white space around it, the mission, and the workers of the
/// chosen rows, and the dialog is then creating. Otherwise the dialog says why, and is not.
pub proof fn a_plan_is_handed_on_where_the_dialog_is_in_order(
    modal: &mut MissionOrchestratorModal,
    threads: Vec<ThreadMetadata>,
    r: Option<MissionPlan>,
    specs: Vec<MissionThreadSpec>,
)
    requires
        call_ensures(MissionOrchestratorModal::create_mission, (modal, &threads), r),
        call_ensures(selected_thread_specs, (&old(modal).agents,), specs),
    ensures
        old(modal).creating ==> r is None && *final(modal) == *old(modal),
        !old(modal).creating ==> (r is Some <==> is_in_order(*old(modal), specs@, threads@)),
        r matches Some(plan) ==> is_bare(old(modal).title_text@, plan.title@)
            && plan.existing_mission == old(modal).existing_mission && spec_views(plan.specs@)
            == spec_views(specs@) && final(modal).creating && final(modal).error is None,
        !old(modal).creating && r is None ==> !final(modal).creating && final(modal).error is Some,
        !old(modal).creating && old(modal).existing_mission is None && blank(old(modal).title_text@)
            ==> (final(modal).error matches Some(e) && e@ == "Enter a Mission title."@),
        !old(modal).creating && (old(modal).existing_mission is Some || !blank(
            old(modal).title_text@,
        )) && specs@.len() == 0 ==> (final(modal).error matches Some(e) && e@
            == "Select at least one Harness and provide a role."@),
        final(modal).agents@ == old(modal).agents@,
        final(modal).title_text@ == old(modal).title_text@,
        final(modal).selected_index == old(modal).selected_index,
{
    trimming_cuts_the_white_space_at_the_ends(old(modal).title_text@);
    let mission_id = id_of_mission(old(modal).existing_mission);
    let views = spec_views(specs@);
    let taken = taken_roles(threads@, mission_id);
    assert(views.len() == specs@.len());
    the_first_clash_is_the_first(views, taken);
    assert forall|i: int| 0 <= i < specs@.len() implies #[trigger] clashes(views, taken, i)
        == role_is_taken(specs@, mission_id, threads@, i) by {
        a_clash_is_a_taken_role(specs@, mission_id, threads@, i);
    }
    match first_clash(views, taken) {
        Some(role) => {
            let i = choose|i: int|
                0 <= i < views.len() && views[i].role == role && #[trigger] clashes(views, taken, i)
                    && forall|j: int| 0 <= j < i ==> !#[trigger] clashes(views, taken, j);
            assert(role_is_taken(specs@, mission_id, threads@, i));
        },
        None => {
            assert forall|i: int| 0 <= i < specs@.len() implies !#[trigger] role_is_taken(
                specs@,
                mission_id,
                threads@,
                i,
            ) by {
                assert(!clashes(views, taken, i));
            }
        },
    }
}

/// A taken role is named in what the dialog says of it.
pub proof fn a_taken_role_is_named(
    modal: &mut MissionOrchestratorModal,
    threads: Vec<ThreadMetadata>,
    r: Option<MissionPlan>,
    specs: Vec<MissionThreadSpec>,
    i: int,
)
    requires
        call_ensures(MissionOrchestratorModal::create_mission, (modal, &threads), r),
        call_ensures(selected_thread_specs, (&old(modal).agents,), specs),
        !old(modal).creating,
        old(modal).existing_mission is Some || !blank(old(modal).title_text@),
        0 <= i < specs@.len(),
        role_is_taken(
            specs@,
            id_of_mission(old(modal).existing_mission),
            threads@,
            i,
        ),
        forall|j: int|
            0 <= j < i ==> !#[trigger] role_is_taken(
                specs@,
                id_of_mission(old(modal).existing_mission),
                threads@,
                j,
            ),
    ensures
        r is None,
        final(modal).error matches Some(e) && e@ == "\""@ + specs@[i].role@
            + "\" is already a role in this Mission. Roles must be unique."@,
{
    trimming_cuts_the_white_space_at_the_ends(old(modal).title_text@);
    let mission_id = id_of_mission(old(modal).existing_mission);
    let views = spec_views(specs@);
    let taken = taken_roles(threads@, mission_id);
    assert(views.len() == specs@.len());
    the_first_clash_is_the_first(views, taken);
    a_clash_is_a_taken_role(specs@, mission_id, threads@, i);
    let role = first_clash(views, taken).unwrap();
    let k = choose|k: int|
        0 <= k < views.len() && views[k].role == role && #[trigger] clashes(views, taken, k)
            && forall|j: int| 0 <= j < k ==> !#[trigger] clashes(views, taken, j);
    a_clash_is_a_taken_role(specs@, mission_id, threads@, k);
    if k < i {
        assert(!role_is_taken(specs@, mission_id, threads@, k));
    }
    if i < k {
        assert(!clashes(views, taken, i));
    }
    assert(views[i] == specs@[i]@);
}

/// Creation goes on only where the settings were written and the mission was created; a failure
/// ends it and is said, behind the same words, and the rest of the dialog stays.
pub proof fn a_failure_ends_the_creation_and_is_said(
    settings: &mut MissionOrchestratorModal,
    outcome: SettingsOutcome,
    went_on: bool,
    creation: &mut MissionOrchestratorModal,
    result: Result<Mission, String>,
    created: Option<Mission>,
)
    requires
        call_ensures(MissionOrchestratorModal::settings_updated, (settings, outcome), went_on),
        call_ensures(MissionOrchestratorModal::mission_created, (creation, result), created),
    ensures
        went_on <==> outcome is Written,
        went_on ==> *final(settings) == *old(settings),
        !went_on ==> !final(settings).creating && (final(settings).error matches Some(e)
            && has_prefix(e@, "Could not create Mission: "@)),
        outcome matches SettingsOutcome::Failed(why) ==> (final(settings).error matches Some(e) && e@
            == "Could not create Mission: "@ + why@),
        outcome matches SettingsOutcome::Canceled(why) ==> (final(settings).error matches Some(e)
            && has_part(e@, why@)),
        result matches Ok(mission) ==> created == Some(mission) && *final(creation) == *old(creation),
        result matches Err(why) ==> created is None && !final(creation).creating && (final(creation).error matches Some(e) && e@ == "Could not create Mission: "@ + why@),
        final(settings).agents@ == old(settings).agents@,
        final(settings).existing_mission == old(settings).existing_mission,
        final(settings).title_text == old(settings).title_text,
        final(settings).selected_index == old(settings).selected_index,
        final(creation).agents@ == old(creation).agents@,
        final(creation).existing_mission == old(creation).existing_mission,
        final(creation).title_text == old(creation).title_text,
        final(creation).selected_index == old(creation).selected_index,
{
    match outcome {
        SettingsOutcome::Failed(why) => {
            a_text_has_its_parts("Could not create Mission: "@, why@, seq![]);
            assert("Could not create Mission: "@ + why@ + seq![] =~= "Could not create Mission: "@
                + why@);
        },
        SettingsOutcome::Canceled(why) => {
            let a = "Could not create Mission: "@;
            let b = "Could not update Mission settings: "@;
            a_text_has_its_parts(a, b + why@, seq![]);
            a_text_has_its_parts(a + b, why@, seq![]);
            assert(a + (b + why@) + seq![] =~= a + (b + why@));
            assert(a + b + why@ + seq![] =~= a + (b + why@));
        },
        SettingsOutcome::Written => {},
    }
}

/// The dialog shows a row for each agent, checked where it is chosen and focused where it has the
/// focus; its button is at work, and cannot be pressed, exactly while a mission is created.
pub proof fn the_dialog_shows_its_state(modal: MissionOrchestratorModal, r: OrchestratorModalView, i: int)
    requires
        call_ensures(MissionOrchestratorModal::render, (&modal,), r),
        0 <= i < modal.agents@.len(),
    ensures
        r.rows@.len() == modal.agents@.len(),
        r.rows@[i].checked == modal.agents@[i].selected,
        r.rows@[i].label@ == modal.agents@[i].label@,
        r.rows@[i].role_text@ == modal.agents@[i].role_text@,
        r.rows@[i].focused <==> (modal.selected_index matches Some(k) && k as int == i),
        r.button_loading == modal.creating,
        r.button_disabled == modal.creating,
        r.error == modal.error,
        r.button@ == r.headline@,
        modal.existing_mission is Some ==> r.headline@ == "Add Worker"@,
        modal.existing_mission is None ==> r.headline@ == "Create Mission"@,
{
    let n = modal.agents.len();
    assert(i as usize as int == i);
}

} // verus!
