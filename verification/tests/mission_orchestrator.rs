use missions::mission_id::MissionId;
use missions::mission_orchestrator::add_worker_to_mission;
use missions::mission_orchestrator::aggregate_mission_state;
use missions::mission_orchestrator::duplicate_role;
use missions::mission_orchestrator::ensure_shared_context_server;
use missions::mission_orchestrator::mission_prompt;
use missions::mission_orchestrator::mission_state;
use missions::mission_orchestrator::normalized_role;
use missions::mission_orchestrator::register_shared_context_server;
use missions::mission_orchestrator::selected_thread_specs;
use missions::mission_orchestrator::shared_context_server_path;
use missions::mission_orchestrator::show_create_mission_modal;
use missions::mission_orchestrator::thread_mission_state;
use missions::mission_orchestrator::worker_requests;
use missions::mission_orchestrator::Agent;
use missions::mission_orchestrator::Candidate;
use missions::mission_orchestrator::ContextServerCommand;
use missions::mission_orchestrator::ContextServerSettings;
use missions::mission_orchestrator::ExternalAgent;
use missions::mission_orchestrator::MissionOrchestratorModal;
use missions::mission_orchestrator::MissionState;
use missions::mission_orchestrator::MissionThreadSpec;
use missions::mission_orchestrator::MissionThreadState;
use missions::mission_orchestrator::PathParts;
use missions::mission_orchestrator::ProjectSettings;
use missions::mission_orchestrator::Registration;
use missions::mission_orchestrator::SettingsOutcome;
use missions::mission_orchestrator::SHARED_CONTEXT_SERVER_BINARY;
use missions::mission_orchestrator::SHARED_CONTEXT_SERVER_ID;
use missions::shared_context::DB_PATH_ENV_VAR;
use missions::thread::Mission;
use missions::thread::Thread;
use missions::thread::ThreadEntry;
use missions::thread::ThreadId;
use missions::thread::ThreadMetadata;
use missions::thread::ThreadStatus;
use missions::thread::ToolCall;
use missions::thread::ToolCallStatus;
use missions::thread::ToolKind;
use missions::thread::WorkerSource;
use missions::time::Timestamp;
use std::path::Path;

fn parts(path: &Path) -> PathParts {
    PathParts {
        text: path.to_string_lossy().into_owned(),
        components: path
            .components()
            .map(|component| component.as_os_str().to_string_lossy().into_owned())
            .collect(),
        file_name: path.file_name().map(|name| name.to_string_lossy().into_owned()),
        absolute: path.is_absolute(),
    }
}

fn path(text: &str) -> PathParts {
    parts(Path::new(text))
}

fn command(path: PathParts, args: Vec<String>) -> ContextServerCommand {
    ContextServerCommand { path, args, env: None, timeout: None }
}

fn settings_with(enabled: bool, remote: bool, command: ContextServerCommand) -> ProjectSettings {
    ProjectSettings {
        context_servers: vec![(
            SHARED_CONTEXT_SERVER_ID.to_string(),
            ContextServerSettings::Stdio { enabled, remote, command },
        )],
    }
}

fn stdio(settings: &ProjectSettings) -> &ContextServerCommand {
    let entry = settings
        .context_servers
        .iter()
        .find(|(id, _)| id == SHARED_CONTEXT_SERVER_ID)
        .expect("no entry for the server");
    match &entry.1 {
        ContextServerSettings::Stdio { command, .. } => command,
        ContextServerSettings::Other(_) => panic!("not started by a command"),
    }
}

fn env_of(command: &ContextServerCommand) -> Vec<(&str, &str)> {
    command
        .env
        .as_ref()
        .map(|pairs| pairs.iter().map(|(k, v)| (k.as_str(), v.as_str())).collect())
        .unwrap_or_default()
}

fn mission(title: &str) -> Mission {
    Mission {
        id: MissionId { value: 0x2f3d9b0e6c3e4b8a9c3f1a2b3c4d5e6f },
        title: title.to_string(),
        created_at: Timestamp { seconds: 0, nanos: 0 },
    }
}

fn worker(id: u128, mission_id: Option<MissionId>, role: Option<&str>) -> ThreadMetadata {
    ThreadMetadata {
        thread_id: ThreadId { value: id },
        agent_id: "Test".into(),
        display_title: "A thread".into(),
        mission_id,
        role: role.map(str::to_string),
    }
}

fn thread(entries: Vec<ThreadEntry>) -> Thread {
    Thread {
        entries,
        status: ThreadStatus::Idle,
        had_error: false,
        waiting_for_confirmation: false,
        is_draft: false,
        used_tokens: None,
        cost: None,
        changes: Vec::new(),
        queued_messages: 0,
    }
}

fn call(status: ToolCallStatus) -> ThreadEntry {
    ThreadEntry::ToolCall(ToolCall {
        id: "call".into(),
        label: "a call".into(),
        kind: ToolKind::Edit,
        status,
        content: Vec::new(),
        locations: Vec::new(),
    })
}

fn user(text: &str) -> ThreadEntry {
    ThreadEntry::UserMessage(text.into())
}

#[test]
fn mission_state_aggregation_prioritizes_actionable_states() {
    assert_eq!(aggregate_mission_state(&[]), MissionState::Created);
    assert_eq!(
        aggregate_mission_state(&[MissionThreadState::Completed, MissionThreadState::Running]),
        MissionState::Running
    );
    assert_eq!(
        aggregate_mission_state(&[MissionThreadState::Completed, MissionThreadState::Waiting]),
        MissionState::Waiting
    );
    assert_eq!(
        aggregate_mission_state(&[MissionThreadState::Completed, MissionThreadState::Failed]),
        MissionState::Failed
    );
    assert_eq!(
        aggregate_mission_state(&[MissionThreadState::Completed, MissionThreadState::Created]),
        MissionState::Created
    );
    assert_eq!(
        aggregate_mission_state(&[MissionThreadState::Completed, MissionThreadState::Completed]),
        MissionState::Completed
    );
}

#[test]
fn a_failure_is_never_hidden() {
    assert_eq!(
        aggregate_mission_state(&[
            MissionThreadState::Created,
            MissionThreadState::Running,
            MissionThreadState::Waiting,
            MissionThreadState::Failed,
        ]),
        MissionState::Failed
    );
    assert_eq!(
        aggregate_mission_state(&[
            MissionThreadState::Created,
            MissionThreadState::Waiting,
            MissionThreadState::Running,
        ]),
        MissionState::Waiting
    );
    assert_eq!(
        aggregate_mission_state(&[MissionThreadState::Created, MissionThreadState::Running]),
        MissionState::Running
    );
}

#[test]
fn a_thread_fails_only_in_its_current_turn() {
    let state = |thread: Thread| thread_mission_state(&Some(thread));
    assert_eq!(thread_mission_state(&None), MissionThreadState::Created);
    assert_eq!(state(thread(vec![])), MissionThreadState::Created);
    assert_eq!(
        state(thread(vec![user("a"), call(ToolCallStatus::Failed)])),
        MissionThreadState::Failed
    );
    assert_eq!(
        state(thread(vec![user("a"), call(ToolCallStatus::Rejected), user("b")])),
        MissionThreadState::Completed
    );
    // Without any user message every entry counts.
    assert_eq!(
        state(thread(vec![call(ToolCallStatus::Rejected)])),
        MissionThreadState::Failed
    );
    assert_eq!(
        state(Thread { had_error: true, ..thread(vec![user("a")]) }),
        MissionThreadState::Failed
    );
    assert_eq!(
        state(Thread {
            waiting_for_confirmation: true,
            status: ThreadStatus::Generating,
            ..thread(vec![user("a")])
        }),
        MissionThreadState::Waiting
    );
    assert_eq!(
        state(Thread { status: ThreadStatus::Generating, ..thread(vec![]) }),
        MissionThreadState::Running
    );
    assert_eq!(
        state(Thread { is_draft: true, ..thread(vec![user("a")]) }),
        MissionThreadState::Created
    );
    assert_eq!(
        state(thread(vec![user("a"), call(ToolCallStatus::Completed)])),
        MissionThreadState::Completed
    );
}

#[test]
fn a_mission_has_the_state_of_its_own_threads() {
    let id = MissionId { value: 1 };
    let other = MissionId { value: 2 };
    let source = |id: u128, mission_id, thread| WorkerSource {
        metadata: worker(id, mission_id, None),
        thread,
        display_name: None,
        agent_label: "Test".into(),
    };
    let sources = vec![
        source(1, Some(other), Some(Thread { had_error: true, ..thread(vec![]) })),
        source(2, Some(id), Some(thread(vec![user("a")]))),
        source(3, None, None),
    ];
    assert_eq!(mission_state(&sources, id), MissionState::Completed);
    assert_eq!(mission_state(&sources, other), MissionState::Failed);
    assert_eq!(mission_state(&sources, MissionId { value: 3 }), MissionState::Created);
}

#[test]
fn shared_context_server_is_added_only_when_missing() {
    let mut settings = ProjectSettings { context_servers: Vec::new() };
    let server_path = path("/tmp/shared-context-mcp");
    let db_path = "/tmp/zed-shared-context.sqlite";
    assert!(ensure_shared_context_server(&mut settings, &server_path, db_path));
    assert!(!ensure_shared_context_server(&mut settings, &server_path, db_path));
    assert_eq!(settings.context_servers.len(), 1);

    let command = stdio(&settings);
    assert!(command.path.absolute, "expected an absolute command path, got {:?}", command.path.text);
    assert_eq!(command.path.text, server_path.text);
    assert_eq!(env_of(command), vec![(DB_PATH_ENV_VAR, db_path)]);
}

#[test]
fn legacy_shared_context_server_is_upgraded_but_custom_and_disabled_are_preserved() {
    let server_path = path("/tmp/shared-context-mcp");
    let db_path = "/tmp/zed-shared-context.sqlite";
    let bare = || command(path(SHARED_CONTEXT_SERVER_BINARY), Vec::new());

    let mut legacy = settings_with(true, false, bare());
    assert!(ensure_shared_context_server(&mut legacy, &server_path, db_path));
    assert_eq!(stdio(&legacy).path.text, server_path.text);
    assert_eq!(env_of(stdio(&legacy)), vec![(DB_PATH_ENV_VAR, db_path)]);

    let mut disabled = settings_with(false, false, bare());
    assert!(!ensure_shared_context_server(&mut disabled, &server_path, db_path));
    assert_eq!(stdio(&disabled).path.text, SHARED_CONTEXT_SERVER_BINARY);

    let custom_path = path("/tmp/my-shared-context-mcp");
    let mut custom =
        settings_with(true, false, command(custom_path.clone(), vec!["--custom".into()]));
    assert!(!ensure_shared_context_server(&mut custom, &server_path, db_path));
    assert_eq!(stdio(&custom).path.text, custom_path.text);
    assert_eq!(stdio(&custom).args, vec!["--custom".to_string()]);
}

#[test]
fn an_entry_with_anything_of_the_users_own_is_left_alone() {
    let server_path = path("/opt/zed/shared-context-mcp");
    let bare = || command(path(SHARED_CONTEXT_SERVER_BINARY), Vec::new());
    let mut kept = vec![
        settings_with(true, true, bare()),
        settings_with(true, false, ContextServerCommand { timeout: Some(5), ..bare() }),
        settings_with(
            true,
            false,
            ContextServerCommand { env: Some(vec![("A".into(), "b".into())]), ..bare() },
        ),
        settings_with(true, false, command(path("/usr/bin/shared-context-mcp"), Vec::new())),
        settings_with(true, false, command(path("other"), Vec::new())),
    ];
    for settings in &mut kept {
        let text = stdio(settings).path.text.clone();
        assert!(!ensure_shared_context_server(settings, &server_path, "/db"));
        assert_eq!(stdio(settings).path.text, text);
    }
    // Our own path, written in another way and without a database, is legacy.
    let mut ours = settings_with(
        true,
        false,
        ContextServerCommand {
            env: Some(Vec::new()),
            ..command(path("/opt//zed/./shared-context-mcp"), Vec::new())
        },
    );
    assert!(ensure_shared_context_server(&mut ours, &server_path, "/db"));
    assert_eq!(stdio(&ours).path.text, "/opt/zed/shared-context-mcp");
}

#[test]
fn other_entries_stay_as_they_are() {
    let other = |id: &str, url: &str| (id.to_string(), ContextServerSettings::Other(url.into()));
    let is_other = |entry: &(String, ContextServerSettings), id: &str, url: &str| {
        matches!(entry, (name, ContextServerSettings::Other(at)) if name == id && at == url)
    };
    let server = path("/s/shared-context-mcp");
    // An entry of the user's own that is not started by a command is kept.
    let mut settings = ProjectSettings {
        context_servers: vec![
            other("a", "http://a"),
            other(SHARED_CONTEXT_SERVER_ID, "http://b"),
            other("c", "http://c"),
        ],
    };
    assert!(!ensure_shared_context_server(&mut settings, &server, "/db"));
    assert_eq!(settings.context_servers.len(), 3);
    assert!(is_other(&settings.context_servers[1], SHARED_CONTEXT_SERVER_ID, "http://b"));

    let mut settings =
        ProjectSettings { context_servers: vec![other("a", "http://a"), other("c", "http://c")] };
    assert!(ensure_shared_context_server(&mut settings, &server, "/db"));
    assert_eq!(settings.context_servers.len(), 3);
    assert_eq!(stdio(&settings).path.text, "/s/shared-context-mcp");
    assert!(is_other(&settings.context_servers[0], "a", "http://a"));
    assert!(is_other(&settings.context_servers[1], "c", "http://c"));
}

#[test]
fn settings_are_not_touched_without_the_binary() {
    let mut empty = ProjectSettings { context_servers: Vec::new() };
    assert_eq!(
        register_shared_context_server(&mut empty, None, "/db"),
        Registration::MissingBinary
    );
    assert!(empty.context_servers.is_empty());
    let mut custom = settings_with(true, false, command(path("mine"), Vec::new()));
    assert_eq!(
        register_shared_context_server(&mut custom, None, "/db"),
        Registration::Unchanged
    );
    let server = path("/s/shared-context-mcp");
    assert_eq!(
        register_shared_context_server(&mut empty, Some(&server), "/db"),
        Registration::Registered
    );
    assert_eq!(
        register_shared_context_server(&mut empty, Some(&server), "/db"),
        Registration::Unchanged
    );
}

#[test]
fn the_first_binary_that_exists_is_used() {
    let candidate = |text, exists| Some(Candidate { path: path(text), exists });
    let found = |a: &Option<Candidate>, b: &Option<Candidate>, c: &Option<Candidate>| {
        shared_context_server_path(a, b, c).map(|path| path.text)
    };
    let bundled = candidate("/b/shared-context-mcp", true);
    let beside = candidate("/a/shared-context-mcp", true);
    let below = candidate("/a/bin/shared-context-mcp", true);
    let missing = candidate("/c/shared-context-mcp", false);
    assert_eq!(found(&bundled, &beside, &below).unwrap(), "/b/shared-context-mcp");
    assert_eq!(found(&missing, &beside, &below).unwrap(), "/a/shared-context-mcp");
    assert_eq!(found(&None, &missing, &below).unwrap(), "/a/bin/shared-context-mcp");
    assert_eq!(found(&missing, &missing, &missing), None);
    assert_eq!(found(&None, &None, &None), None);
}

#[test]
fn mission_prompt_carries_the_identity_and_role() {
    let mission = mission("Ship the feature");
    let prompt = mission_prompt(&mission, "coding");
    assert!(prompt.contains(&mission.id.to_key_string()));
    assert!(prompt.contains("title: Ship the feature"));
    assert!(prompt.contains("role: coding"));
    assert!(prompt.contains("get_mission_context"));
    assert!(prompt.contains("Pass role: 'coding'"));
    assert!(!prompt.contains('\\'));
    assert!(prompt.starts_with("<zed-mission-context>\nmission_id: 2f3d9b0e-"));
    assert!(prompt.ends_with("\"\n</zed-mission-context>"));
    assert_eq!(prompt.lines().count(), 6);
}

#[test]
fn roles_differ_in_more_than_case_and_space() {
    assert_eq!(normalized_role("  Coding\n"), "coding");
    assert_eq!(normalized_role("ÄRA"), "ära");
    let spec = |role: &str| MissionThreadSpec { agent: Agent::NativeAgent, role: role.into() };
    let id = MissionId { value: 1 };
    let threads = vec![
        worker(1, Some(id), Some(" Review ")),
        worker(2, Some(MissionId { value: 2 }), Some("testing")),
        worker(3, Some(id), None),
    ];
    assert_eq!(duplicate_role(&vec![spec("a"), spec("b")], None, &threads), None);
    assert_eq!(
        duplicate_role(&vec![spec("a"), spec("b"), spec("A"), spec("B")], None, &threads).as_deref(),
        Some("A")
    );
    assert_eq!(
        duplicate_role(&vec![spec("coding"), spec("review")], Some(id), &threads).as_deref(),
        Some("review")
    );
    assert_eq!(duplicate_role(&vec![spec("review")], None, &threads), None);
    assert_eq!(duplicate_role(&vec![spec("testing")], Some(id), &threads), None);
}

fn agents() -> Vec<ExternalAgent> {
    vec![
        ExternalAgent { id: "codex".into(), display_name: Some("Codex CLI".into()) },
        ExternalAgent { id: "gemini".into(), display_name: None },
    ]
}

#[test]
fn the_dialog_opens_with_our_own_agent_chosen() {
    let modal = show_create_mission_modal(true, &agents()).unwrap();
    let rows: Vec<(&str, &str, bool)> = modal
        .agents
        .iter()
        .map(|entry| (entry.label.as_str(), entry.role_text.as_str(), entry.selected))
        .collect();
    assert_eq!(
        rows,
        vec![
            ("Zed Agent", "Zed Agent", true),
            ("Codex CLI", "Codex CLI", false),
            ("gemini", "gemini", false),
        ]
    );
    assert!(show_create_mission_modal(false, &agents()).is_none());
    let adding = add_worker_to_mission(mission("Ship it"), true, &agents()).unwrap();
    assert_eq!(adding.title_text, "Ship it");
    assert!(adding.title_read_only);
    assert!(add_worker_to_mission(mission("Ship it"), false, &agents()).is_none());
}

#[test]
fn the_focus_wraps_around() {
    let mut modal = MissionOrchestratorModal::new(None, &agents());
    modal.select_previous();
    assert_eq!(modal.selected_index, Some(2));
    modal.select_next();
    assert_eq!(modal.selected_index, Some(0));
    modal.select_next();
    assert_eq!(modal.selected_index, Some(1));
    modal.confirm_selection();
    assert!(modal.agents[1].selected);
    modal.confirm_selection();
    assert!(!modal.agents[1].selected);
    modal.toggle_selected_agent(9);
    modal.selected_index = None;
    modal.confirm_selection();
    modal.select_previous();
    assert_eq!(modal.selected_index, Some(2));
}

#[test]
fn the_dialog_says_what_is_wrong() {
    let mut modal = MissionOrchestratorModal::new(None, &agents());
    modal.title_text = "  ".into();
    assert!(modal.create_mission(&Vec::new()).is_none());
    assert_eq!(modal.error.as_deref(), Some("Enter a Mission title."));

    modal.title_text = " Ship it ".into();
    modal.agents[0].role_text = " ".into();
    assert!(modal.create_mission(&Vec::new()).is_none());
    assert_eq!(
        modal.error.as_deref(),
        Some("Select at least one Harness and provide a role.")
    );

    modal.agents[0].role_text = " Coding ".into();
    modal.agents[1].selected = true;
    modal.agents[1].role_text = "coding".into();
    assert!(modal.create_mission(&Vec::new()).is_none());
    assert_eq!(
        modal.error.as_deref(),
        Some("\"coding\" is already a role in this Mission. Roles must be unique.")
    );
    assert!(!modal.creating);

    modal.agents[1].role_text = "testing".into();
    let plan = modal.create_mission(&Vec::new()).unwrap();
    assert_eq!(plan.title, "Ship it");
    assert!(plan.existing_mission.is_none());
    let roles: Vec<&str> = plan.specs.iter().map(|spec| spec.role.as_str()).collect();
    assert_eq!(roles, vec!["Coding", "testing"]);
    assert!(modal.creating);
    assert_eq!(modal.error, None);
    // Busy: nothing happens.
    assert!(modal.create_mission(&Vec::new()).is_none());
    modal.toggle_selected_agent(0);
    assert!(modal.agents[0].selected);
}

#[test]
fn a_worker_cannot_be_added_under_a_role_that_is_taken() {
    let existing = mission("Ship it");
    let threads = vec![worker(1, Some(existing.id), Some("ZED AGENT"))];
    let mut modal = MissionOrchestratorModal::new(Some(existing), &agents());
    modal.title_text = String::new();
    assert!(modal.create_mission(&threads).is_none());
    assert_eq!(
        modal.error.as_deref(),
        Some("\"Zed Agent\" is already a role in this Mission. Roles must be unique.")
    );
    // The title of a mission that exists is of no account.
    assert!(modal.create_mission(&Vec::new()).is_some());
}

#[test]
fn failures_end_the_creation() {
    let mut modal = MissionOrchestratorModal::new(None, &agents());
    modal.creating = true;
    assert!(modal.settings_updated(SettingsOutcome::Written));
    assert!(modal.creating);
    assert!(!modal.settings_updated(SettingsOutcome::Failed("no space".into())));
    assert_eq!(modal.error.as_deref(), Some("Could not create Mission: no space"));
    assert!(!modal.creating);
    assert!(!modal.settings_updated(SettingsOutcome::Canceled("oneshot canceled".into())));
    assert_eq!(
        modal.error.as_deref(),
        Some("Could not create Mission: Could not update Mission settings: oneshot canceled")
    );
    modal.creating = true;
    assert!(modal.mission_created(Err("locked".into())).is_none());
    assert_eq!(modal.error.as_deref(), Some("Could not create Mission: locked"));
    assert!(!modal.creating);
    assert_eq!(modal.mission_created(Ok(mission("m"))).unwrap().title, "m");
}

#[test]
fn each_worker_gets_a_thread_with_its_prompt() {
    let mission = mission("Ship it");
    let mut modal = MissionOrchestratorModal::new(None, &agents());
    modal.agents[2].selected = true;
    let specs = selected_thread_specs(&modal.agents);
    let requests = worker_requests(&mission, &specs);
    assert_eq!(requests.len(), 2);
    assert!(matches!(requests[0].agent, Agent::NativeAgent));
    assert!(matches!(&requests[1].agent, Agent::Custom { id } if id == "gemini"));
    assert_eq!(requests[1].role, "gemini");
    assert_eq!(requests[1].title, "Ship it");
    assert!(requests[1].auto_submit);
    assert_eq!(requests[1].mission_id, mission.id);
    assert_eq!(requests[1].prompt, mission_prompt(&mission, "gemini"));
}

#[test]
fn the_dialog_shows_its_rows() {
    let mut modal = MissionOrchestratorModal::new(None, &agents());
    modal.select_next();
    let view = modal.render();
    assert_eq!(view.headline, "Create Mission");
    assert_eq!(view.button, "Create Mission");
    assert_eq!(view.description, "Choose the Harnesses and roles for this Mission.");
    let rows: Vec<(bool, bool)> = view.rows.iter().map(|row| (row.checked, row.focused)).collect();
    assert_eq!(rows, vec![(true, false), (false, true), (false, false)]);
    assert!(!view.button_disabled && !view.button_loading);

    let mut adding = MissionOrchestratorModal::new(Some(mission("m")), &agents());
    adding.creating = true;
    let view = adding.render();
    assert_eq!(view.headline, "Add Worker");
    assert_eq!(view.description, "Choose the Harnesses and roles to add to this Mission.");
    assert!(view.button_disabled && view.button_loading);
}
