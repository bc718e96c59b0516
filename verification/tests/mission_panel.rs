use missions::mission_changes::change_author_count;
use missions::mission_changes::merge_worker_changes;
use missions::mission_changes::mission_counts;
use missions::mission_changes::WorkerFileChange;
use missions::mission_id::MissionId;
use missions::mission_orchestrator::MissionState;
use missions::mission_orchestrator::MissionThreadState;
use missions::mission_panel::evidence_is_stale;
use missions::mission_panel::mission_context_state_from_result;
use missions::mission_panel::mission_state_color;
use missions::mission_panel::relative_time;
use missions::mission_panel::render_changes;
use missions::mission_panel::render_human_row;
use missions::mission_panel::render_summary;
use missions::mission_panel::send_to_worker_view;
use missions::mission_panel::Delegation;
use missions::mission_panel::Delivery;
use missions::mission_panel::DockPosition;
use missions::mission_panel::MissionContextState;
use missions::mission_panel::MissionPanel;
use missions::mission_panel::SharedContextSection;
use missions::mission_snapshot::initials;
use missions::mission_snapshot::mission_snapshot;
use missions::mission_snapshot::MissionSnapshot;
use missions::mission_snapshot::User;
use missions::mission_snapshot::WorkspaceState;
use missions::mission_tree::build_mission_tree;
use missions::mission_views::SharedContextView;
use missions::shared_context::Artifact;
use missions::shared_context::Decision;
use missions::shared_context::Evidence;
use missions::shared_context::MissionContext;
use missions::thread::worker_label;
use missions::thread::AssistantMessage;
use missions::thread::ChangedFile;
use missions::thread::Mission;
use missions::thread::PermissionOption;
use missions::thread::PermissionOptionKind;
use missions::thread::Thread;
use missions::thread::ThreadEntry;
use missions::thread::ThreadId;
use missions::thread::ThreadMetadata;
use missions::thread::ThreadStatus;
use missions::thread::ToolCall;
use missions::thread::ToolCallStatus;
use missions::thread::ToolKind;
use missions::thread::WorkerSource;
use missions::time::Timestamp;
use missions::token_count::format_token_count;
use missions::ui::Color;
use missions::worker_dashboard::Deployment;
use missions::worker_dashboard::WorkerDashboard;

fn at(seconds: i64) -> Timestamp {
    Timestamp { seconds, nanos: 0 }
}

fn mission(id: u128, title: &str) -> Mission {
    Mission { id: MissionId { value: id }, title: title.to_string(), created_at: at(0) }
}

fn thread_with_mission(id: u128, mission_id: Option<MissionId>, role: Option<&str>) -> ThreadMetadata {
    ThreadMetadata {
        thread_id: ThreadId { value: id },
        agent_id: "Test".into(),
        display_title: "A thread".into(),
        mission_id,
        role: role.map(|role| role.to_string()),
    }
}

fn change(worker: &str, name: &str, added: u32, removed: u32) -> WorkerFileChange {
    WorkerFileChange {
        worker: worker.into(),
        name: name.to_string(),
        lines_added: added,
        lines_removed: removed,
    }
}

fn thread(entries: Vec<ThreadEntry>) -> Thread {
    Thread {
        entries,
        status: ThreadStatus::Idle,
        had_error: false,
        waiting_for_confirmation: false,
        is_draft: false,
        used_tokens: None,
        cost: None,
        changes: Vec::new(),
        queued_messages: 0,
    }
}

fn source(metadata: ThreadMetadata, thread: Option<Thread>) -> WorkerSource {
    WorkerSource { metadata, thread, display_name: None, agent_label: "Test agent".into() }
}

fn file(name: &str, added: u32, removed: u32) -> ChangedFile {
    ChangedFile { name: name.into(), lines_added: added, lines_removed: removed }
}

fn call(id: &str, label: &str, status: ToolCallStatus) -> ThreadEntry {
    ThreadEntry::ToolCall(ToolCall {
        id: id.into(),
        label: label.into(),
        kind: ToolKind::Execute,
        status,
        content: Vec::new(),
        locations: vec!["a.rs".into()],
    })
}

fn waiting() -> ToolCallStatus {
    ToolCallStatus::WaitingForConfirmation(vec![
        PermissionOption { option_id: "always".into(), kind: PermissionOptionKind::AllowAlways },
        PermissionOption { option_id: "yes".into(), kind: PermissionOptionKind::AllowOnce },
        PermissionOption { option_id: "yes2".into(), kind: PermissionOptionKind::AllowOnce },
        PermissionOption { option_id: "no".into(), kind: PermissionOptionKind::RejectOnce },
    ])
}

fn message(markdown: &str) -> ThreadEntry {
    ThreadEntry::AssistantMessage(AssistantMessage {
        markdown: markdown.into(),
        chunks: Vec::new(),
    })
}

fn names(tree: &[missions::mission_changes::MissionChange]) -> Vec<&str> {
    tree.iter().map(|change| change.name.as_str()).collect()
}

#[test]
fn one_worker_per_file_is_never_contended() {
    let merged = merge_worker_changes(&vec![
        change("Implementation", "mission_panel.rs", 142, 31),
        change("Test", "thread_metadata_store.rs", 34, 8),
    ]);

    assert_eq!(merged.len(), 2);
    assert!(merged.iter().all(|change| !change.is_contended()));
    // Sorted by name, so the panel doesn't reshuffle between renders.
    assert_eq!(merged[0].name, "mission_panel.rs");
    assert_eq!(merged[1].name, "thread_metadata_store.rs");
}

#[test]
fn two_workers_on_one_file_contend_and_their_line_counts_sum() {
    let merged = merge_worker_changes(&vec![
        change("Implementation", "mission_panel.rs", 142, 31),
        change("Review", "mission_panel.rs", 8, 2),
        change("Review", "shared_context.rs", 21, 6),
    ]);

    assert_eq!(merged.len(), 2);
    let contended = &merged[0];
    assert_eq!(contended.name, "mission_panel.rs");
    assert!(contended.is_contended());
    assert_eq!(contended.workers, vec!["Implementation", "Review"]);
    assert_eq!(contended.lines_added, 150);
    assert_eq!(contended.lines_removed, 33);
    assert!(!merged[1].is_contended());
}

#[test]
fn a_worker_editing_one_file_twice_is_still_a_single_author() {
    let merged = merge_worker_changes(&vec![
        change("Implementation", "mission_panel.rs", 10, 1),
        change("Implementation", "mission_panel.rs", 5, 2),
    ]);

    assert_eq!(merged.len(), 1);
    assert!(!merged[0].is_contended());
    assert_eq!(merged[0].workers, vec!["Implementation"]);
    assert_eq!(merged[0].lines_added, 15);
}

#[test]
fn the_author_count_counts_workers_not_files() {
    let merged = merge_worker_changes(&vec![
        change("Implementation", "mission_panel.rs", 10, 1),
        change("Implementation", "shared_context.rs", 5, 2),
        change("Review", "mission_panel.rs", 1, 1),
    ]);

    assert_eq!(merged.len(), 2);
    assert_eq!(change_author_count(&merged), 2);
    assert_eq!(change_author_count(&Vec::new()), 0);
}

#[test]
fn the_list_of_files_is_the_same_in_any_order() {
    let a = merge_worker_changes(&vec![
        change("X", "b", 1, 0),
        change("Y", "a", 2, 0),
        change("X", "B", 3, 0),
        change("Y", "ab", 4, 0),
    ]);
    let b = merge_worker_changes(&vec![
        change("Y", "ab", 4, 0),
        change("X", "B", 3, 0),
        change("Y", "a", 2, 0),
        change("X", "b", 1, 0),
    ]);
    assert_eq!(names(&a), vec!["B", "a", "ab", "b"]);
    assert_eq!(names(&a), names(&b));
    assert_eq!(
        a.iter().map(|c| c.lines_added).collect::<Vec<_>>(),
        b.iter().map(|c| c.lines_added).collect::<Vec<_>>()
    );
}

#[test]
fn worker_label_prefers_the_mission_role_over_the_thread_title() {
    let with_role = thread_with_mission(1, Some(MissionId { value: 1 }), Some("Review"));
    assert_eq!(worker_label(&with_role), "Review");

    let without_role = thread_with_mission(2, Some(MissionId { value: 1 }), None);
    assert_eq!(worker_label(&without_role), without_role.display_title);
}

#[test]
fn only_a_worker_waiting_on_the_user_counts_as_blocked() {
    let counts = mission_counts(&[
        MissionThreadState::Running,
        MissionThreadState::Waiting,
        MissionThreadState::Completed,
        MissionThreadState::Failed,
    ]);

    assert_eq!(counts.agents, 4);
    // A failed worker needs attention, but it isn't blocking on the user the way a pending
    // permission is.
    assert_eq!(counts.blocked, 1);
    assert_eq!(counts.running, 1);
}

#[test]
fn token_counts_stay_compact_enough_for_a_sidebar_row() {
    assert_eq!(format_token_count(938), "938");
    assert_eq!(format_token_count(42_100), "42.1k");
    assert_eq!(format_token_count(1_500_000), "1.5M");
}

fn by_floats(tokens: u64) -> String {
    if tokens >= 1_000_000 {
        format!("{:.1}M", tokens as f64 / 1_000_000.0)
    } else if tokens >= 1_000 {
        format!("{:.1}k", tokens as f64 / 1_000.0)
    } else {
        tokens.to_string()
    }
}

#[test]
fn thousands_are_rounded_as_floating_point_rounds_them() {
    let mut tokens: u64 = 0;
    while tokens < 1_000_000 {
        assert_eq!(format_token_count(tokens), by_floats(tokens), "{}", tokens);
        // Every count halfway between two decimals, and others between.
        tokens += if tokens % 50 == 0 { 1 } else { 49 };
    }
}

#[test]
fn millions_are_rounded_as_floating_point_rounds_them() {
    let mut tokens: u64 = 1_000_000;
    while tokens < 3_000_000_000 {
        for count in [tokens - 1, tokens, tokens + 1] {
            assert_eq!(format_token_count(count), by_floats(count), "{}", count);
        }
        tokens += 1_050_000;
    }
    for count in [999_949, 999_950, 999_999, 1_050_000, 1_150_000, 1_250_000, 1_350_000] {
        assert_eq!(format_token_count(count), by_floats(count), "{}", count);
    }
}

#[test]
fn huge_counts_are_rounded_as_floating_point_rounds_them() {
    let mut state: u64 = 0x9e37_79b9_7f4a_7c15;
    for _ in 0..20_000 {
        state ^= state << 13;
        state ^= state >> 7;
        state ^= state << 17;
        for shift in [0u32, 1, 2, 5, 9, 10, 11, 12, 20, 33] {
            let count = state >> shift;
            assert_eq!(format_token_count(count), by_floats(count), "{}", count);
        }
        let halfway = (state / 100_000) * 100_000 + 50_000;
        assert_eq!(format_token_count(halfway), by_floats(halfway), "{}", halfway);
    }
    for count in [u64::MAX, u64::MAX - 1, 1 << 53, (1 << 53) + 1, (1 << 53) + 3, 1 << 63] {
        assert_eq!(format_token_count(count), by_floats(count), "{}", count);
    }
}

#[test]
fn evidence_recorded_before_the_last_edit_is_stale() {
    let later = at(1_700_000_000);
    let earlier = at(1_700_000_000 - 10 * 60);

    assert!(evidence_is_stale(earlier, Some(later)));
    assert!(!evidence_is_stale(later, Some(earlier)));
    // Nothing has been edited since, so the command still proves what it claimed to prove.
    assert!(!evidence_is_stale(earlier, None));
    assert!(!evidence_is_stale(earlier, Some(earlier)));
}

#[test]
fn avatar_initials_handle_single_and_multi_word_names() {
    assert_eq!(initials("Huaodong Deng"), "HD");
    assert_eq!(initials("huaodong"), "HU");
    assert_eq!(initials(""), "?");
    assert_eq!(initials("   "), "?");
    assert_eq!(initials(" x "), "X");
    assert_eq!(initials("ada\tlovelace byron"), "AL");
    // One character for each letter, whatever its upper case is.
    assert_eq!(initials("ßa"), "SA");
    assert_eq!(initials("ß"), "S");
    assert_eq!(initials("ﬃ ßx third"), "FS");
    assert_eq!(initials("éa"), "ÉA");
}

#[test]
fn groups_threads_by_mission_and_keeps_ungrouped_threads() {
    let mission_a = mission(1, "Ship the feature");
    let mission_b = mission(2, "Fix the bug");

    let thread_a1 = thread_with_mission(11, Some(mission_a.id), Some("coding"));
    let thread_a2 = thread_with_mission(12, Some(mission_a.id), Some("testing"));
    let thread_b1 = thread_with_mission(13, Some(mission_b.id), None);
    let thread_unassigned = thread_with_mission(14, None, None);

    let tree = build_mission_tree(
        &vec![mission_a.clone(), mission_b.clone()],
        &vec![
            thread_a1.clone(),
            thread_unassigned.clone(),
            thread_a2.clone(),
            thread_b1.clone(),
        ],
    );

    assert_eq!(tree.groups.len(), 2);
    let group_a = tree.groups.iter().find(|group| group.mission.id == mission_a.id).unwrap();
    assert_eq!(
        group_a.threads.iter().map(|t| t.thread_id).collect::<Vec<_>>(),
        vec![thread_a1.thread_id, thread_a2.thread_id]
    );
    let group_b = tree.groups.iter().find(|group| group.mission.id == mission_b.id).unwrap();
    assert_eq!(
        group_b.threads.iter().map(|t| t.thread_id).collect::<Vec<_>>(),
        vec![thread_b1.thread_id]
    );

    assert_eq!(tree.ungrouped.len(), 1);
    assert_eq!(tree.ungrouped[0].thread_id, thread_unassigned.thread_id);
}

#[test]
fn threads_with_unknown_mission_id_fall_back_to_ungrouped() {
    let known_mission = mission(1, "Known");
    let stale_mission_id = MissionId { value: 9 };
    let thread_stale = thread_with_mission(11, Some(stale_mission_id), None);

    let tree = build_mission_tree(&vec![known_mission], &vec![thread_stale.clone()]);

    assert_eq!(tree.groups.len(), 1);
    assert!(tree.groups[0].threads.is_empty());
    assert_eq!(tree.ungrouped.len(), 1);
    assert_eq!(tree.ungrouped[0].thread_id, thread_stale.thread_id);
}

#[test]
fn no_thread_is_lost_in_the_tree() {
    let id = |value| Some(MissionId { value });
    let threads = vec![
        thread_with_mission(1, id(7), None),
        thread_with_mission(2, id(8), None),
        thread_with_mission(3, None, None),
        thread_with_mission(4, id(7), None),
        thread_with_mission(5, id(1), None),
    ];
    // A mission that is listed twice keeps its threads once.
    let tree = build_mission_tree(&vec![mission(1, "a"), mission(1, "b")], &threads);
    assert_eq!(tree.groups[0].threads.len(), 1);
    assert_eq!(tree.groups[1].threads.len(), 0);
    let ungrouped: Vec<u128> = tree.ungrouped.iter().map(|t| t.thread_id.value).collect();
    assert_eq!(ungrouped, vec![3, 1, 4, 2]);
}

fn context(decisions: Vec<Decision>, artifacts: Vec<Artifact>, evidence: Vec<Evidence>) -> MissionContext {
    MissionContext { mission_id: "some-id".to_string(), decisions, artifacts, evidence }
}

#[test]
fn empty_mission_context_is_not_reported_as_an_error() {
    assert!(matches!(
        mission_context_state_from_result(Some(Ok(context(vec![], vec![], vec![])))),
        MissionContextState::Empty
    ));
    assert!(matches!(
        mission_context_state_from_result(Some(Err("boom".to_string()))),
        MissionContextState::Unavailable
    ));
    assert!(matches!(
        mission_context_state_from_result(None),
        MissionContextState::Unavailable
    ));
}

fn decision(key: &str, author: &str, role: Option<&str>, time: i64) -> Decision {
    Decision {
        key: key.into(),
        value: format!("{key}!"),
        author: author.into(),
        role: role.map(str::to_string),
        created_at: at(time),
    }
}

fn artifact(path: &str, time: i64) -> Artifact {
    Artifact {
        path: path.into(),
        change_summary: "Edited".into(),
        author: "zed-observer".into(),
        role: None,
        created_at: at(time),
    }
}

fn evidence(command: &str, exit_code: Option<i32>, time: i64) -> Evidence {
    Evidence {
        command: command.into(),
        result: "ok".into(),
        exit_code,
        author: "zed-observer".into(),
        role: Some("coding".into()),
        created_at: at(time),
    }
}

/// A panel that shows a mission with two workers.
fn setup() -> (MissionPanel, Mission, WorkspaceState) {
    let mission = mission(5, "Agent Workspace UI");
    let a = thread_with_mission(1, Some(mission.id), Some("Implementation"));
    let b = thread_with_mission(2, Some(mission.id), Some("Review"));
    let mut panel = MissionPanel::new();
    let key = panel.missions_loaded(&vec![mission.clone()], &vec![a.clone(), b.clone()], true);
    assert_eq!(key, Some(mission.id.to_key_string()));
    let workspace = WorkspaceState {
        sources: vec![source(a, Some(thread(vec![]))), source(b, None)],
        user: None,
    };
    (panel, mission, workspace)
}

#[test]
fn the_sidebar_selects_a_mission_and_renders_its_workers() {
    let (panel, mission, workspace) = setup();

    assert_eq!(panel.selected_mission, Some(mission.id));
    let snapshot = panel.snapshot(Some(&workspace));
    let mut labels: Vec<_> = snapshot.workers.iter().map(|w| w.label.to_string()).collect();
    labels.sort();
    assert_eq!(labels, vec!["Implementation", "Review"]);
    // Nobody is blocked and nothing is contended, so the user's row has no badge.
    assert_eq!(snapshot.human.to_review, 0);

    let workers = panel.render_workers(&snapshot);
    assert_eq!(workers.rows.len(), 2);
    assert_eq!(workers.rows[0].subtitle, "Test agent");
    assert_eq!(workers.rows[0].status.text, "Not started");
    assert!(workers.human.to_review.is_none());
    assert_eq!(workers.human.name, "You");
    assert!(workers.empty.is_none());
    let page = panel.render(&snapshot, Some(&workspace.sources));
    assert_eq!(page.footer.label, "Past missions");
    assert!(page.changes.is_none() && page.new_task.is_none());
    let header = page.header;
    assert_eq!(header.title, "Agent Workspace UI");
    assert_eq!(header.indicator, Color::Muted);
    assert!(header.missions[0].selected);
    assert_eq!(header.ungrouped, None);
}

#[test]
fn the_new_task_popover_renders_over_the_sidebar() {
    let (mut panel, _mission, workspace) = setup();
    let snapshot = panel.snapshot(Some(&workspace));
    assert!(panel.render_new_task_popover(&snapshot).is_none());

    assert!(panel.toggle_new_task());
    assert!(panel.new_task_open);
    let popover = panel.render_new_task_popover(&snapshot).unwrap();
    let labels: Vec<&str> = popover.assignees.iter().map(|a| a.label.as_str()).collect();
    assert_eq!(labels, vec!["Implementation", "Review"]);
    assert_eq!(popover.human_name, "You");
    assert_eq!(panel.render_header(&snapshot, None).new_task_color, Color::Accent);

    assert!(panel.dismiss_new_task());
    assert!(!panel.dismiss_new_task());
}

#[test]
fn opening_a_worker_renders_its_dashboard() {
    let (panel, mission, workspace) = setup();
    let worker = &panel.snapshot(Some(&workspace)).workers[0].metadata;
    let opened = panel.mission_to_open(true).unwrap();
    assert_eq!(opened.id, mission.id);
    assert!(panel.mission_to_open(false).is_none());
    assert_eq!(WorkerDashboard::deploy(&Vec::new(), worker.thread_id), Deployment::Open);
    assert_eq!(
        WorkerDashboard::deploy(&vec![ThreadId { value: 9 }, worker.thread_id], worker.thread_id),
        Deployment::Activate(1)
    );
    let dashboard = WorkerDashboard::new(opened.id, opened.title, worker);
    assert_eq!(dashboard.role, "Implementation");
    let page = dashboard.render(&workspace.sources[0].thread, &None, &Vec::new(), false);
    assert_eq!(page.header.mission, "sub-session of Agent Workspace UI");
    assert_eq!(page.notice, Some("Nothing in flight right now"));
    assert!(page.composer.is_some());
}

#[test]
fn the_mission_tabs_render() {
    let (panel, mission, workspace) = setup();
    let snapshot = panel.snapshot(Some(&workspace));
    assert_eq!(SharedContextView::deploy(&Vec::new(), mission.id), Deployment::Open);
    let shared = SharedContextView::new(mission.clone()).render(&snapshot);
    assert_eq!(
        shared.subtitle,
        "· mission 00000000 · written by 2 workers · read by all"
    );
    assert_eq!(shared.subscribers, vec!["Implementation", "Review"]);
    let evidence = missions::mission_views::EvidenceView::new(mission.clone());
    assert_eq!(evidence.render(&snapshot.workers).counts, "0 passing · 0 stale");
    let queue = missions::mission_views::MissionQueueView::new(mission);
    let page = queue.render(&snapshot, &None);
    assert_eq!(page.nothing, Some("Nothing is waiting on you right now."));
    assert_eq!(page.asked_header.meta.as_deref(), Some("0"));
}

#[test]
fn clicking_a_thread_row_reuses_load_agent_thread_instead_of_creating_one() {
    let (mut panel, _mission, _workspace) = setup();
    let threads = panel.tree.groups[0].threads.len();
    panel.activate_thread(ThreadId { value: 1 });
    assert_eq!(panel.selected_thread, Some(ThreadId { value: 1 }));
    assert_eq!(panel.tree.groups[0].threads.len(), threads);
}

#[test]
fn the_selection_follows_the_missions() {
    let mut panel = MissionPanel::new();
    assert_eq!(panel.missions_loaded(&Vec::new(), &Vec::new(), true), None);
    assert_eq!(panel.selected_mission, None);
    let list = vec![mission(1, "a"), mission(2, "b")];
    panel.missions_loaded(&list, &Vec::new(), true);
    assert_eq!(panel.selected_mission, Some(MissionId { value: 1 }));
    assert!(matches!(panel.context_state, MissionContextState::Loading));
    panel.toggle_new_task();
    let key = panel.select_mission(MissionId { value: 2 }, true);
    assert_eq!(key.unwrap(), "00000000-0000-0000-0000-000000000002");
    assert!(!panel.new_task_open);
    panel.context_loaded(Some(Ok(context(vec![], vec![], vec![]))));
    assert!(matches!(panel.context_state, MissionContextState::Empty));
    // Kept while it is there, with its context.
    assert_eq!(panel.missions_loaded(&list, &Vec::new(), true), None);
    assert_eq!(panel.selected_mission, Some(MissionId { value: 2 }));
    assert!(matches!(panel.context_state, MissionContextState::Empty));
    // Gone: the first one is shown.
    panel.missions_loaded(&vec![mission(3, "c")], &Vec::new(), false);
    assert_eq!(panel.selected_mission, Some(MissionId { value: 3 }));
    assert!(matches!(panel.context_state, MissionContextState::Unavailable));
    panel.missions_loaded(&Vec::new(), &Vec::new(), true);
    assert_eq!(panel.selected_mission, None);
    assert!(matches!(panel.context_state, MissionContextState::NoSelection));
    assert!(panel.snapshot(None).mission.is_none());
}

#[test]
fn a_refresh_asks_for_the_selected_missions_context() {
    let mut panel = MissionPanel::for_workspace();
    assert_eq!(panel.refresh(true, true), None);
    panel.selected_mission = Some(MissionId { value: 1 });
    assert_eq!(panel.refresh(false, true), None);
    assert!(matches!(panel.context_state, MissionContextState::NoSelection));
    assert!(panel.refresh(true, true).is_some());
    assert!(matches!(panel.context_state, MissionContextState::Loading));
    assert_eq!(panel.refresh(true, false), None);
    assert!(matches!(panel.context_state, MissionContextState::Unavailable));
}

#[test]
fn a_hidden_dock_panel_stays_quiet() {
    let mut dock = MissionPanel::new();
    assert!(!dock.refreshes_on_store_change());
    assert!(dock.set_active(true));
    assert!(dock.refreshes_on_store_change());
    assert!(!dock.set_active(false));
    let mut sidebar = MissionPanel::for_workspace();
    assert!(sidebar.refreshes_on_store_change());
    sidebar.set_active(false);
    assert!(sidebar.refreshes_on_store_change());
    assert!(!dock.position_is_valid(DockPosition::Bottom));
    assert!(dock.position_is_valid(DockPosition::Right));
    dock.set_position(DockPosition::Right);
    assert_eq!(dock.position, DockPosition::Right);
}

#[test]
fn a_task_goes_to_a_loaded_worker() {
    let (mut panel, _mission, workspace) = setup();
    let snapshot = panel.snapshot(Some(&workspace));
    panel.new_task_open = true;
    panel.new_task_text = "  ".into();
    assert!(matches!(panel.delegate_task(&snapshot.workers[0]), Delegation::Nothing));
    assert!(panel.new_task_open);
    panel.new_task_text = " fix the build ".into();
    match panel.delegate_task(&snapshot.workers[1]) {
        Delegation::Open(metadata) => assert_eq!(metadata.thread_id, ThreadId { value: 2 }),
        _ => panic!("the worker is not loaded"),
    }
    assert_eq!(panel.new_task_text, " fix the build ");
    assert_eq!(panel.selected_thread, Some(ThreadId { value: 2 }));
    match panel.delegate_task(&snapshot.workers[0]) {
        Delegation::Send { thread_id, task } => {
            assert_eq!(thread_id, ThreadId { value: 1 });
            assert_eq!(task, "fix the build");
        }
        _ => panic!("the worker is loaded"),
    }
    assert_eq!(panel.new_task_text, "");
    assert!(!panel.new_task_open);
    panel.new_task_open = true;
    assert_eq!(panel.add_new_worker().unwrap().title, "Agent Workspace UI");
    assert!(!panel.new_task_open);
}

#[test]
fn only_loaded_workers_are_listened_to() {
    let (panel, _mission, _workspace) = setup();
    let loaded = vec![ThreadId { value: 2 }, ThreadId { value: 7 }];
    assert_eq!(panel.sync_worker_subscriptions(&loaded), vec![ThreadId { value: 2 }]);
    assert!(MissionPanel::new().sync_worker_subscriptions(&loaded).is_empty());
}

#[test]
fn messages_wait_for_a_turn_to_finish() {
    assert_eq!(send_to_worker_view(ThreadStatus::Idle), Delivery::Send);
    assert_eq!(send_to_worker_view(ThreadStatus::Generating), Delivery::Queue);
}

fn busy_workspace(id: MissionId) -> WorkspaceState {
    let mut blocked = thread(vec![
        ThreadEntry::UserMessage("go".into()),
        message("## Assistant\n\n  \n  I read the file.  \nAnd more."),
        call("t1", "Run `make`", waiting()),
    ]);
    blocked.waiting_for_confirmation = true;
    blocked.used_tokens = Some(42_100);
    blocked.cost = Some("0.25".into());
    blocked.changes = vec![file("a.rs", 1, 2), file("b.rs", 3, 4)];
    let mut running = thread(vec![
        ThreadEntry::UserMessage("go".into()),
        call("t2", "Read a.rs", ToolCallStatus::InProgress),
        call("t3", "done", ToolCallStatus::Completed),
    ]);
    running.status = ThreadStatus::Generating;
    running.used_tokens = Some(900);
    running.changes = vec![file("a.rs", 10, 20)];
    let mut first = source(thread_with_mission(1, Some(id), Some("coding")), Some(blocked));
    first.display_name = Some("Codex CLI".into());
    WorkspaceState {
        sources: vec![
            first,
            source(thread_with_mission(9, None, Some("other")), Some(thread(vec![]))),
            source(thread_with_mission(2, Some(id), Some("testing")), Some(running)),
            source(thread_with_mission(3, Some(id), None), None),
        ],
        user: Some(User {
            name: None,
            username: "ada lovelace".into(),
            avatar_uri: "https://a".into(),
        }),
    }
}

fn busy() -> (Mission, MissionSnapshot) {
    let mission = mission(5, "Ship it");
    let workspace = busy_workspace(mission.id);
    let snapshot = mission_snapshot(&mission, Some(&workspace));
    (mission, snapshot)
}

#[test]
fn a_snapshot_reads_every_worker() {
    let (_mission, snapshot) = busy();
    assert_eq!(snapshot.workers.len(), 3);
    let coding = &snapshot.workers[0];
    assert_eq!(coding.label, "coding");
    assert_eq!(coding.harness, "Codex CLI");
    assert_eq!(coding.activity.as_deref(), Some("awaiting approval"));
    assert_eq!(coding.state, MissionThreadState::Waiting);
    let permission = coding.permission.as_ref().unwrap();
    assert_eq!(permission.label, "Run `make`");
    assert_eq!(permission.tool_call_id, "t1");
    assert_eq!(permission.allow.as_ref().unwrap().option_id, "yes");
    assert_eq!(permission.reject.as_ref().unwrap().option_id, "no");
    assert_eq!(coding.summary.as_deref(), Some("I read the file."));
    let testing = &snapshot.workers[1];
    assert_eq!(testing.activity.as_deref(), Some("Read a.rs"));
    assert_eq!(testing.state, MissionThreadState::Running);
    assert_eq!(testing.summary, None);
    let unloaded = &snapshot.workers[2];
    assert_eq!(unloaded.label, "A thread");
    assert_eq!(unloaded.state, MissionThreadState::Created);
    assert!(!unloaded.thread_loaded);

    assert_eq!(names(&snapshot.changes), vec!["a.rs", "b.rs"]);
    assert_eq!(snapshot.changes[0].lines_added, 11);
    // One prompt and one contended file.
    assert_eq!(snapshot.human.to_review, 2);
    assert_eq!(snapshot.human.name, "ada lovelace");
    assert_eq!(snapshot.human.initials, "AL");
    assert_eq!(snapshot.total_tokens(), 43_000);
    assert_eq!(snapshot.blocked().len(), 1);
    assert_eq!(snapshot.contended().len(), 1);
    let counts = snapshot.counts();
    assert_eq!((counts.agents, counts.blocked, counts.running), (3, 1, 1));
}

#[test]
fn a_prompt_from_before_the_last_turn_does_not_block() {
    let mission = mission(5, "Ship it");
    let entries = vec![call("t1", "Run", waiting()), ThreadEntry::UserMessage("never mind".into())];
    let workspace = WorkspaceState {
        sources: vec![source(
            thread_with_mission(1, Some(mission.id), None),
            Some(thread(entries)),
        )],
        user: None,
    };
    let snapshot = mission_snapshot(&mission, Some(&workspace));
    assert!(snapshot.workers[0].permission.is_none());
    assert_eq!(snapshot.human.to_review, 0);
}

#[test]
fn without_a_workspace_there_is_only_the_mission() {
    let mission = mission(5, "Ship it");
    let snapshot = mission_snapshot(&mission, None);
    assert_eq!(snapshot.mission.unwrap().id, mission.id);
    assert!(snapshot.workers.is_empty() && snapshot.changes.is_empty());
    assert_eq!(snapshot.human.name, "You");
    assert_eq!(snapshot.human.initials, "YO");
}

#[test]
fn the_sidebar_sums_the_mission_up() {
    let (_mission, snapshot) = busy();
    let summary = render_summary(&snapshot);
    assert_eq!(summary.agents, "3 agents");
    assert_eq!(summary.blocked.unwrap().text, "1 blocked");
    let human = render_human_row(&snapshot.human);
    let badge = human.to_review.unwrap();
    assert_eq!((badge.text.as_str(), badge.color), ("2 to review", Color::Warning));

    let changes = render_changes(&snapshot).unwrap();
    assert_eq!(changes.header.meta.as_deref(), Some("2 files · 2 authors"));
    let row = &changes.rows[0];
    assert_eq!(row.tooltip, "Changed by coding and testing");
    assert!(row.contended);
    assert_eq!(row.added.text, "+11");
    assert_eq!(row.removed.text, "−22");
    assert_eq!(row.diff_thread, Some(ThreadId { value: 1 }));
    assert!(!changes.rows[1].contended);
    assert!(render_changes(&mission_snapshot(&mission(1, "m"), None)).is_none());
}

#[test]
fn the_header_shows_the_missions_state() {
    let shown = mission(5, "Ship it");
    let workspace = busy_workspace(shown.id);
    let mut panel = MissionPanel::new();
    let outside = thread_with_mission(9, None, None);
    panel.missions_loaded(&vec![mission(1, "Old"), shown.clone()], &vec![outside], true);
    panel.select_mission(shown.id, true);
    let snapshot = panel.snapshot(Some(&workspace));
    let header = panel.render_header(&snapshot, Some(&workspace.sources));
    assert_eq!(header.indicator, Color::Warning);
    assert_eq!(header.ungrouped.as_deref(), Some("1 threads outside any Mission"));
    let entries: Vec<(&str, bool)> =
        header.missions.iter().map(|entry| (entry.title.as_str(), entry.selected)).collect();
    assert_eq!(entries, vec![("Old", false), ("Ship it", true)]);
    assert_eq!(panel.render_header(&snapshot, None).indicator, Color::Muted);
    assert_eq!(panel.render_footer().count, "1");
    assert_eq!(MissionPanel::new().render_footer().count, "0");
    assert_eq!(
        MissionPanel::new().render_header(&MissionPanel::new().snapshot(None), None).title,
        "No Mission"
    );
    assert_eq!(mission_state_color(MissionState::Created), Color::Muted);
    assert_eq!(mission_state_color(MissionState::Running), Color::Info);
    assert_eq!(mission_state_color(MissionState::Completed), Color::Success);
    assert_eq!(mission_state_color(MissionState::Failed), Color::Error);
}

#[test]
fn the_sidebar_shows_the_latest_rows() {
    let mut panel = MissionPanel::new();
    let message = |panel: &MissionPanel| match panel.render_shared_context() {
        SharedContextSection::Message(section) => section.message,
        SharedContextSection::Trail { .. } => "trail",
    };
    assert_eq!(message(&panel), "Select a Mission.");
    panel.context_state = MissionContextState::Loading;
    assert_eq!(message(&panel), "Loading…");
    panel.context_state = MissionContextState::Unavailable;
    assert_eq!(message(&panel), "Shared context is unavailable.");
    panel.context_state = MissionContextState::Empty;
    assert_eq!(message(&panel), "Nothing recorded yet.");
    panel.context_state = MissionContextState::Populated(context(
        vec![
            decision("a", "codex", None, 1),
            decision("b", "codex", Some("coding"), 2),
            decision("c", "codex", None, 3),
            decision("d", "codex", Some("testing"), 4),
        ],
        vec![artifact("x", 5), artifact("y", 2)],
        vec![evidence("make", Some(0), 4), evidence("test", Some(1), 6)],
    ));
    match panel.render_shared_context() {
        SharedContextSection::Trail {
            decisions_title,
            decision_count,
            decisions,
            evidence_title,
            evidence_count,
            evidence,
            ..
        } => {
            assert_eq!(decisions_title, "Decisions");
            assert_eq!((evidence_title.english, evidence_title.chinese), ("Evidence", "验证证据"));
            assert_eq!(decision_count, "4");
            let lines: Vec<String> = decisions
                .iter()
                .map(|line| format!("{}: {}", line.value, line.byline("10m")))
                .collect();
            assert_eq!(
                lines,
                vec!["d!: testing · 10m ago", "c!: codex · 10m ago", "b!: coding · 10m ago"]
            );
            assert_eq!(evidence_count, "2");
            let lines: Vec<(String, String, Color)> = evidence
                .iter()
                .map(|line| {
                    let label = line.trailing("2h");
                    (line.command.clone(), label.text, label.color)
                })
                .collect();
            assert_eq!(
                lines,
                vec![
                    ("test".to_string(), "2h ago".to_string(), Color::Muted),
                    ("make".to_string(), "stale".to_string(), Color::Warning),
                ]
            );
        }
        SharedContextSection::Message(_) => panic!("there is a trail"),
    }
    assert_eq!(relative_time("10m"), "10m ago");
}
