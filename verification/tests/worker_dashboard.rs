use missions::mission_id::MissionId;
use missions::mission_orchestrator::Agent;
use missions::mission_orchestrator::MissionThreadState;
use missions::mission_panel::Delivery;
use missions::shared_context::Decision;
use missions::shared_context::Evidence;
use missions::shared_context::MissionContext;
use missions::thread::AssistantMessage;
use missions::thread::ChangedFile;
use missions::thread::MessageChunk;
use missions::thread::PermissionOption;
use missions::thread::PermissionOptionKind;
use missions::thread::Thread;
use missions::thread::ThreadEntry;
use missions::thread::ThreadId;
use missions::thread::ThreadMetadata;
use missions::thread::ThreadStatus;
use missions::thread::ToolCall;
use missions::thread::ToolCallStatus;
use missions::thread::ToolKind;
use missions::time::Timestamp;
use missions::ui::Color;
use missions::ui::IconName;
use missions::worker_dashboard::harness_icon;
use missions::worker_dashboard::worker_status;
use missions::worker_dashboard::AgentNames;
use missions::worker_dashboard::HandOff;
use missions::worker_dashboard::HarnessIcon;
use missions::worker_dashboard::RecordedLine;
use missions::worker_dashboard::WorkerContextState;
use missions::worker_dashboard::WorkerDashboard;
use missions::worker_dashboard::WorkerSnapshot;

fn metadata(id: u128, mission: u128, role: Option<&str>) -> ThreadMetadata {
    ThreadMetadata {
        thread_id: ThreadId { value: id },
        agent_id: "Test".into(),
        display_title: "A thread".into(),
        mission_id: Some(MissionId { value: mission }),
        role: role.map(str::to_string),
    }
}

fn dashboard() -> WorkerDashboard {
    WorkerDashboard::new(
        MissionId { value: 1 },
        "Test mission".into(),
        &metadata(1, 1, Some("coding")),
    )
}

fn thread(entries: Vec<ThreadEntry>) -> Thread {
    Thread {
        entries,
        status: ThreadStatus::Idle,
        had_error: false,
        waiting_for_confirmation: false,
        is_draft: false,
        used_tokens: None,
        cost: None,
        changes: Vec::new(),
        queued_messages: 0,
    }
}

fn user(text: &str) -> ThreadEntry {
    ThreadEntry::UserMessage(text.into())
}

fn says(chunks: Vec<MessageChunk>) -> ThreadEntry {
    ThreadEntry::AssistantMessage(AssistantMessage { markdown: "# Assistant\n\nWell.".into(), chunks })
}

fn chunk(text: &str) -> MessageChunk {
    MessageChunk::Message(text.into())
}

fn call(status: ToolCallStatus) -> ThreadEntry {
    ThreadEntry::ToolCall(ToolCall {
        id: "t1".into(),
        label: "Edit files".into(),
        kind: ToolKind::Edit,
        status,
        content: Vec::new(),
        locations: vec!["a.rs".into(), "b.rs".into()],
    })
}

fn waiting() -> ToolCallStatus {
    ToolCallStatus::WaitingForConfirmation(vec![PermissionOption {
        option_id: "yes".into(),
        kind: PermissionOptionKind::AllowOnce,
    }])
}

#[test]
fn an_unloaded_thread_is_not_idle() {
    let snapshot = WorkerSnapshot::default();
    assert!(!snapshot.thread_loaded);
    // "Idle" is a statement about a loaded worker, so an unloaded one must not claim it.
    assert!(!snapshot.is_idle());
}

#[test]
fn a_loaded_worker_with_changes_is_idle() {
    let snapshot = WorkerSnapshot {
        thread_loaded: true,
        changes: vec![ChangedFile {
            name: "mission_panel.rs".into(),
            lines_added: 12,
            lines_removed: 3,
        }],
        ..Default::default()
    };
    assert!(snapshot.is_idle());
}

#[test]
fn a_loaded_worker_with_nothing_in_flight_is_idle() {
    let snapshot = WorkerSnapshot { thread_loaded: true, ..Default::default() };
    assert!(snapshot.is_idle());
}

#[test]
fn worker_status_distinguishes_blocked_from_working() {
    assert_eq!(worker_status(MissionThreadState::Running).1, Color::Success);
    assert_eq!(worker_status(MissionThreadState::Waiting).1, Color::Warning);
    assert_eq!(worker_status(MissionThreadState::Failed).1, Color::Error);
}

#[test]
fn sending_clears_immediately_and_does_not_overwrite_a_new_draft() {
    let mut dashboard = dashboard();
    let mut live = thread(vec![]);

    dashboard.instruction_text = "first instruction".into();
    let submission = dashboard.send_instruction(Some(live.status)).unwrap();
    assert_eq!(submission.instruction, "first instruction");
    assert_eq!(submission.delivery, Delivery::Send);
    assert_eq!(dashboard.instruction_text, "");
    assert_eq!(dashboard.feedback.as_deref(), Some("Submitted — waiting for response"));
    assert_eq!(
        dashboard.snapshot(Some(&live)).recent_instruction.as_deref(),
        Some("first instruction")
    );
    dashboard.instruction_text = "new draft".into();

    live.entries.push(user("first instruction"));
    dashboard.clear_submitted_instruction_if_reflected(Some(&live));
    dashboard.submission_finished(&submission, Ok(()));
    assert_eq!(dashboard.instruction_text, "new draft");
    assert_eq!(dashboard.feedback, None);
    assert_eq!(dashboard.latest_submitted_instruction, None);
}

#[test]
fn sending_while_generating_queues_without_interrupting_the_current_turn() {
    let mut dashboard = dashboard();
    let mut live = thread(vec![user("current turn")]);
    live.status = ThreadStatus::Generating;

    dashboard.instruction_text = "follow up".into();
    let submission = dashboard.send_instruction(Some(live.status)).unwrap();
    assert_eq!(submission.delivery, Delivery::Queue);
    live.queued_messages += 1;
    assert_eq!(live.status, ThreadStatus::Generating);
    assert_eq!(
        dashboard.snapshot(Some(&live)).recent_instruction.as_deref(),
        Some("follow up")
    );
    assert_eq!(
        dashboard.feedback.as_deref(),
        Some("Queued — will send when the current turn finishes")
    );
    // Being queued is not yet being sent.
    dashboard.submission_finished(&submission, Ok(()));
    assert!(dashboard.feedback.is_some());
    let shown = dashboard.render_composer(true, 1, false);
    assert_eq!(shown.hint, "Queued — will send when the current turn finishes");
    let shown = dashboard.render_composer(true, 0, false);
    assert_eq!(shown.hint, "Type an instruction to send");
}

#[test]
fn nothing_is_sent_without_an_instruction_or_a_thread() {
    let mut dashboard = dashboard();
    dashboard.instruction_text = " \n".into();
    assert!(dashboard.send_instruction(Some(ThreadStatus::Idle)).is_none());
    dashboard.instruction_text = "go".into();
    assert!(dashboard.send_instruction(None).is_none());
    assert_eq!(dashboard.instruction_text, "go");
    assert_eq!(dashboard.submission_id, 0);
    assert_eq!(dashboard.feedback, None);
}

#[test]
fn failed_instructions_come_back_in_order() {
    let mut dashboard = dashboard();
    let mut sent = Vec::new();
    for text in ["one", "two"] {
        dashboard.instruction_text = text.into();
        sent.push(dashboard.send_instruction(Some(ThreadStatus::Idle)).unwrap());
    }
    // An older failure does not touch the feedback of the newer one.
    dashboard.submission_finished(&sent[0], Err("closed".into()));
    assert_eq!(dashboard.feedback.as_deref(), Some("Submitted — waiting for response"));
    dashboard.submission_finished(&sent[1], Err("closed".into()));
    assert_eq!(dashboard.feedback.as_deref(), Some("Send failed: closed"));
    assert_eq!(
        dashboard.render_composer(true, 0, false).restore.unwrap().text,
        "Restore failed instruction"
    );

    dashboard.instruction_text = "draft".into();
    dashboard.restore_failed_instruction();
    assert_eq!(dashboard.instruction_text, "draft");
    dashboard.instruction_text = "  ".into();
    dashboard.restore_failed_instruction();
    assert_eq!(dashboard.instruction_text, "one");
    dashboard.instruction_text = String::new();
    dashboard.restore_failed_instruction();
    assert_eq!(dashboard.instruction_text, "two");
    dashboard.instruction_text = String::new();
    dashboard.restore_failed_instruction();
    assert_eq!(dashboard.instruction_text, "");
}

#[test]
fn the_submission_count_wraps() {
    let mut dashboard = dashboard();
    dashboard.submission_id = u64::MAX;
    dashboard.instruction_text = "go".into();
    assert_eq!(dashboard.send_instruction(Some(ThreadStatus::Idle)).unwrap().submission_id, 0);
}

#[test]
fn a_response_is_shown_for_the_instruction_it_answers() {
    let mut dashboard = dashboard();
    let live = thread(vec![
        user("first"),
        says(vec![chunk("old")]),
        user("second"),
        says(vec![chunk("a"), MessageChunk::Thought("hm".into()), chunk("b")]),
        says(vec![MessageChunk::Thought("only thoughts".into())]),
    ]);
    let snapshot = dashboard.snapshot(Some(&live));
    assert_eq!(snapshot.recent_instruction.as_deref(), Some("second"));
    assert_eq!(snapshot.recent_response.as_deref(), Some("a\n\nb"));
    dashboard.latest_submitted_instruction = Some("third".into());
    let snapshot = dashboard.snapshot(Some(&live));
    assert_eq!(snapshot.recent_instruction.as_deref(), Some("third"));
    assert_eq!(snapshot.recent_response, None);
    dashboard.latest_submitted_instruction = Some("second".into());
    assert!(dashboard.snapshot(Some(&live)).recent_response.is_some());
    let silent = thread(vec![says(vec![chunk("hello")])]);
    dashboard.latest_submitted_instruction = None;
    assert_eq!(dashboard.snapshot(Some(&silent)).recent_response, None);
}

#[test]
fn a_hand_off_says_where_the_work_stands() {
    let mut dashboard = dashboard();
    let live = thread(vec![user("go"), says(vec![])]);
    let text = |dashboard: &WorkerDashboard, live: Option<&Thread>| {
        match dashboard.hand_off(live, Some(ThreadStatus::Generating)) {
            HandOff::Send { message, delivery, note } => {
                assert_eq!(delivery, Delivery::Queue);
                (message, note)
            }
            HandOff::Open => panic!("the receiving worker is loaded"),
        }
    };
    assert_eq!(
        text(&dashboard, Some(&live)).0,
        "Handing off from coding. Where it left off: Well."
    );
    assert_eq!(text(&dashboard, None).0, "Handing off from coding. Please pick this up.");
    dashboard.instruction_text = " fix it ".into();
    let (message, note) = text(&dashboard, Some(&live));
    assert_eq!(message, "Handing off from coding: fix it");
    assert!(matches!(dashboard.hand_off(Some(&live), None), HandOff::Open));

    dashboard.hand_off_finished(&note, false);
    assert_eq!(dashboard.instruction_text, " fix it ");
    dashboard.instruction_text = "something else".into();
    dashboard.hand_off_finished(&note, true);
    assert_eq!(dashboard.instruction_text, "something else");
    dashboard.instruction_text = "fix it\n".into();
    dashboard.hand_off_finished(&note, true);
    assert_eq!(dashboard.instruction_text, "");
}

#[test]
fn peers_are_the_missions_other_workers() {
    let threads = vec![
        metadata(1, 1, Some("coding")),
        metadata(2, 1, Some("testing")),
        metadata(3, 2, Some("elsewhere")),
        metadata(4, 1, None),
    ];
    let peers: Vec<u128> =
        dashboard().peer_workers(&threads).iter().map(|peer| peer.thread_id.value).collect();
    assert_eq!(peers, vec![2, 4]);
}

#[test]
fn the_page_turns_to_a_thread_once() {
    let mut dashboard = dashboard();
    assert!(!dashboard.observe_thread_of(None, None));
    assert!(dashboard.observe_thread_of(Some(1), Some(2)));
    assert!(!dashboard.observe_thread_of(Some(1), Some(2)));
    assert!(dashboard.observe_thread_of(Some(1), None));
    assert_eq!(dashboard.observed_thread_view, None);
}

fn recorded(role: Option<&str>, author: &str) -> MissionContext {
    let time = Timestamp { seconds: 0, nanos: 0 };
    let evidence = |command: &str, exit_code| Evidence {
        command: command.into(),
        result: String::new(),
        exit_code,
        author: author.into(),
        role: role.map(str::to_string),
        created_at: time,
    };
    MissionContext {
        mission_id: String::new(),
        decisions: vec![Decision {
            key: "k".into(),
            value: "v".into(),
            author: author.into(),
            role: role.map(str::to_string),
            created_at: time,
        }],
        artifacts: Vec::new(),
        evidence: vec![evidence("make", Some(0)), evidence("test", None)],
    }
}

#[test]
fn a_page_shows_the_rows_of_its_role() {
    let mut dashboard = dashboard();
    assert!(matches!(dashboard.render_recorded()[..], [RecordedLine::Message("Loading…")]));
    assert_eq!(dashboard.refresh_context(false), None);
    assert!(matches!(
        dashboard.render_recorded()[..],
        [RecordedLine::Message("Shared Context unavailable")]
    ));
    assert_eq!(
        dashboard.refresh_context(true).as_deref(),
        Some("00000000-0000-0000-0000-000000000001")
    );
    // Whoever recorded it.
    dashboard.context_loaded(Some(Ok(recorded(Some("coding"), "codex"))));
    let lines = dashboard.render_recorded();
    assert_eq!(lines.len(), 3);
    assert!(matches!(&lines[0], RecordedLine::Decision { key, value } if key == "k" && value == "v"));
    assert!(matches!(
        &lines[1],
        RecordedLine::Evidence { icon: IconName::Check, color: Color::Success, command } if command == "make"
    ));
    assert!(matches!(
        &lines[2],
        RecordedLine::Evidence { icon: IconName::XCircle, color: Color::Error, .. }
    ));
    // An author that happens to be named like the role is not the role.
    for role in [None, Some("testing")] {
        dashboard.context_loaded(Some(Ok(recorded(role, "coding"))));
        assert!(matches!(
            dashboard.render_recorded()[..],
            [RecordedLine::Message("Nothing recorded yet")]
        ));
    }
    dashboard.context_loaded(Some(Err("locked".into())));
    assert!(matches!(dashboard.context_state, WorkerContextState::Unavailable));
}

#[test]
fn the_page_shows_what_the_worker_does() {
    let mut dashboard = dashboard();
    dashboard.instruction_text = "x".into();
    let mut live = thread(vec![user("go"), call(waiting())]);
    live.waiting_for_confirmation = true;
    live.used_tokens = Some(1_500_000);
    live.cost = Some("1.20".into());
    live.queued_messages = 2;
    live.changes = vec![ChangedFile { name: "a.rs".into(), lines_added: 3, lines_removed: 0 }];
    let names = Some(AgentNames { display_name: None, agent_label: "Zed Agent".into() });
    let threads = vec![metadata(1, 1, Some("coding")), metadata(2, 1, Some("testing"))];
    let page = dashboard.render(&Some(live), &names, &threads, true);
    assert_eq!(page.header.role, "coding");
    assert_eq!(page.header.status.text, "Waiting for you");
    assert_eq!(page.header.agent_label.as_deref(), Some("Zed Agent"));
    assert_eq!(page.header.peers[0].label, "testing");
    assert!(page.header.stop.is_none());
    assert_eq!(page.header.hand_off.unwrap().text, "Hand off…");
    let summary = page.summary.unwrap();
    assert_eq!(summary.tokens.as_deref(), Some("1.5M tokens"));
    assert_eq!(summary.cost.as_deref(), Some("$1.20"));
    assert_eq!(summary.blocked.text, "blocked: Edit files");
    assert_eq!(page.notice, None);
    let permission = page.permission.unwrap();
    assert_eq!(permission.label, "Edit files");
    let allow = permission.allow.unwrap();
    assert_eq!(allow.text, "Allow");
    assert_eq!(allow.authorization.option_id, "yes");
    assert_eq!(allow.authorization.tool_call_id, "t1");
    assert!(permission.reject.is_none());
    assert_eq!(page.queued.unwrap().text, "2 instruction(s) queued");
    assert!(page.current_tool_call.is_none());
    let (_, files) = page.changes.unwrap();
    assert_eq!((files[0].added.text.as_str(), files[0].removed.text.as_str()), ("+3", "-0"));
    let composer = page.composer.unwrap();
    assert!(composer.can_send);
    assert_eq!(composer.hint, "Modifier+Enter sends · Enter inserts a newline");
    assert!(!composer.can_restore);
}

#[test]
fn a_running_worker_without_a_call_waits_for_a_response() {
    let dashboard = dashboard();
    let mut live = thread(vec![user("go")]);
    live.status = ThreadStatus::Generating;
    let page = dashboard.render(&Some(live), &None, &Vec::new(), false);
    assert_eq!(page.header.status.text, "Waiting for response");
    assert_eq!(page.header.status.color, Color::Success);
    assert_eq!(page.header.stop.unwrap().text, "Stop");
    assert!(page.header.hand_off.is_none());
    assert_eq!(page.notice, Some("Waiting for response"));

    let mut live = thread(vec![user("go"), call(ToolCallStatus::Pending)]);
    live.status = ThreadStatus::Generating;
    let page = dashboard.render(&Some(live), &None, &Vec::new(), false);
    assert_eq!(page.header.status.text, "Working");
    assert_eq!(page.notice, None);
    let (_, shown) = page.current_tool_call.unwrap();
    assert_eq!(shown.locations.as_deref(), Some("a.rs, b.rs"));
}

#[test]
fn without_a_thread_only_what_was_recorded_is_shown() {
    let dashboard = dashboard();
    let page = dashboard.render(&None, &None, &Vec::new(), false);
    assert_eq!(page.not_loaded.unwrap().0, "This worker's thread isn't loaded");
    assert!(page.summary.is_none() && page.composer.is_none() && page.notice.is_none());
    assert_eq!(page.recorded.len(), 1);
    let (label, dot) = dashboard.tab_content(&None, false);
    assert_eq!((label.text.as_str(), label.color, dot), ("coding", Color::Muted, Color::Muted));
    assert_eq!(dashboard.tab_content(&None, true).0.color, Color::Default);
}

#[test]
fn an_agents_own_picture_comes_first() {
    let custom = Agent::Custom { id: "codex".into() };
    assert!(matches!(
        harness_icon(&Agent::NativeAgent, &None),
        HarnessIcon::BuiltIn(IconName::ZedAgent)
    ));
    assert!(matches!(harness_icon(&custom, &None), HarnessIcon::BuiltIn(IconName::Terminal)));
    assert!(matches!(
        harness_icon(&custom, &Some("a.svg".into())),
        HarnessIcon::External(svg) if svg == "a.svg"
    ));
}
