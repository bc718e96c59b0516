use missions::mission_context_observer::mission_context_for_thread;
use missions::mission_context_observer::observe_entry;
use missions::mission_context_observer::record_observed_artifacts;
use missions::mission_context_observer::record_terminal_evidence;
use missions::mission_context_observer::strip_code_fence;
use missions::mission_context_observer::Observation;
use missions::mission_context_observer::ObserverState;
use missions::mission_context_observer::TerminalOutput;
use missions::mission_id::MissionId;
use missions::shared_context::SharedContextStore;
use missions::thread::ThreadEntry;
use missions::thread::ThreadId;
use missions::thread::ThreadMetadata;
use missions::thread::ToolCall;
use missions::thread::ToolCallContent;
use missions::thread::ToolCallStatus;
use missions::thread::ToolKind;

fn metadata(mission_id: Option<MissionId>, role: Option<&str>) -> ThreadMetadata {
    ThreadMetadata {
        thread_id: ThreadId { value: 1 },
        agent_id: "Test".into(),
        display_title: "A thread".into(),
        mission_id,
        role: role.map(str::to_string),
    }
}

fn member() -> ThreadMetadata {
    metadata(Some(MissionId { value: 7 }), Some(" coding "))
}

fn call(id: &str, kind: ToolKind, status: ToolCallStatus, locations: &[&str]) -> ThreadEntry {
    ThreadEntry::ToolCall(ToolCall {
        id: id.into(),
        label: "a call".into(),
        kind,
        status,
        content: Vec::new(),
        locations: locations.iter().map(|path| path.to_string()).collect(),
    })
}

fn command(terminals: &[&str]) -> ThreadEntry {
    let mut content: Vec<ToolCallContent> =
        terminals.iter().map(|id| ToolCallContent::Terminal(id.to_string())).collect();
    content.push(ToolCallContent::Other);
    ThreadEntry::ToolCall(ToolCall {
        id: "run".into(),
        label: "a command".into(),
        kind: ToolKind::Execute,
        status: ToolCallStatus::InProgress,
        content,
        locations: Vec::new(),
    })
}

fn summary(observation: Observation) -> Option<String> {
    match observation {
        Observation::Artifacts { change_summary, .. } => Some(change_summary),
        _ => None,
    }
}

#[test]
fn a_code_fence_is_taken_off() {
    assert_eq!(strip_code_fence("```\ncargo test\n```"), "cargo test");
    assert_eq!(strip_code_fence("```\na\nb\n```"), "a\nb");
    assert_eq!(strip_code_fence("```\n\n```"), "");
    for kept in ["cargo test", "", "```", "```\n", "```\n```", "\n```", "```\na", "a\n```", "```sh\na\n```", "```\na\n``` "] {
        assert_eq!(strip_code_fence(kept), kept);
    }
}

#[test]
fn a_threads_role_is_trimmed() {
    let id = MissionId { value: 7 };
    assert!(mission_context_for_thread(None).is_none());
    assert!(mission_context_for_thread(Some(&metadata(None, Some("coding")))).is_none());
    assert_eq!(mission_context_for_thread(Some(&member())), Some((id, Some("coding".into()))));
    assert_eq!(mission_context_for_thread(Some(&metadata(Some(id), Some(" ")))), Some((id, None)));
    assert_eq!(mission_context_for_thread(Some(&metadata(Some(id), None))), Some((id, None)));
}

#[test]
fn a_finished_edit_is_recorded_once() {
    let mut state = ObserverState::default();
    let member = member();
    let pending = call("e", ToolKind::Edit, ToolCallStatus::InProgress, &["a.rs"]);
    assert!(matches!(observe_entry(&mut state, Some(&member), Some(&pending)), Observation::Nothing));
    let done = call("e", ToolKind::Edit, ToolCallStatus::Completed, &["a.rs", "b.rs"]);
    match observe_entry(&mut state, Some(&member), Some(&done)) {
        Observation::Artifacts { mission_id, role, paths, change_summary } => {
            assert_eq!(mission_id, MissionId { value: 7 });
            assert_eq!(role.as_deref(), Some("coding"));
            assert_eq!(paths, vec!["a.rs", "b.rs"]);
            assert_eq!(change_summary, "Edited a.rs, b.rs");
        }
        _ => panic!("an edit is an artifact"),
    }
    assert!(matches!(observe_entry(&mut state, Some(&member), Some(&done)), Observation::Nothing));
}

#[test]
fn a_change_is_named_by_its_kind() {
    let mut state = ObserverState::default();
    let member = member();
    let mut seen = |id: &str, kind| {
        let entry = call(id, kind, ToolCallStatus::Completed, &["a.rs"]);
        summary(observe_entry(&mut state, Some(&member), Some(&entry)))
    };
    assert_eq!(seen("1", ToolKind::Delete).as_deref(), Some("Deleted a.rs"));
    assert_eq!(seen("2", ToolKind::Move).as_deref(), Some("Moved/renamed a.rs"));
    assert_eq!(seen("3", ToolKind::Edit).as_deref(), Some("Edited a.rs"));
    assert_eq!(seen("4", ToolKind::Read), None);
    assert_eq!(seen("5", ToolKind::Other), None);
}

#[test]
fn an_edit_without_a_place_is_noted_and_not_recorded() {
    let mut state = ObserverState::default();
    let entry = call("e", ToolKind::Edit, ToolCallStatus::Completed, &[]);
    assert!(matches!(
        observe_entry(&mut state, Some(&member()), Some(&entry)),
        Observation::Nothing
    ));
    assert_eq!(state.recorded_artifact_tool_calls, vec!["e"]);
}

#[test]
fn threads_outside_missions_are_not_watched() {
    let mut state = ObserverState::default();
    let done = call("e", ToolKind::Edit, ToolCallStatus::Completed, &["a.rs"]);
    assert!(matches!(
        observe_entry(&mut state, Some(&metadata(None, None)), Some(&done)),
        Observation::Nothing
    ));
    assert!(matches!(observe_entry(&mut state, Some(&member()), None), Observation::Nothing));
    let said = ThreadEntry::UserMessage("hi".into());
    assert!(matches!(
        observe_entry(&mut state, Some(&member()), Some(&said)),
        Observation::Nothing
    ));
    assert!(state.recorded_artifact_tool_calls.is_empty());
}

#[test]
fn a_terminal_is_awaited_once() {
    let mut state = ObserverState::default();
    let member = member();
    let mut fresh = |entry: ThreadEntry| match observe_entry(&mut state, Some(&member), Some(&entry)) {
        Observation::Terminals { terminals, .. } => terminals,
        _ => panic!("a command has terminals"),
    };
    assert_eq!(fresh(command(&["a", "b", "a"])), vec!["a", "b"]);
    assert_eq!(fresh(command(&["b", "c"])), vec!["c"]);
    assert!(fresh(command(&["a", "b", "c"])).is_empty());
}

#[test]
fn what_is_observed_is_recorded_by_the_observer() {
    let mut store = SharedContextStore::new();
    let id = MissionId { value: 7 };
    let role = Some("coding".to_string());
    record_observed_artifacts(
        &mut store,
        id,
        &role,
        &vec!["a.rs".into(), "b.rs".into()],
        "Edited a.rs, b.rs",
    );
    assert_eq!(store.artifacts.len(), 2);
    assert_eq!(store.artifacts[1].path, "b.rs");
    assert_eq!(store.artifacts[1].change_summary, "Edited a.rs, b.rs");
    assert_eq!(store.artifacts[1].author, "zed-observer");
    assert_eq!(store.artifacts[1].role, role);

    record_terminal_evidence(&mut store, id, role.clone(), "```\nmake\n```", None);
    assert!(store.evidence.is_empty());
    let output = TerminalOutput { content: "ok".into(), exit_code: Some(2) };
    record_terminal_evidence(&mut store, id, role.clone(), "```\nmake\n```", Some(output));
    assert_eq!(store.evidence[0].command, "make");
    assert_eq!(store.evidence[0].result, "ok");
    assert_eq!(store.evidence[0].exit_code, Some(2));
    assert_eq!(store.evidence[0].author, "zed-observer");
    assert_eq!(store.evidence[0].role, role);
}
