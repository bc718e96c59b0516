use missions::mission_changes::MissionChange;
use missions::mission_id::MissionId;
use missions::mission_orchestrator::MissionThreadState;
use missions::mission_panel::MissionContextState;
use missions::mission_snapshot::HumanTeammate;
use missions::mission_snapshot::MissionSnapshot;
use missions::mission_snapshot::WorkerRow;
use missions::mission_views::ContextBody;
use missions::mission_views::ContextRow;
use missions::mission_views::EvidenceBody;
use missions::mission_views::EvidenceView;
use missions::mission_views::MissionQueueView;
use missions::mission_views::MissionStatusIndicator;
use missions::mission_views::SharedContextView;
use missions::shared_context::Artifact;
use missions::shared_context::Decision;
use missions::shared_context::Evidence;
use missions::shared_context::MissionContext;
use missions::thread::Mission;
use missions::thread::PendingPermission;
use missions::thread::PermissionOption;
use missions::thread::PermissionOptionKind;
use missions::thread::ThreadId;
use missions::thread::ThreadMetadata;
use missions::time::Timestamp;
use missions::ui::Color;
use missions::ui::IconName;
use missions::worker_dashboard::Deployment;

fn at(seconds: i64) -> Timestamp {
    Timestamp { seconds, nanos: 0 }
}

fn mission(id: u128, title: &str, created_at: i64) -> Mission {
    Mission { id: MissionId { value: id }, title: title.into(), created_at: at(created_at) }
}

fn worker(id: u128, label: &str, loaded: bool) -> WorkerRow {
    WorkerRow {
        metadata: ThreadMetadata {
            thread_id: ThreadId { value: id },
            agent_id: "Test".into(),
            display_title: "A thread".into(),
            mission_id: None,
            role: Some(label.into()),
        },
        thread_loaded: loaded,
        label: label.into(),
        harness: "Test".into(),
        activity: None,
        state: MissionThreadState::Completed,
        permission: None,
        tokens: None,
        cost: None,
        summary: None,
    }
}

fn snapshot(workers: Vec<WorkerRow>, changes: Vec<MissionChange>) -> MissionSnapshot {
    MissionSnapshot {
        mission: None,
        workers,
        changes,
        human: HumanTeammate::new(&None, 0),
    }
}

fn opt(text: Option<&str>) -> Option<String> {
    text.map(str::to_string)
}

fn decision(key: &str, value: &str, author: &str, role: Option<&str>) -> Decision {
    Decision {
        key: key.into(),
        value: value.into(),
        author: author.into(),
        role: opt(role),
        created_at: at(1),
    }
}

fn evidence(command: &str, exit_code: Option<i32>, role: Option<&str>, time: i64) -> Evidence {
    Evidence {
        command: command.into(),
        result: " all good \n".into(),
        exit_code,
        author: "zed-observer".into(),
        role: opt(role),
        created_at: at(time),
    }
}

fn context() -> MissionContext {
    MissionContext {
        mission_id: String::new(),
        decisions: vec![
            decision("auth-strategy", "use OAuth", "codex", Some("coding")),
            decision("db", "use SQLite", "gemini", None),
        ],
        artifacts: vec![Artifact {
            path: "src/auth.rs".into(),
            change_summary: "Edited src/auth.rs".into(),
            author: "zed-observer".into(),
            role: opt(Some("coding")),
            created_at: at(5),
        }],
        evidence: vec![
            evidence("cargo test", Some(0), Some("coding"), 4),
            evidence("cargo build", Some(0), None, 6),
            evidence("cargo clippy", Some(101), Some("gone"), 7),
            evidence("sleep", None, Some("testing"), 2),
        ],
    }
}

fn lines(rows: &[ContextRow]) -> Vec<String> {
    rows.iter().map(|row| format!("{} | {}", row.title, row.byline_with("1m"))).collect()
}

fn trail(query: &str) -> (Vec<String>, Vec<String>, Vec<String>) {
    let mut view = SharedContextView::new(mission(1, "m", 0));
    view.context_loaded(Some(Ok(context())));
    view.filter_text = query.into();
    match view.render(&snapshot(vec![], vec![])).body {
        ContextBody::Trail { decisions, artifacts, evidence, .. } => {
            (lines(&decisions), lines(&artifacts), lines(&evidence))
        }
        ContextBody::Message(text) => panic!("{}", text),
    }
}

#[test]
fn the_shared_context_is_shown_newest_first() {
    let (decisions, artifacts, evidence) = trail("  ");
    assert_eq!(decisions, vec!["use SQLite | gemini · 1m ago", "use OAuth | coding · 1m ago"]);
    assert_eq!(artifacts, vec!["src/auth.rs | zed-observer · Edited src/auth.rs · 1m ago"]);
    assert_eq!(
        evidence,
        vec![
            "sleep | testing · 1m ago",
            "cargo clippy | gone · 1m ago",
            "cargo build | zed-observer · 1m ago",
            "cargo test | coding · 1m ago",
        ]
    );
}

#[test]
fn a_search_looks_into_every_part_of_a_row() {
    assert_eq!(trail(" OAUTH ").0.len(), 1);
    assert_eq!(trail("Auth").1.len(), 1);
    assert_eq!(trail("STRATEGY").0, vec!["use OAuth | coding · 1m ago"]);
    assert_eq!(trail("gemini").0, vec!["use SQLite | gemini · 1m ago"]);
    let (decisions, artifacts, evidence) = trail("Coding");
    assert_eq!((decisions.len(), artifacts.len(), evidence.len()), (1, 1, 1));
    assert_eq!(trail("edited").1.len(), 1);
    // What a command gave is not looked into.
    assert_eq!(trail("good").2.len(), 0);
}

#[test]
fn rows_of_evidence_say_whether_they_hold() {
    let mut view = SharedContextView::new(mission(1, "m", 0));
    view.context_loaded(Some(Ok(context())));
    match view.render(&snapshot(vec![], vec![])).body {
        ContextBody::Trail { evidence, decisions_header, evidence_header, .. } => {
            assert_eq!(decisions_header.meta.as_deref(), Some("2"));
            assert_eq!(evidence_header.meta.as_deref(), Some("4"));
            let marks: Vec<(&str, Color)> =
                evidence.iter().map(|row| row.trailing.unwrap()).collect();
            assert_eq!(
                marks,
                vec![
                    ("stale", Color::Warning),
                    ("current", Color::Muted),
                    ("current", Color::Muted),
                    ("stale", Color::Warning),
                ]
            );
        }
        ContextBody::Message(_) => panic!("there is a trail"),
    }
}

#[test]
fn a_page_without_rows_says_why() {
    let mut view = SharedContextView::new(mission(0xabcdef12 << 96, "m", 0));
    let shown = |view: &SharedContextView| match view.render(&snapshot(vec![], vec![])).body {
        ContextBody::Message(text) => text,
        ContextBody::Trail { .. } => "trail",
    };
    assert_eq!(shown(&view), "Loading the Mission's shared context…");
    view.context_loaded(None);
    assert!(shown(&view).starts_with("The shared context store is unavailable"));
    view.context_state = MissionContextState::Empty;
    assert!(shown(&view).starts_with("No decisions, artifacts, or evidence"));
    assert_eq!(view.refresh_key(), "abcdef12-0000-0000-0000-000000000000");
    let page = view.render(&snapshot(vec![worker(1, "coding", true)], vec![]));
    assert_eq!(page.subtitle, "· mission abcdef12 · written by 1 workers · read by all");
    assert_eq!(page.subscribers, vec!["coding"]);
    assert_eq!(page.reload, IconName::RotateCw);
}

#[test]
fn pages_are_opened_once_per_mission() {
    let pages = vec![MissionId { value: 1 }, MissionId { value: 2 }, MissionId { value: 2 }];
    assert_eq!(EvidenceView::deploy(&pages, MissionId { value: 2 }), Deployment::Activate(1));
    assert_eq!(MissionQueueView::deploy(&pages, MissionId { value: 3 }), Deployment::Open);
}

#[test]
fn evidence_is_counted_and_linked_to_its_worker() {
    let mut view = EvidenceView::new(mission(1, "m", 0));
    view.context_loaded(Some(Ok(context())));
    let workers = vec![worker(1, "testing", false), worker(2, "coding", true)];
    let page = view.render(&workers);
    // A stale success does not pass, and a failure is not stale.
    assert_eq!(page.counts, "1 passing · 2 stale");
    assert_eq!(page.reload, IconName::RotateCw);
    let cards = match page.body {
        EvidenceBody::Cards(cards) => cards,
        EvidenceBody::Message(text) => panic!("{}", text),
    };
    assert_eq!(cards[0].command, "sleep");
    assert_eq!(cards[0].exit_label, "no exit code");
    assert_eq!((cards[0].icon, cards[0].icon_color), (IconName::XCircle, Color::Error));
    let note = cards[0].stale.as_ref().unwrap();
    assert_eq!(note.rerun.as_ref().unwrap().text, "Ask testing to re-run");
    assert_eq!(note.rerun.as_ref().unwrap().thread_id, ThreadId { value: 1 });
    assert!(cards[0].warns());
    assert_eq!(cards[1].headline("2m"), "gone · 2m ago · exit 101");
    assert_eq!(cards[1].result.as_deref(), Some("all good"));
    assert!(!cards[1].warns());
    assert_eq!(cards[2].name, "zed-observer");
    assert_eq!((cards[2].icon, cards[2].icon_color), (IconName::Check, Color::Success));
    assert_eq!(cards[3].stale.as_ref().unwrap().rerun.as_ref().unwrap().thread_id.value, 2);
}

#[test]
fn a_page_without_evidence_says_why() {
    let mut view = EvidenceView::new(mission(1, "m", 0));
    let shown = |view: &EvidenceView| match view.render(&Vec::new()).body {
        EvidenceBody::Message(text) => text,
        EvidenceBody::Cards(_) => "cards",
    };
    assert_eq!(shown(&view), "Loading the Mission's evidence…");
    view.context_loaded(Some(Err("locked".into())));
    assert!(shown(&view).starts_with("The shared context store is unavailable"));
    view.context_state = MissionContextState::NoSelection;
    assert_eq!(shown(&view), "No commands have been recorded as evidence for this Mission yet.");
    let mut quiet = context();
    quiet.evidence.truncate(1);
    quiet.evidence[0].result = " \n".into();
    view.context_loaded(Some(Ok(quiet)));
    match view.render(&Vec::new()).body {
        EvidenceBody::Cards(cards) => assert_eq!(cards[0].result, None),
        EvidenceBody::Message(_) => panic!("there is a card"),
    }
}

fn blocked(id: u128, label: &str, loaded: bool) -> WorkerRow {
    WorkerRow {
        permission: Some(PendingPermission {
            tool_call_id: "t".into(),
            label: "Run make".into(),
            allow: Some(PermissionOption {
                option_id: "yes".into(),
                kind: PermissionOptionKind::AllowOnce,
            }),
            reject: None,
        }),
        state: MissionThreadState::Waiting,
        ..worker(id, label, loaded)
    }
}

fn change(name: &str, workers: &[&str]) -> MissionChange {
    MissionChange {
        name: name.into(),
        lines_added: 1,
        lines_removed: 1,
        workers: workers.iter().map(|w| w.to_string()).collect(),
    }
}

#[test]
fn the_queue_shows_what_waits_for_the_user() {
    let mut reporting = worker(2, "testing", true);
    reporting.summary = Some("All green.".into());
    reporting.tokens = Some(42_100);
    reporting.cost = Some("0.10".into());
    let mut other = worker(3, "docs", false);
    other.tokens = Some(900);
    let snapshot = snapshot(
        vec![blocked(1, "coding", true), reporting, other],
        vec![change("a.rs", &["coding"]), change("b.rs", &["coding", "testing", "docs"])],
    );
    let queue = MissionQueueView::new(mission(1, "m", 0));
    let page = queue.render(&snapshot, &Some("0.10".into()));
    assert_eq!(page.name, "You");
    assert_eq!(page.asked_header.meta.as_deref(), Some("2"));
    assert_eq!(page.nothing, None);
    let card = page.permissions[0].as_ref().unwrap();
    assert_eq!(card.asked, "coding asked");
    assert_eq!(card.label, "Run make");
    assert_eq!(card.allow.as_ref().unwrap().authorization.option_id, "yes");
    assert!(card.reject.is_none());
    assert_eq!(page.conflicts.len(), 1);
    assert_eq!(page.conflicts[0].title, "Conflict · coding vs testing vs docs");
    assert_eq!(page.conflicts[0].text, "Both workers edited b.rs.");
    assert!(page.can_comment);
    assert_eq!(page.comment_hint, "Sent to every loaded worker as a user message");
    let reports: Vec<(&str, &str)> = page
        .standup
        .lines
        .iter()
        .map(|line| (line.text.text.as_str(), line.meta.as_str()))
        .collect();
    assert_eq!(
        reports,
        vec![
            ("Nothing reported yet", "coding"),
            ("All green.", "testing · 42.1k tok · $0.10"),
            ("Nothing reported yet", "docs · 900 tok"),
        ]
    );
    assert_eq!(page.standup.total, "43.0k tok · $0.10");
    assert_eq!(queue.render(&snapshot, &None).standup.total, "43.0k tok");

    assert_eq!(queue.open_conflict_diff("b.rs", &snapshot), Some(ThreadId { value: 1 }));
    assert_eq!(queue.open_conflict_diff("c.rs", &snapshot), None);
}

#[test]
fn a_prompt_of_a_thread_that_is_not_loaded_shows_no_card() {
    let queue = MissionQueueView::new(mission(1, "m", 0));
    let snapshot = snapshot(vec![blocked(1, "coding", false)], vec![change("a", &["coding"])]);
    let page = queue.render(&snapshot, &None);
    assert!(page.permissions[0].is_none());
    assert_eq!(page.asked_header.meta.as_deref(), Some("1"));
    assert!(!page.can_comment);
    assert_eq!(
        page.comment_hint,
        "No worker thread is loaded, so there is nobody to send to"
    );
    assert_eq!(queue.open_conflict_diff("a", &snapshot), None);
}

#[test]
fn a_comment_goes_to_every_loaded_worker() {
    let mut queue = MissionQueueView::new(mission(1, "m", 0));
    let workers =
        vec![worker(1, "a", true), worker(2, "b", false), worker(3, "c", true)];
    assert!(queue.post_comment(&workers).is_none());
    queue.comment_text = " please stop ".into();
    let unheard = queue.post_comment(&vec![worker(2, "b", false)]).unwrap();
    assert!(unheard.recipients.is_empty());
    assert_eq!(queue.comment_text, " please stop ");
    let comment = queue.post_comment(&workers).unwrap();
    assert_eq!(comment.text, "please stop");
    assert_eq!(comment.recipients, vec![ThreadId { value: 1 }, ThreadId { value: 3 }]);
    assert_eq!(queue.comment_text, "");
}

#[test]
fn the_status_bar_is_about_the_newest_mission() {
    let mut indicator = MissionStatusIndicator::new();
    assert!(!indicator.refresh(None));
    assert!(!indicator.refresh(Some(&Vec::new())));
    assert!(indicator.refresh(Some(&vec![
        mission(1, "old", 1),
        mission(2, "new", 9),
        mission(3, "also new", 9),
        mission(4, "older", 0),
    ])));
    assert_eq!(indicator.mission.as_ref().unwrap().title, "also new");
    // The same mission under another title is no news.
    assert!(!indicator.refresh(Some(&vec![mission(3, "renamed", 9)])));
    assert_eq!(indicator.mission.as_ref().unwrap().title, "also new");

    assert!(indicator.render(&snapshot(vec![], vec![])).is_none());
    let mut running = worker(1, "a", true);
    running.state = MissionThreadState::Running;
    let view = indicator.render(&snapshot(vec![running, worker(2, "b", true)], vec![])).unwrap();
    assert_eq!(view.summary, "also new · 1 agent working");
    assert_eq!(view.color, Color::Muted);
    let view = indicator.render(&snapshot(vec![blocked(1, "a", true)], vec![])).unwrap();
    assert_eq!(view.summary, "also new · 0 agents working · 1 waiting on you");
    assert_eq!(view.color, Color::Warning);

    assert!(indicator.refresh(Some(&Vec::new())));
    assert!(indicator.render(&snapshot(vec![worker(2, "b", true)], vec![])).is_none());
}
