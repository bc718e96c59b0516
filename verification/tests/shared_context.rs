use missions::mission_id::short_mission_id;
use missions::mission_id::MissionId;
use missions::shared_context::backfilled_role;
use missions::shared_context::db_path_from_env;
use missions::shared_context::DecisionRow;
use missions::shared_context::SharedContextStore;
use missions::shared_context::Table;
use missions::shared_context::DB_PATH_ENV_VAR;
use missions::shared_context::MAX_CONTEXT_ROWS_PER_TABLE;
use missions::time::Timestamp;

const MISSION: &str = "2f3d9b0e-6c3e-4b8a-9c3f-1a2b3c4d5e6f";

fn mission() -> MissionId {
    MissionId::from_key_string(MISSION).unwrap()
}

fn now() -> Timestamp {
    let now = chrono::Utc::now();
    Timestamp { seconds: now.timestamp(), nanos: now.timestamp_subsec_nanos() }
}

fn at(seconds: i64) -> Timestamp {
    Timestamp { seconds, nanos: 0 }
}

fn keys(store: &SharedContextStore, since: Option<Timestamp>) -> Vec<String> {
    store
        .get_mission_context(mission(), since)
        .unwrap_or_else(|error| panic!("{}", error))
        .decisions
        .iter()
        .map(|decision| decision.key.clone())
        .collect()
}

fn decide(store: &mut SharedContextStore, time: Timestamp, key: &str) {
    store.record_decision_at(time, mission(), key.into(), "v".into(), "a".into(), None);
}

#[test]
fn mission_id_round_trips_through_its_key_string() {
    let id = MissionId::from_key_string("2f3d9b0e-6c3e-4b8a-9c3f-1a2b3c4d5e6f").unwrap();
    assert_eq!(id.to_key_string(), "2f3d9b0e-6c3e-4b8a-9c3f-1a2b3c4d5e6f");
    assert!(MissionId::from_key_string("not-a-uuid").is_err());
}

#[test]
fn every_notation_of_an_identifier_is_read() {
    let id = mission();
    assert_eq!(id.value, 0x2f3d9b0e6c3e4b8a9c3f1a2b3c4d5e6f);
    for text in [
        "2f3d9b0e6c3e4b8a9c3f1a2b3c4d5e6f",
        "2F3D9B0E-6C3E-4B8A-9C3F-1A2B3C4D5E6F",
        "{2f3d9b0e-6c3e-4b8a-9c3f-1a2b3c4d5e6f}",
        "urn:uuid:2f3d9b0e-6c3e-4b8a-9c3f-1a2b3c4d5e6f",
        "URN:uuid:2f3d9b0e-6c3e-4b8a-9c3f-1a2b3c4d5e6f",
    ] {
        assert_eq!(MissionId::from_key_string(text), Ok(id), "{}", text);
    }
    for text in [
        "",
        "2f3d9b0e6c3e4b8a9c3f1a2b3c4d5e6",
        "2f3d9b0e6c3e4b8a9c3f1a2b3c4d5e6g",
        " 2f3d9b0e6c3e4b8a9c3f1a2b3c4d5e6f",
        "2f3d9b0e6-c3e-4b8a-9c3f-1a2b3c4d5e6f",
        "{2f3d9b0e-6c3e-4b8a-9c3f-1a2b3c4d5e6f",
        "(2f3d9b0e-6c3e-4b8a-9c3f-1a2b3c4d5e6f)",
        "urn-uuid:2f3d9b0e-6c3e-4b8a-9c3f-1a2b3c4d5e6f",
        "{2f3d9b0e6c3e4b8a9c3f1a2b3c4d5e6f}",
        "urn:uuid:2f3d9b0e6c3e4b8a9c3f1a2b3c4d5e6f",
        "2f3d9b0e-6c3e-4b8a-9c3f-1a2b3c4d5e6é",
    ] {
        assert!(MissionId::from_key_string(text).is_err(), "{}", text);
    }
}

#[test]
fn a_short_identifier_is_its_first_group() {
    assert_eq!(short_mission_id(&mission()), "2f3d9b0e");
    assert_eq!(short_mission_id(&MissionId { value: 0x61b236e4 }), "00000000");
}

#[test]
fn record_and_read_decisions_artifacts_and_evidence() {
    let mut store = SharedContextStore::new();
    let mission = MissionId::from_key_string("2f3d9b0e-6c3e-4b8a-9c3f-1a2b3c4d5e6f").unwrap();
    let other_mission =
        MissionId::from_key_string("00000000-0000-0000-0000-000000000000").unwrap();

    store.record_decision(
        mission,
        "auth-strategy".into(),
        "use OAuth device flow".into(),
        "codex".into(),
        Some("coding".into()),
    );
    store.record_artifact(
        mission,
        "src/auth.rs".into(),
        "added device flow handler".into(),
        "zed-observer".into(),
        Some("coding".into()),
    );
    store.record_evidence(
        mission,
        "cargo test -p auth".into(),
        "3 passed; 0 failed".into(),
        Some(0),
        "zed-observer".into(),
        Some("testing".into()),
    );
    // Rows of another mission must not show in the first mission's context.
    store.record_decision(
        other_mission,
        "unrelated".into(),
        "should not appear".into(),
        "codex".into(),
        None,
    );

    let context = store.get_mission_context(mission, None).ok().unwrap();
    assert_eq!(context.mission_id, mission.to_key_string());
    assert_eq!(context.decisions.len(), 1);
    assert_eq!(context.decisions[0].key, "auth-strategy");
    assert_eq!(context.decisions[0].value, "use OAuth device flow");
    assert_eq!(context.decisions[0].author, "codex");
    assert_eq!(context.decisions[0].role.as_deref(), Some("coding"));
    assert_eq!(context.evidence[0].author, "zed-observer");
    assert_eq!(context.evidence[0].role.as_deref(), Some("testing"));
    assert_eq!(context.artifacts.len(), 1);
    assert_eq!(context.artifacts[0].path, "src/auth.rs");
    assert_eq!(context.evidence.len(), 1);
    assert_eq!(context.evidence[0].command, "cargo test -p auth");
    assert_eq!(context.evidence[0].exit_code, Some(0));

    let other_context = store.get_mission_context(other_mission, None).ok().unwrap();
    assert_eq!(other_context.decisions.len(), 1);
    assert_eq!(other_context.decisions[0].key, "unrelated");
    assert!(other_context.artifacts.is_empty());
}

#[test]
fn get_mission_context_filters_by_since_and_orders_oldest_first() {
    let mut store = SharedContextStore::new();
    store.record_decision(mission(), "first".into(), "1".into(), "a".into(), None);
    let cutoff = now();
    while !cutoff.is_before(&now()) {}
    store.record_decision(mission(), "second".into(), "2".into(), "a".into(), None);
    store.record_decision(mission(), "third".into(), "3".into(), "a".into(), None);

    assert_eq!(keys(&store, None), vec!["first", "second", "third"]);
    assert_eq!(keys(&store, Some(cutoff)), vec!["second", "third"]);
}

#[test]
fn get_mission_context_caps_rows_per_table() {
    let mut store = SharedContextStore::new();
    for i in 0..(MAX_CONTEXT_ROWS_PER_TABLE + 10) {
        store.record_decision(mission(), format!("key-{i}"), "v".into(), "a".into(), None);
    }

    let context = store.get_mission_context(mission(), None).ok().unwrap();
    assert_eq!(context.decisions.len(), MAX_CONTEXT_ROWS_PER_TABLE);
    // The most recent ones, still oldest first.
    assert_eq!(context.decisions.first().unwrap().key, "key-10");
    assert_eq!(
        context.decisions.last().unwrap().key,
        format!("key-{}", MAX_CONTEXT_ROWS_PER_TABLE + 9)
    );
}

#[test]
fn rows_are_listed_by_time_and_then_by_recording() {
    let mut store = SharedContextStore::new();
    decide(&mut store, at(2_000), "c");
    decide(&mut store, at(1_000), "a");
    decide(&mut store, at(2_000), "d");
    decide(&mut store, at(1_500), "b");
    assert_eq!(keys(&store, None), vec!["a", "b", "c", "d"]);
    // The bound itself is left out.
    assert_eq!(keys(&store, Some(at(1_500))), vec!["c", "d"]);
    assert_eq!(keys(&store, Some(at(1_499))), vec!["b", "c", "d"]);
    assert_eq!(keys(&store, Some(at(2_000))), Vec::<String>::new());
}

#[test]
fn a_bound_beyond_every_row_lets_none_through() {
    let mut store = SharedContextStore::new();
    store.record_decision(mission(), "k".into(), "v".into(), "a".into(), None);
    decide(&mut store, Timestamp { seconds: 253_402_300_799, nanos: 1_999_999_999 }, "last");
    for seconds in [8_210_266_876_799, 253_402_300_800] {
        let bound = Timestamp { seconds, nanos: 0 };
        let context = store.get_mission_context(mission(), Some(bound)).ok().unwrap();
        assert!(context.decisions.is_empty());
        assert!(context.artifacts.is_empty());
        assert!(context.evidence.is_empty());
    }
    assert_eq!(keys(&store, Some(Timestamp { seconds: 253_402_300_799, nanos: 0 })), vec!["last"]);
    // A bound before the year 0 lets all through.
    assert_eq!(keys(&store, Some(Timestamp { seconds: -62_167_219_201, nanos: 0 })).len(), 2);
    assert_eq!(keys(&store, Some(Timestamp { seconds: -8_334_601_228_800, nanos: 0 })).len(), 2);
}

#[test]
fn fractions_of_a_second_are_ordered_in_the_stored_text() {
    let mut store = SharedContextStore::new();
    for nanos in [999_999_999, 120_000_000, 0, 120_000_001, 120_001_000, 1] {
        decide(&mut store, Timestamp { seconds: 1_700_000_000, nanos }, &nanos.to_string());
    }
    assert_eq!(
        keys(&store, None),
        vec!["0", "1", "120000000", "120000001", "120001000", "999999999"]
    );
    assert_eq!(
        keys(&store, Some(Timestamp { seconds: 1_700_000_000, nanos: 120_000_000 })),
        vec!["120000001", "120001000", "999999999"]
    );
}

#[test]
fn a_recorded_time_is_read_back() {
    let mut store = SharedContextStore::new();
    for time in [
        at(0),
        Timestamp { seconds: 1_700_000_000, nanos: 123_456_789 },
        Timestamp { seconds: 253_402_300_799, nanos: 999_999_999 },
        // A leap second.
        Timestamp { seconds: 1_483_228_799, nanos: 1_500_000_000 },
    ] {
        assert!(time.is_valid());
        decide(&mut store, time, "k");
    }
    let context = store.get_mission_context(mission(), None).ok().unwrap();
    let times: Vec<Timestamp> = context.decisions.iter().map(|d| d.created_at).collect();
    assert_eq!(
        times,
        vec![
            at(0),
            Timestamp { seconds: 1_483_228_799, nanos: 1_500_000_000 },
            Timestamp { seconds: 1_700_000_000, nanos: 123_456_789 },
            Timestamp { seconds: 253_402_300_799, nanos: 999_999_999 },
        ]
    );
    assert_eq!(store.decisions[1].created_at, "2023-11-14T22:13:20.123456789+00:00");
}

#[test]
fn a_time_beyond_the_calendar_is_not_valid() {
    assert!(!Timestamp { seconds: i64::MAX, nanos: 0 }.is_valid());
    assert!(!Timestamp { seconds: i64::MIN, nanos: 0 }.is_valid());
    assert!(!Timestamp { seconds: 0, nanos: 1_000_000_000 }.is_valid());
    assert!(!Timestamp { seconds: 59, nanos: 2_000_000_000 }.is_valid());
    assert!(Timestamp { seconds: 59, nanos: 1_999_999_999 }.is_valid());
    assert!(Timestamp { seconds: -1, nanos: 1_000_000_000 }.is_valid());
    assert!(Timestamp { seconds: 8_210_266_876_799, nanos: 0 }.is_valid());
    assert!(!Timestamp { seconds: 8_210_266_876_800, nanos: 0 }.is_valid());
    assert!(Timestamp { seconds: -8_334_601_228_800, nanos: 0 }.is_valid());
    assert!(!Timestamp { seconds: -8_334_601_228_801, nanos: 0 }.is_valid());
    assert_eq!(
        chrono::DateTime::<chrono::Utc>::MAX_UTC.timestamp(),
        8_210_266_876_799
    );
    assert_eq!(
        chrono::DateTime::<chrono::Utc>::MIN_UTC.timestamp(),
        -8_334_601_228_800
    );
}

#[test]
fn every_valid_time_can_be_stored() {
    let mut store = SharedContextStore::new();
    decide(&mut store, Timestamp { seconds: 8_210_266_876_799, nanos: 999_999_999 }, "late");
    decide(&mut store, Timestamp { seconds: -8_334_601_228_800, nanos: 0 }, "early");
    assert_eq!(store.decisions.len(), 2);
    assert!(store.decisions[0].created_at.starts_with("+262142-12-31"));
}

#[test]
fn an_unreadable_time_is_reported() {
    let mut store = SharedContextStore::new();
    decide(&mut store, at(1_000), "k");
    store.decisions.push(DecisionRow {
        mission_id: mission(),
        key: "k".into(),
        value: "v".into(),
        author: "a".into(),
        role: None,
        created_at: "yesterday".into(),
    });
    let error = store.get_mission_context(mission(), None).err().unwrap();
    assert_eq!(
        error,
        chrono::DateTime::parse_from_rfc3339("yesterday").unwrap_err().to_string()
    );
    // It does not disturb other missions.
    assert!(store.get_mission_context(MissionId { value: 0 }, None).is_ok());
}

#[test]
fn a_time_in_another_zone_is_taken_to_utc() {
    let mut store = SharedContextStore::new();
    store.decisions.push(DecisionRow {
        mission_id: mission(),
        key: "k".into(),
        value: "v".into(),
        author: "a".into(),
        role: None,
        created_at: "1970-01-01T02:00:00+02:00".into(),
    });
    let context = store.get_mission_context(mission(), None).ok().unwrap();
    assert_eq!(context.decisions[0].created_at, at(0));
}

#[test]
fn old_rows_are_given_their_authors_role() {
    for table in [Table::Artifacts, Table::Evidence] {
        assert_eq!(backfilled_role(table, "coding").as_deref(), Some("coding"));
        assert_eq!(backfilled_role(table, "zed-observer"), None);
        assert_eq!(backfilled_role(table, "unknown"), None);
        assert_eq!(backfilled_role(table, "").as_deref(), Some(""));
    }
    // Whoever recorded a decision named itself, which says nothing of a role.
    for author in ["codex", "coding", "zed-observer", "unknown", ""] {
        assert_eq!(backfilled_role(Table::Decisions, author), None);
    }
}

#[test]
fn the_database_lies_where_the_environment_says() {
    assert_eq!(DB_PATH_ENV_VAR, "ZED_SHARED_CONTEXT_DB_PATH");
    assert_eq!(db_path_from_env(Some("/a".into()), "/b".into()), "/a");
    assert_eq!(db_path_from_env(Some(String::new()), "/b".into()), "/b");
    assert_eq!(db_path_from_env(None, "/b".into()), "/b");
}
