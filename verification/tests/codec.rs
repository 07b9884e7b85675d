use remotemob::session::branches::Branches;
use remotemob::session::codec::{decode_session, encode_session, DecodeError};
use remotemob::session::drivers::Drivers;
use remotemob::session::settings::Settings;
use remotemob::session::{Session, State};

fn sample(drivers: Vec<&str>, settings: Option<Settings>, state: State) -> Session {
    Session {
        drivers: Drivers::new(drivers.into_iter().map(String::from).collect()),
        branches: Branches {
            branch: "mob-session".to_string(),
            base_branch: "main".to_string(),
        },
        settings,
        state,
    }
}

fn assert_same(a: &Session, b: &Session) {
    assert_eq!(a.drivers.all(), b.drivers.all());
    assert_eq!(a.branches.branch, b.branches.branch);
    assert_eq!(a.branches.base_branch, b.branches.base_branch);
    match (&a.settings, &b.settings) {
        (None, None) => {}
        (Some(x), Some(y)) => {
            assert_eq!(x.commit_message, y.commit_message);
            assert_eq!(x.work_duration, y.work_duration);
        }
        other => panic!("settings differ: {:?}", other),
    }
    match (&a.state, &b.state) {
        (State::Stopped, State::Stopped) => {}
        (State::Working { driver: x }, State::Working { driver: y }) => assert_eq!(x, y),
        (State::WaitingForNext { next: x }, State::WaitingForNext { next: y }) => {
            assert_eq!(x, y)
        }
        other => panic!("states differ: {:?}", other),
    }
}

fn round_trips(session: Session) {
    let text = encode_session(&session);
    let back = decode_session(&text).expect("own encoding must decode");
    assert_same(&session, &back);
}

#[test]
fn round_trip_stopped() {
    round_trips(sample(vec![], None, State::Stopped));
}

#[test]
fn round_trip_working() {
    round_trips(sample(
        vec!["Ada", "Grace"],
        Some(Settings {
            commit_message: "mob sync [skip ci]".to_string(),
            work_duration: 10,
        }),
        State::Working {
            driver: "Ada".to_string(),
        },
    ));
}

#[test]
fn round_trip_waiting_for_anyone() {
    round_trips(sample(
        vec!["Ada"],
        None,
        State::WaitingForNext { next: None },
    ));
}

#[test]
fn round_trip_waiting_for_someone() {
    round_trips(sample(
        vec!["Ada", "Grace"],
        Some(Settings {
            commit_message: "sync".to_string(),
            work_duration: 25,
        }),
        State::WaitingForNext {
            next: Some("Grace".to_string()),
        },
    ));
}

#[test]
fn round_trip_awkward_names() {
    round_trips(sample(
        vec!["A \"quoted\" name", "back\\slash", "tab\there", "snowman \u{2603}"],
        Some(Settings {
            commit_message: "say \"done\"\n".to_string(),
            work_duration: -3,
        }),
        State::Working {
            driver: "A \"quoted\" name".to_string(),
        },
    ));
}

#[test]
fn round_trip_extreme_durations() {
    round_trips(sample(
        vec![],
        Some(Settings {
            commit_message: String::new(),
            work_duration: i64::MAX,
        }),
        State::Stopped,
    ));
    round_trips(sample(
        vec![],
        Some(Settings {
            commit_message: String::new(),
            work_duration: i64::MIN,
        }),
        State::Stopped,
    ));
}

#[test]
fn encode_default_is_canonical() {
    let text = encode_session(&Session::default());
    assert_eq!(
        text,
        "{\"version\":\"v1\",\"drivers\":[],\"branches\":{\"branch\":\"mob-session\",\
         \"base_branch\":\"main\"},\"settings\":null,\"state\":\"Stopped\"}"
    );
}

#[test]
fn encode_working_is_canonical() {
    let session = sample(
        vec!["Ada", "Grace"],
        Some(Settings {
            commit_message: "mob sync [skip ci]".to_string(),
            work_duration: 10,
        }),
        State::Working {
            driver: "Ada".to_string(),
        },
    );
    let text = encode_session(&session);
    assert_eq!(
        text,
        "{\"version\":\"v1\",\"drivers\":[\"Ada\",\"Grace\"],\"branches\":{\"branch\":\
         \"mob-session\",\"base_branch\":\"main\"},\"settings\":{\"commit_message\":\
         \"mob sync [skip ci]\",\"work_duration\":10},\"state\":{\"Working\":{\"driver\":\
         \"Ada\"}}}"
    );
}

#[test]
fn decode_accepts_any_member_order() {
    let text = r#"{
        "state": "Stopped",
        "branches": { "base_branch": "trunk", "branch": "mob" },
        "drivers": ["Ada"],
        "version": "v1",
        "settings": null
    }"#;
    let session = decode_session(text).expect("order of members must not matter");
    assert_eq!(session.drivers.all(), vec!["Ada".to_string()]);
    assert_eq!(session.branches.base_branch, "trunk");
    assert!(matches!(session.state, State::Stopped));
}

#[test]
fn decode_future_version_is_newer() {
    let text = r#"{ "version": "v7", "anything": [1, 2, {"deep": true}] }"#;
    match decode_session(text) {
        Err(DecodeError::NewerVersion(tag)) => assert_eq!(tag, "v7"),
        other => panic!("expected a newer-version error, got {:?}", other),
    }
}

#[test]
fn decode_tagged_oldest_schema() {
    let text = r#"{
        "version": "v0",
        "last_break": "2021-09-10T14:22:41.083716Z",
        "drivers": ["Ada"],
        "branches": { "branch": "mob-session", "base_branch": "main" },
        "settings": null,
        "state": { "Working": { "driver": "Ada" } }
    }"#;
    let session = decode_session(text).expect("a tagged oldest record must load");
    assert!(matches!(&session.state, State::Working { driver } if driver == "Ada"));
    assert!(session.settings.is_none());
}

#[test]
fn decode_garbage_is_a_format_error() {
    for text in [
        "",
        "true",
        "[1,2,3]",
        "\"just a string\"",
        "{\"version\": 3}",
        "{\"drivers\": [\"Ada\"]}",
        "{\"version\": \"v1\"} trailing",
        "{\"drivers\": [\"Ada\"], \"state\": \"Stopped\"}",
    ] {
        match decode_session(text) {
            Err(DecodeError::Format) => {}
            other => panic!("{:?} should be a format error, got {:?}", text, other),
        }
    }
}

#[test]
fn decode_corrupt_current_payload_reads_as_stranger_build() {
    let text = r#"{ "version": "v1", "drivers": "not a list" }"#;
    match decode_session(text) {
        Err(DecodeError::NewerVersion(tag)) => assert_eq!(tag, "v1"),
        other => panic!("expected the version probe to answer, got {:?}", other),
    }
}

#[test]
fn decode_duration_bounds() {
    let ok = r#"{ "version": "v1", "drivers": [], "branches": {"branch": "b",
        "base_branch": "m"}, "settings": {"commit_message": "s",
        "work_duration": 9223372036854775807}, "state": "Stopped" }"#;
    let session = decode_session(ok).expect("the largest duration fits");
    assert_eq!(session.settings.unwrap().work_duration, i64::MAX);

    let too_big = r#"{ "version": "v1", "drivers": [], "branches": {"branch": "b",
        "base_branch": "m"}, "settings": {"commit_message": "s",
        "work_duration": 9223372036854775808}, "state": "Stopped" }"#;
    match decode_session(too_big) {
        Err(DecodeError::Format) => {}
        other => panic!("an overflowing duration is outside the format, got {:?}", other),
    }
}

#[test]
fn encode_escapes_control_characters() {
    let session = sample(
        vec!["bell\u{7}"],
        None,
        State::Working {
            driver: "line one\nline two\ttabbed".to_string(),
        },
    );
    let text = encode_session(&session);
    assert!(text.contains("\\u0007"));
    assert!(text.contains("line one\\nline two\\ttabbed"));
    assert!(!text.contains('\u{7}'));
    assert!(!text.contains('\n'));
}

#[test]
fn round_trip_every_low_control_character() {
    let mut name = String::new();
    for code in 1u32..32 {
        name.push(char::from_u32(code).unwrap());
    }
    round_trips(sample(
        vec![&name.clone()],
        None,
        State::Working { driver: name },
    ));
}

#[test]
fn decode_reads_unicode_escapes() {
    let text = r#"{ "version": "v1", "drivers": ["Ada\u0041", "b\b", "f\f", "\u000A\u000a"],
        "branches": {"branch": "b", "base_branch": "m"},
        "settings": null, "state": { "Working": { "driver": "é✌" } } }"#;
    let session = decode_session(text).expect("unicode escapes must read");
    assert_eq!(
        session.drivers.all(),
        vec![
            "AdaA".to_string(),
            "b\u{8}".to_string(),
            "f\u{c}".to_string(),
            "\n\n".to_string()
        ]
    );
    assert!(matches!(&session.state, State::Working { driver } if driver == "\u{e9}\u{270c}"));
}

#[test]
fn decode_rejects_broken_unicode_escapes() {
    for text in [
        r#"{ "version": "v1", "drivers": ["\uD800"], "branches": {"branch": "b",
            "base_branch": "m"}, "settings": null, "state": "Stopped" }"#,
        r#"{ "version": "v1", "drivers": ["\u00"], "branches": {"branch": "b",
            "base_branch": "m"}, "settings": null, "state": "Stopped" }"#,
        r#"{ "version": "v1", "drivers": ["\u00zz"], "branches": {"branch": "b",
            "base_branch": "m"}, "settings": null, "state": "Stopped" }"#,
    ] {
        match decode_session(text) {
            Err(DecodeError::Format) => {}
            other => panic!("{:?} should be a format error, got {:?}", text, other),
        }
    }
}
