use std::cell::RefCell;

use remotemob::cmd::done::{done_decision, Done, DoneDecision};
use remotemob::cmd::next::{Next, NextOutcome};
use remotemob::cmd::order::{propose_next, reorder};
use remotemob::cmd::start::{start_decision, take_turn, StartDecision};
use remotemob::config::{Config, Hooks};
use remotemob::git::store::{Error as GitError, Store as GitStore};
use remotemob::git::Git;
use remotemob::session::branches::Branches;
use remotemob::session::codec::{decode_session, encode_session};
use remotemob::session::drivers::Drivers;
use remotemob::session::session_store::{SessionStore, Store};
use remotemob::session::settings::Settings;
use remotemob::session::{Event, Session, State};

fn session_with(drivers: Vec<&str>, state: State) -> Session {
    Session {
        drivers: Drivers::new(drivers.into_iter().map(String::from).collect()),
        branches: Branches::default(),
        settings: Some(Settings::default()),
        state,
    }
}

#[test]
fn rotation_hand_off_scenario() {
    let drivers = Drivers::new(vec!["A".to_string(), "B".to_string()]);
    assert_eq!(drivers.next("A"), Some("B".to_string()));

    let session = Session {
        drivers,
        branches: Branches::default(),
        settings: None,
        state: State::Working {
            driver: "A".to_string(),
        },
    };

    let waiting = session
        .next(Event::Next {
            next: Some("B".to_string()),
        })
        .expect("a working driver may hand off");
    assert!(matches!(&waiting.state, State::WaitingForNext { next: Some(n) } if n == "B"));

    let working = waiting
        .next(Event::Start {
            driver: "B".to_string(),
        })
        .expect("the expected member may start");
    assert!(matches!(&working.state, State::Working { driver } if driver == "B"));
}

#[test]
fn invalid_transitions_are_typed_errors() {
    let stopped = session_with(vec![], State::Stopped);
    assert!(stopped.next(Event::Done).is_err());

    let stopped = session_with(vec![], State::Stopped);
    assert!(stopped.next(Event::Next { next: None }).is_err());

    let working = session_with(
        vec!["A"],
        State::Working {
            driver: "A".to_string(),
        },
    );
    let unchanged = working
        .next(Event::Start {
            driver: "B".to_string(),
        })
        .is_err();
    assert!(unchanged, "starting over a working driver is not a machine step");
}

#[test]
fn done_ends_from_either_active_state() {
    let working = session_with(
        vec!["A"],
        State::Working {
            driver: "A".to_string(),
        },
    );
    let stopped = working.next(Event::Done).expect("done ends a turn");
    assert!(matches!(stopped.state, State::Stopped));

    let waiting = session_with(vec!["A"], State::WaitingForNext { next: None });
    let stopped = waiting.next(Event::Done).expect("done ends a wait");
    assert!(matches!(stopped.state, State::Stopped));
}

#[test]
fn take_turn_slots_in_after_previous_driver() {
    let session = session_with(
        vec!["A", "B"],
        State::WaitingForNext {
            next: Some("B".to_string()),
        },
    );
    let (next_session, next_driver) = take_turn(session, "C");
    assert_eq!(
        next_session.drivers.all(),
        vec!["A".to_string(), "B".to_string(), "C".to_string()]
    );
    assert!(matches!(&next_session.state, State::Working { driver } if driver == "C"));
    assert_eq!(next_driver, Some("A".to_string()));
}

#[test]
fn take_turn_of_member_keeps_rotation() {
    let session = session_with(
        vec!["A", "B"],
        State::WaitingForNext {
            next: Some("B".to_string()),
        },
    );
    let (next_session, next_driver) = take_turn(session, "B");
    assert_eq!(next_session.drivers.all(), vec!["A".to_string(), "B".to_string()]);
    assert_eq!(next_driver, Some("A".to_string()));
}

#[test]
fn reorder_reaims_a_pending_hand_off() {
    let session = session_with(
        vec!["A", "B", "C"],
        State::WaitingForNext {
            next: Some("B".to_string()),
        },
    );
    let old_order = Drivers::new(vec!["A".to_string(), "B".to_string(), "C".to_string()]);
    let ordered = Drivers::new(vec!["C".to_string(), "A".to_string(), "B".to_string()]);

    // "B" was expected, so "A" hands over; after "A" in the new order comes "B".
    let next = propose_next(&old_order, &ordered, "B");
    assert_eq!(next, Some("B".to_string()));

    let reordered = reorder(session, ordered, next);
    assert_eq!(
        reordered.drivers.all(),
        vec!["C".to_string(), "A".to_string(), "B".to_string()]
    );
    assert!(matches!(&reordered.state, State::WaitingForNext { next: Some(n) } if n == "B"));
}

#[test]
fn reorder_leaves_other_states_alone() {
    let session = session_with(
        vec!["A", "B"],
        State::Working {
            driver: "A".to_string(),
        },
    );
    let ordered = Drivers::new(vec!["B".to_string(), "A".to_string()]);
    let reordered = reorder(session, ordered, None);
    assert!(matches!(&reordered.state, State::Working { driver } if driver == "A"));
}

#[test]
fn done_decision_cases() {
    assert!(matches!(done_decision(&State::Stopped, "me"), DoneDecision::NoSession));
    assert!(matches!(
        done_decision(
            &State::Working {
                driver: "me".to_string()
            },
            "me"
        ),
        DoneDecision::Finish
    ));
    assert!(matches!(
        done_decision(
            &State::Working {
                driver: "other".to_string()
            },
            "me"
        ),
        DoneDecision::AskTakeOver(d) if d == "other"
    ));
    assert!(matches!(
        done_decision(&State::WaitingForNext { next: None }, "me"),
        DoneDecision::Finish
    ));
}

#[test]
fn start_decision_cases() {
    let stopped = session_with(vec![], State::Stopped);
    assert!(matches!(start_decision(&stopped, "me"), StartDecision::StartNew));

    let mine = session_with(
        vec!["me"],
        State::Working {
            driver: "me".to_string(),
        },
    );
    assert!(matches!(start_decision(&mine, "me"), StartDecision::AlreadyDriving));

    let theirs = session_with(
        vec!["other"],
        State::Working {
            driver: "other".to_string(),
        },
    );
    assert!(matches!(
        start_decision(&theirs, "me"),
        StartDecision::AskRetryOrTake(d) if d == "other"
    ));

    let expected_me = session_with(
        vec!["me", "other"],
        State::WaitingForNext {
            next: Some("me".to_string()),
        },
    );
    assert!(matches!(start_decision(&expected_me, "me"), StartDecision::Begin));

    let expected_other_member = session_with(
        vec!["me", "other"],
        State::WaitingForNext {
            next: Some("other".to_string()),
        },
    );
    assert!(matches!(
        start_decision(&expected_other_member, "me"),
        StartDecision::AskTakeOver(d) if d == "other"
    ));

    let expected_other_stranger = session_with(
        vec!["other"],
        State::WaitingForNext {
            next: Some("other".to_string()),
        },
    );
    assert!(matches!(
        start_decision(&expected_other_stranger, "me"),
        StartDecision::Begin
    ));
}

/// A working copy that accepts every command without doing anything.
struct QuietGit;

impl Git for QuietGit {
    fn run(&self, _args: &[&str]) -> Result<(), String> {
        Ok(())
    }
    fn tree_is_clean(&self) -> Result<bool, String> {
        Ok(true)
    }
    fn has_branch(&self, _branch: &str) -> Result<bool, String> {
        Ok(true)
    }
    fn current_branch(&self) -> Result<Option<String>, String> {
        Ok(Some("mob-session".to_string()))
    }
    fn dirty_files(&self) -> Result<String, String> {
        Ok(String::new())
    }
}

/// A record held in memory, written and read through the codec.
struct MemoryStore {
    record: RefCell<Option<String>>,
}

impl GitStore for MemoryStore {
    fn load(&self) -> Result<String, GitError> {
        match &*self.record.borrow() {
            Some(data) => Ok(data.clone()),
            None => Err(GitError::Missing),
        }
    }
    fn save(&self, data: &str) -> Result<(), GitError> {
        *self.record.borrow_mut() = Some(data.to_string());
        Ok(())
    }
    fn clean(&self) -> Result<(), GitError> {
        *self.record.borrow_mut() = None;
        Ok(())
    }
}

fn config_for(name: &str) -> Config {
    Config {
        name: name.to_string(),
        remote: "origin".to_string(),
        hooks: Hooks::new(None),
    }
}

#[test]
fn next_command_hands_the_turn_off() {
    let git = QuietGit;
    let backing = MemoryStore {
        record: RefCell::new(Some(encode_session(&session_with(
            vec!["A", "B"],
            State::Working {
                driver: "A".to_string(),
            },
        )))),
    };
    let store = SessionStore::new(&backing);
    let command = Next::new(&git, &store, config_for("A"));

    match command.run() {
        Ok(NextOutcome::TurnEnded(next)) => assert_eq!(next, Some("B".to_string())),
        other => panic!("expected the turn to end, got {:?}", other),
    }

    let saved = backing.record.borrow().clone().expect("a record was saved");
    let session = decode_session(&saved).expect("the saved record decodes");
    assert!(matches!(&session.state, State::WaitingForNext { next: Some(n) } if n == "B"));
}

#[test]
fn next_command_refuses_anothers_turn() {
    let git = QuietGit;
    let backing = MemoryStore {
        record: RefCell::new(Some(encode_session(&session_with(
            vec!["A", "B"],
            State::Working {
                driver: "B".to_string(),
            },
        )))),
    };
    let store = SessionStore::new(&backing);
    let command = Next::new(&git, &store, config_for("A"));

    match command.run() {
        Ok(NextOutcome::NotYourTurn(driver)) => assert_eq!(driver, "B"),
        other => panic!("expected a refusal, got {:?}", other),
    }
}

#[test]
fn next_command_outside_a_session() {
    let git = QuietGit;
    let backing = MemoryStore {
        record: RefCell::new(None),
    };
    let store = SessionStore::new(&backing);
    let command = Next::new(&git, &store, config_for("A"));

    match command.run() {
        Ok(NextOutcome::NoSession) => {}
        other => panic!("expected no session, got {:?}", other),
    }
}

#[test]
fn done_command_saves_the_stopped_record() {
    let git = QuietGit;
    let backing = MemoryStore {
        record: RefCell::new(Some(encode_session(&session_with(
            vec!["A", "B"],
            State::Working {
                driver: "A".to_string(),
            },
        )))),
    };
    let store = SessionStore::new(&backing);
    let command = Done::new(&git, &store, config_for("A"));

    let session = store.load().expect("the record loads");
    let receipt = command
        .done(session)
        .expect("the merge goes through")
        .expect("nothing was dirty");
    assert!(matches!(receipt.state, State::Stopped));
    assert_eq!(receipt.drivers.all(), vec!["A".to_string(), "B".to_string()]);

    let saved = backing.record.borrow().clone().expect("a record was saved");
    let session = decode_session(&saved).expect("the saved record decodes");
    assert!(matches!(session.state, State::Stopped));
    assert_eq!(session.drivers.all(), vec!["A".to_string(), "B".to_string()]);
}

#[test]
fn next_handle_maps_each_state() {
    let git = QuietGit;
    let backing = MemoryStore {
        record: RefCell::new(None),
    };
    let store = SessionStore::new(&backing);
    let command = Next::new(&git, &store, config_for("A"));

    let stopped = session_with(vec![], State::Stopped);
    assert!(matches!(command.handle(stopped), Ok(NextOutcome::NoSession)));

    let waiting = session_with(
        vec!["A", "B"],
        State::WaitingForNext {
            next: Some("B".to_string()),
        },
    );
    assert!(matches!(
        command.handle(waiting),
        Ok(NextOutcome::Waiting(Some(n))) if n == "B"
    ));

    let estranged = session_with(
        vec!["B", "C"],
        State::Working {
            driver: "A".to_string(),
        },
    );
    assert!(matches!(command.handle(estranged), Ok(NextOutcome::NotInRotation)));
}
