use std::cell::RefCell;

use remotemob::git::store::{Error as GitError, Store as GitStore};
use remotemob::session::session_store::{Error, SessionStore, Store};
use remotemob::session::State;

struct MockStore {
    load_data: String,
}

impl GitStore for MockStore {
    fn load(&self) -> Result<String, GitError> {
        Ok(self.load_data.clone())
    }
    fn save(&self, _data: &str) -> Result<(), GitError> {
        panic!("save is not exercised here")
    }
    fn clean(&self) -> Result<(), GitError> {
        panic!("clean is not exercised here")
    }
}

#[test]
fn load_invalid_data() {
    let store = MockStore {
        load_data: String::from("invalid: 'json"),
    };

    let session_store = SessionStore::new(&store);

    if session_store.load().is_ok() {
        panic!("We should fail")
    }
}

#[test]
fn newer_version() {
    let json = r#"{
                  "version": "v99",
                  "drivers": [],
                  "settings": {
                    "commit_message": "mob sync [skip ci]"
                  },
                  "state": {
                    "WaitingForNext": {
                      "next": "Johan Rydenstam",
                      "is_break": false
                    }
                  }
                }"#;
    let store = MockStore {
        load_data: String::from(json),
    };

    let session_store = SessionStore::new(&store);

    match session_store.load() {
        Err(Error::NewerVersion(version)) => assert_eq!(version, "v99"),
        other => panic!("Should fail but got {:?}", other),
    }
}

#[test]
fn unversioned() {
    let json = r#"{
                  "drivers": [],
                  "last_break": "2021-09-10T14:22:41.083716Z",
                  "branches": {
                    "branch": "mob-session",
                    "base_branch": "main"
                  },
                  "settings": {
                    "commit_message": "mob sync [skip ci]",
                    "work_duration": 10,
                    "break_duration": 5,
                    "break_interval": 55,
                    "lunch_start": "11:30",
                    "lunch_end": "12:30"
                  },
                  "state": {
                    "WaitingForNext": {
                      "next": "Johan Rydenstam",
                      "is_break": false
                    }
                  }
                }"#;
    let store = MockStore {
        load_data: String::from(json),
    };

    let session_store = SessionStore::new(&store);

    if let Err(err) = session_store.load() {
        panic!("Got error but expected oldest version: {:?}", err)
    }
}

#[test]
fn migrated_record_keeps_shared_fields() {
    let json = r#"{
      "drivers": ["Ada", "Grace"],
      "last_break": "2021-09-10T14:22:41.083716Z",
      "branches": { "branch": "mob-session", "base_branch": "main" },
      "settings": {
        "commit_message": "sync it",
        "work_duration": 12,
        "break_duration": 5,
        "break_interval": 55,
        "lunch_start": "11:30",
        "lunch_end": "12:30"
      },
      "state": { "WaitingForNext": { "next": null, "is_break": true } }
    }"#;
    let store = MockStore {
        load_data: String::from(json),
    };
    let session_store = SessionStore::new(&store);
    let session = session_store.load().expect("oldest schema should load");
    assert_eq!(session.drivers.all(), vec!["Ada".to_string(), "Grace".to_string()]);
    assert_eq!(session.branches.branch, "mob-session");
    assert_eq!(session.branches.base_branch, "main");
    let settings = session.settings.expect("settings should survive migration");
    assert_eq!(settings.commit_message, "sync it");
    assert_eq!(settings.work_duration, 12);
    assert!(matches!(session.state, State::WaitingForNext { next: None }));
}

struct FreshStore;

impl GitStore for FreshStore {
    fn load(&self) -> Result<String, GitError> {
        Err(GitError::Missing)
    }
    fn save(&self, _data: &str) -> Result<(), GitError> {
        Ok(())
    }
    fn clean(&self) -> Result<(), GitError> {
        Ok(())
    }
}

#[test]
fn load_fresh_key_returns_default_session() {
    let store = FreshStore;
    let session_store = SessionStore::new(&store);
    let session = session_store.load().expect("a missing record is no error");
    assert!(matches!(session.state, State::Stopped));
    assert!(session.drivers.all().is_empty());
    assert!(session.settings.is_none());
    assert_eq!(session.branches.branch, "mob-session");
    assert_eq!(session.branches.base_branch, "main");
}

/// A shared remote: the record and the number of times it was advanced.
struct Remote {
    head: RefCell<(u32, Option<String>)>,
}

/// One client's view of the remote, tracking what it last observed.
struct ClientStore<'a> {
    remote: &'a Remote,
    observed: RefCell<u32>,
}

impl<'a> GitStore for ClientStore<'a> {
    fn load(&self) -> Result<String, GitError> {
        let head = self.remote.head.borrow();
        *self.observed.borrow_mut() = head.0;
        match &head.1 {
            Some(data) => Ok(data.clone()),
            None => Err(GitError::Missing),
        }
    }
    fn save(&self, data: &str) -> Result<(), GitError> {
        let mut head = self.remote.head.borrow_mut();
        if head.0 != *self.observed.borrow() {
            return Err(GitError::Conflict);
        }
        *head = (head.0 + 1, Some(data.to_string()));
        *self.observed.borrow_mut() = head.0;
        Ok(())
    }
    fn clean(&self) -> Result<(), GitError> {
        *self.remote.head.borrow_mut() = (0, None);
        Ok(())
    }
}

#[test]
fn stale_save_is_a_conflict() {
    let remote = Remote {
        head: RefCell::new((0, None)),
    };
    let first_client = ClientStore {
        remote: &remote,
        observed: RefCell::new(0),
    };
    let second_client = ClientStore {
        remote: &remote,
        observed: RefCell::new(0),
    };

    let first_store = SessionStore::new(&first_client);
    let second_store = SessionStore::new(&second_client);

    let stale_snapshot = first_store.load().expect("fresh load");
    let other_snapshot = second_store.load().expect("fresh load");

    second_store
        .save(other_snapshot)
        .expect("the first writer is accepted");

    match first_store.save(stale_snapshot) {
        Err(Error::Git(GitError::Conflict)) => {}
        other => panic!("A stale save must conflict, got {:?}", other),
    }

    let (version, data) = remote.head.borrow().clone();
    assert_eq!(version, 1, "the stale writer must not overwrite");
    assert!(data.is_some());
}

#[test]
fn save_then_load_round_trips() {
    let remote = Remote {
        head: RefCell::new((0, None)),
    };
    let client = ClientStore {
        remote: &remote,
        observed: RefCell::new(0),
    };
    let store = SessionStore::new(&client);

    let mut session = store.load().expect("fresh load");
    session.drivers = remotemob::session::drivers::Drivers::new(vec![
        "Ada".to_string(),
        "Grace".to_string(),
    ]);
    session.state = State::Working {
        driver: "Ada".to_string(),
    };
    store.save(session).expect("first write");

    let back = store.load().expect("own record loads");
    assert_eq!(back.drivers.all(), vec!["Ada".to_string(), "Grace".to_string()]);
    assert!(matches!(&back.state, State::Working { driver } if driver == "Ada"));
}
