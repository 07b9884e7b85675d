use remotemob::config::mob::Config as RepoConfig;
use remotemob::config::Hooks;
use remotemob::session::branches::Branches;
use remotemob::session::settings::Settings;
use remotemob::session::{Session, State};
use remotemob::store::Key;

#[test]
fn branches_with_remote_qualifies_both_names() {
    let branches = Branches {
        branch: "mob-session".to_string(),
        base_branch: "main".to_string(),
    };
    let remote = branches.with_remote("origin");
    assert_eq!(remote.branch, "origin/mob-session");
    assert_eq!(remote.base_branch, "origin/main");
}

#[test]
fn default_branches_and_settings() {
    let branches = Branches::default();
    assert_eq!(branches.branch, "mob-session");
    assert_eq!(branches.base_branch, "main");

    let settings = Settings::default();
    assert_eq!(settings.commit_message, "mob sync [skip ci]");
    assert_eq!(settings.work_duration, 10);
}

#[test]
fn commit_message_falls_back_to_default() {
    let mut session = Session::default();
    assert_eq!(session.commit_message(), "mob sync [skip ci]");
    session.settings = Some(Settings {
        commit_message: "landing".to_string(),
        work_duration: 15,
    });
    assert_eq!(session.commit_message(), "landing");
}

#[test]
fn get_driver_follows_the_state() {
    let mut session = Session::default();
    assert_eq!(session.get_driver(), None);
    session.state = State::Working {
        driver: "Ada".to_string(),
    };
    assert_eq!(session.get_driver(), Some("Ada".to_string()));
    session.state = State::WaitingForNext {
        next: Some("Grace".to_string()),
    };
    assert_eq!(session.get_driver(), Some("Grace".to_string()));
    session.state = State::WaitingForNext { next: None };
    assert_eq!(session.get_driver(), None);
}

#[test]
fn store_keys_have_names() {
    assert_eq!(Key::Settings.as_str(), "settings");
    assert_eq!(Key::Session.as_str(), "session");
}

#[test]
fn hooks_new_sets_only_the_timer_hook() {
    let hooks = Hooks::new(Some("say done".to_string()));
    assert_eq!(hooks.after_timer, Some("say done".to_string()));
    assert!(hooks.before_start.is_none());
    assert!(hooks.after_start.is_none());
    assert!(hooks.before_next.is_none());
    assert!(hooks.after_next.is_none());
    assert!(hooks.before_done.is_none());
    assert!(hooks.after_done.is_none());
}

#[test]
fn repo_config_qualifies_branches() {
    let config = RepoConfig {
        break_duration: 5,
        lunch_start: "11:30".to_string(),
        mob_branch: "mob-session".to_string(),
        base_branch: "main".to_string(),
        remote: "origin".to_string(),
    };
    assert_eq!(config.remote_mob_branch(), "origin/mob-session");
    assert_eq!(config.remote_base_branch(), "origin/main");
}
