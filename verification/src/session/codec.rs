//! Reading and writing the persisted session record: the layered probe over
//! the version tag, and the canonical encoding of the current schema.

use vstd::prelude::*;
use crate::json::{
    lemma_lookup_at, lemma_lookup_none, wf_json,
    find_field, lemma_jv_seq, lookup, parse_json, print_fields, print_items, print_json,
    print_str, push_json_int, push_json_str, read_json, str_content, Json, JsonSpec,
};
use crate::text::{chars_eq_str, chars_to_string, str_chars};
use super::branches::{Branches, BranchesSpec};
use super::drivers::Drivers;
use super::session::{migrate_v0_spec, Session, SessionSpec};
use super::session_v0::{SessionV0, SessionV0Spec};
use super::versioned_session::VersionedSession;
use super::settings::{Settings, SettingsSpec};
use super::settings_v0::{SettingsV0, SettingsV0Spec};
use super::state::{State, StateSpec};
use super::state_v0::{StateV0, StateV0Spec};

verus! {

/// Names as a driver list: an array of strings, and nothing else.
pub open spec fn drivers_of_jv(v: JsonSpec) -> Option<Seq<Seq<char>>> {
    match v {
        JsonSpec::Arr(items) => if forall|k: int| 0 <= k < items.len() ==> (#[trigger] items[k])
            is Str {
            Some(Seq::new(items.len(), |k: int| str_content(items[k])))
        } else {
            None
        },
        _ => None,
    }
}

pub open spec fn branches_of_jv(v: JsonSpec) -> Option<BranchesSpec> {
    match v {
        JsonSpec::Obj(f) => match (lookup(f, "branch"@), lookup(f, "base_branch"@)) {
            (Some(JsonSpec::Str(b)), Some(JsonSpec::Str(bb))) => Some(
                BranchesSpec { branch: b, base_branch: bb },
            ),
            _ => None,
        },
        _ => None,
    }
}

pub open spec fn settings_of_jv(v: JsonSpec) -> Option<SettingsSpec> {
    match v {
        JsonSpec::Obj(f) => match (lookup(f, "commit_message"@), lookup(f, "work_duration"@)) {
            (Some(JsonSpec::Str(m)), Some(JsonSpec::Int(d))) => Some(
                SettingsSpec { commit_message: m, work_duration: d },
            ),
            _ => None,
        },
        _ => None,
    }
}

pub open spec fn settings_v0_of_jv(v: JsonSpec) -> Option<SettingsV0Spec> {
    match v {
        JsonSpec::Obj(f) => match (
            lookup(f, "commit_message"@),
            lookup(f, "work_duration"@),
            lookup(f, "break_duration"@),
            lookup(f, "break_interval"@),
            lookup(f, "lunch_start"@),
            lookup(f, "lunch_end"@),
        ) {
            (
                Some(JsonSpec::Str(m)),
                Some(JsonSpec::Int(wd)),
                Some(JsonSpec::Int(bd)),
                Some(JsonSpec::Int(bi)),
                Some(JsonSpec::Str(ls)),
                Some(JsonSpec::Str(le)),
            ) => Some(
                SettingsV0Spec {
                    commit_message: m,
                    work_duration: wd,
                    break_duration: bd,
                    break_interval: bi,
                    lunch_start: ls,
                    lunch_end: le,
                },
            ),
            _ => None,
        },
        _ => None,
    }
}

/// A name field that may be absent or `null`: both mean "nobody named"; a
/// string names someone. The outer `None` is a malformed field.
pub open spec fn opt_str_of(o: Option<JsonSpec>) -> Option<Option<Seq<char>>> {
    match o {
        None => Some(None),
        Some(JsonSpec::Null) => Some(None),
        Some(JsonSpec::Str(s)) => Some(Some(s)),
        Some(_) => None,
    }
}

pub open spec fn state_of_jv(v: JsonSpec) -> Option<StateSpec> {
    match v {
        JsonSpec::Str(s) => if s == "Stopped"@ {
            Some(StateSpec::Stopped)
        } else {
            None
        },
        JsonSpec::Obj(f) => match lookup(f, "Working"@) {
            Some(JsonSpec::Obj(g)) => match lookup(g, "driver"@) {
                Some(JsonSpec::Str(d)) => Some(StateSpec::Working { driver: d }),
                _ => None,
            },
            Some(_) => None,
            None => match lookup(f, "WaitingForNext"@) {
                Some(JsonSpec::Obj(g)) => match opt_str_of(lookup(g, "next"@)) {
                    Some(n) => Some(StateSpec::WaitingForNext { next: n }),
                    None => None,
                },
                _ => None,
            },
        },
        _ => None,
    }
}

pub open spec fn state_v0_of_jv(v: JsonSpec) -> Option<StateV0Spec> {
    match v {
        JsonSpec::Str(s) => if s == "Stopped"@ {
            Some(StateV0Spec::Stopped)
        } else {
            None
        },
        JsonSpec::Obj(f) => match lookup(f, "Working"@) {
            Some(JsonSpec::Obj(g)) => match lookup(g, "driver"@) {
                Some(JsonSpec::Str(d)) => Some(StateV0Spec::Working { driver: d }),
                _ => None,
            },
            Some(_) => None,
            None => match lookup(f, "WaitingForNext"@) {
                Some(JsonSpec::Obj(g)) => match (
                    opt_str_of(lookup(g, "next"@)),
                    lookup(g, "is_break"@),
                ) {
                    (Some(n), Some(JsonSpec::Bool(b))) => Some(
                        StateV0Spec::WaitingForNext { next: n, is_break: b },
                    ),
                    _ => None,
                },
                _ => None,
            },
        },
        _ => None,
    }
}

/// The session fields of a current-schema record, read from the envelope
/// object; `None` when any required field is missing or ill-shaped.
pub open spec fn session_of_fields(f: Seq<(Seq<char>, JsonSpec)>) -> Option<SessionSpec> {
    match lookup(f, "drivers"@) {
        Some(dv) => match drivers_of_jv(dv) {
            Some(ds) => match lookup(f, "branches"@) {
                Some(bv) => match branches_of_jv(bv) {
                    Some(bs) => match lookup(f, "settings"@) {
                        Some(JsonSpec::Null) | None => match lookup(f, "state"@) {
                            Some(stv) => match state_of_jv(stv) {
                                Some(st) => Some(
                                    SessionSpec {
                                        drivers: ds,
                                        branches: bs,
                                        settings: None,
                                        state: st,
                                    },
                                ),
                                None => None,
                            },
                            None => None,
                        },
                        Some(sv) => match settings_of_jv(sv) {
                            Some(se) => match lookup(f, "state"@) {
                                Some(stv) => match state_of_jv(stv) {
                                    Some(st) => Some(
                                        SessionSpec {
                                            drivers: ds,
                                            branches: bs,
                                            settings: Some(se),
                                            state: st,
                                        },
                                    ),
                                    None => None,
                                },
                                None => None,
                            },
                            None => None,
                        },
                    },
                    None => None,
                },
                None => None,
            },
            None => None,
        },
        None => None,
    }
}

/// The session fields of an oldest-schema record.
pub open spec fn session_v0_of_fields(f: Seq<(Seq<char>, JsonSpec)>) -> Option<SessionV0Spec> {
    match lookup(f, "last_break"@) {
        Some(JsonSpec::Str(lb)) => match lookup(f, "drivers"@) {
            Some(dv) => match drivers_of_jv(dv) {
                Some(ds) => match lookup(f, "branches"@) {
                    Some(bv) => match branches_of_jv(bv) {
                        Some(bs) => match lookup(f, "settings"@) {
                            Some(JsonSpec::Null) | None => match lookup(f, "state"@) {
                                Some(stv) => match state_v0_of_jv(stv) {
                                    Some(st) => Some(
                                        SessionV0Spec {
                                            last_break: lb,
                                            drivers: ds,
                                            branches: bs,
                                            settings: None,
                                            state: st,
                                        },
                                    ),
                                    None => None,
                                },
                                None => None,
                            },
                            Some(sv) => match settings_v0_of_jv(sv) {
                                Some(se) => match lookup(f, "state"@) {
                                    Some(stv) => match state_v0_of_jv(stv) {
                                        Some(st) => Some(
                                            SessionV0Spec {
                                                last_break: lb,
                                                drivers: ds,
                                                branches: bs,
                                                settings: Some(se),
                                                state: st,
                                            },
                                        ),
                                        None => None,
                                    },
                                    None => None,
                                },
                                None => None,
                            },
                        },
                        None => None,
                    },
                    None => None,
                },
                None => None,
            },
            None => None,
        },
        _ => None,
    }
}

/// What a record's text means: a session (already migrated to the current
/// schema), a version this build does not know, or no readable record at all.
pub enum DecodedSpec {
    Sess(SessionSpec),
    Newer(Seq<char>),
    Fmt,
}

/// The layered probe over a record's text: first the recognized tagged
/// envelopes, then the bare version tag, then the untagged oldest schema.
/// A recognized tag whose payload does not fit its schema reads as a record
/// from a stranger build, exactly like an unknown tag.
pub open spec fn decode_spec(text: Seq<char>) -> DecodedSpec {
    match parse_json(text) {
        None => DecodedSpec::Fmt,
        Some(j) => match j {
            JsonSpec::Obj(f) => match lookup(f, "version"@) {
                Some(JsonSpec::Str(tag)) => if tag == "v1"@ {
                    match session_of_fields(f) {
                        Some(sv) => DecodedSpec::Sess(sv),
                        None => DecodedSpec::Newer(tag),
                    }
                } else if tag == "v0"@ {
                    match session_v0_of_fields(f) {
                        Some(s0) => DecodedSpec::Sess(migrate_v0_spec(s0)),
                        None => DecodedSpec::Newer(tag),
                    }
                } else {
                    DecodedSpec::Newer(tag)
                },
                Some(_) => DecodedSpec::Fmt,
                None => match session_v0_of_fields(f) {
                    Some(s0) => DecodedSpec::Sess(migrate_v0_spec(s0)),
                    None => DecodedSpec::Fmt,
                },
            },
            _ => DecodedSpec::Fmt,
        },
    }
}

/// Why a record's text could not be read as a session.
#[derive(Clone, Debug)]
pub enum DecodeError {
    /// The bytes parse under no recognized schema and carry no version tag.
    Format,
    /// The record was written by a build this one does not know.
    NewerVersion(String),
}

fn drivers_from(j: &Json) -> (r: Option<Drivers>)
    ensures
        match r {
            Some(d) => drivers_of_jv(j.jv()) == Some(d@),
            None => drivers_of_jv(j.jv()) is None,
        },
{
    match j {
        Json::Arr(items) => {
            proof {
                lemma_jv_seq(items@);
            }
            let ghost ji = crate::json::jv_seq(items@);
            let mut out: Vec<String> = Vec::new();
            let mut k: usize = 0;
            while k < items.len()
                invariant
                    k <= items.len(),
                    out.len() == k,
                    ji == crate::json::jv_seq(items@),
                    j.jv() == JsonSpec::Arr(ji),
                    ji.len() == items@.len(),
                    forall|m: int| 0 <= m < items@.len() ==> #[trigger] ji[m] == items@[m].jv(),
                    forall|m: int| 0 <= m < k ==> (#[trigger] ji[m]) is Str,
                    forall|m: int| 0 <= m < k ==> out.deep_view()[m] == str_content(
                        #[trigger] ji[m],
                    ),
                decreases items.len() - k,
            {
                match &items[k] {
                    Json::Str(s) => {
                        out.push(chars_to_string(s));
                    },
                    _ => {
                        proof {
                            assert(!(ji[k as int] is Str));
                        }
                        return None;
                    },
                }
                k = k + 1;
            }
            proof {
                assert(out.deep_view() =~= Seq::new(ji.len(), |m: int| str_content(ji[m])));
            }
            Some(Drivers::new(out))
        },
        _ => None,
    }
}

fn branches_from(j: &Json) -> (r: Option<Branches>)
    ensures
        match r {
            Some(b) => branches_of_jv(j.jv()) == Some(b@),
            None => branches_of_jv(j.jv()) is None,
        },
{
    match j {
        Json::Obj(f) => {
            let b = match find_field(f, "branch") {
                Some(Json::Str(s)) => chars_to_string(s),
                _ => {
                    return None;
                },
            };
            let bb = match find_field(f, "base_branch") {
                Some(Json::Str(s)) => chars_to_string(s),
                _ => {
                    return None;
                },
            };
            Some(Branches { branch: b, base_branch: bb })
        },
        _ => None,
    }
}

fn settings_from(j: &Json) -> (r: Option<Settings>)
    ensures
        match r {
            Some(s) => settings_of_jv(j.jv()) == Some(s@),
            None => settings_of_jv(j.jv()) is None,
        },
{
    match j {
        Json::Obj(f) => {
            let m = match find_field(f, "commit_message") {
                Some(Json::Str(s)) => chars_to_string(s),
                _ => {
                    return None;
                },
            };
            let d = match find_field(f, "work_duration") {
                Some(Json::Int(n)) => *n,
                _ => {
                    return None;
                },
            };
            Some(Settings { commit_message: m, work_duration: d })
        },
        _ => None,
    }
}

fn settings_v0_from(j: &Json) -> (r: Option<SettingsV0>)
    ensures
        match r {
            Some(s) => settings_v0_of_jv(j.jv()) == Some(s@),
            None => settings_v0_of_jv(j.jv()) is None,
        },
{
    match j {
        Json::Obj(f) => {
            let m = match find_field(f, "commit_message") {
                Some(Json::Str(s)) => chars_to_string(s),
                _ => {
                    return None;
                },
            };
            let wd = match find_field(f, "work_duration") {
                Some(Json::Int(n)) => *n,
                _ => {
                    return None;
                },
            };
            let bd = match find_field(f, "break_duration") {
                Some(Json::Int(n)) => *n,
                _ => {
                    return None;
                },
            };
            let bi = match find_field(f, "break_interval") {
                Some(Json::Int(n)) => *n,
                _ => {
                    return None;
                },
            };
            let ls = match find_field(f, "lunch_start") {
                Some(Json::Str(s)) => chars_to_string(s),
                _ => {
                    return None;
                },
            };
            let le = match find_field(f, "lunch_end") {
                Some(Json::Str(s)) => chars_to_string(s),
                _ => {
                    return None;
                },
            };
            Some(
                SettingsV0 {
                    commit_message: m,
                    work_duration: wd,
                    break_duration: bd,
                    break_interval: bi,
                    lunch_start: ls,
                    lunch_end: le,
                },
            )
        },
        _ => None,
    }
}

fn state_from(j: &Json) -> (r: Option<State>)
    ensures
        match r {
            Some(st) => state_of_jv(j.jv()) == Some(st@),
            None => state_of_jv(j.jv()) is None,
        },
{
    match j {
        Json::Str(s) => {
            if chars_eq_str(s, "Stopped") {
                Some(State::Stopped)
            } else {
                None
            }
        },
        Json::Obj(f) => {
            match find_field(f, "Working") {
                Some(wj) => match wj {
                    Json::Obj(g) => match find_field(g, "driver") {
                        Some(Json::Str(d)) => Some(
                            State::Working { driver: chars_to_string(d) },
                        ),
                        _ => None,
                    },
                    _ => None,
                },
                None => match find_field(f, "WaitingForNext") {
                    Some(wj) => match wj {
                        Json::Obj(g) => match find_field(g, "next") {
                            None => Some(State::WaitingForNext { next: None }),
                            Some(nj) => match nj {
                                Json::Null => Some(State::WaitingForNext { next: None }),
                                Json::Str(n) => Some(
                                    State::WaitingForNext { next: Some(chars_to_string(n)) },
                                ),
                                _ => None,
                            },
                        },
                        _ => None,
                    },
                    None => None,
                },
            }
        },
        _ => None,
    }
}

fn state_v0_from(j: &Json) -> (r: Option<StateV0>)
    ensures
        match r {
            Some(st) => state_v0_of_jv(j.jv()) == Some(st@),
            None => state_v0_of_jv(j.jv()) is None,
        },
{
    match j {
        Json::Str(s) => {
            if chars_eq_str(s, "Stopped") {
                Some(StateV0::Stopped)
            } else {
                None
            }
        },
        Json::Obj(f) => {
            match find_field(f, "Working") {
                Some(wj) => match wj {
                    Json::Obj(g) => match find_field(g, "driver") {
                        Some(Json::Str(d)) => Some(
                            StateV0::Working { driver: chars_to_string(d) },
                        ),
                        _ => None,
                    },
                    _ => None,
                },
                None => match find_field(f, "WaitingForNext") {
                    Some(wj) => match wj {
                        Json::Obj(g) => {
                            let next = match find_field(g, "next") {
                                None => None,
                                Some(nj) => match nj {
                                    Json::Null => None,
                                    Json::Str(n) => Some(chars_to_string(n)),
                                    _ => {
                                        return None;
                                    },
                                },
                            };
                            match find_field(g, "is_break") {
                                Some(Json::Bool(b)) => Some(
                                    StateV0::WaitingForNext { next, is_break: *b },
                                ),
                                _ => None,
                            }
                        },
                        _ => None,
                    },
                    None => None,
                },
            }
        },
        _ => None,
    }
}

fn session_from_fields(f: &Vec<(Vec<char>, Json)>) -> (r: Option<Session>)
    ensures
        match r {
            Some(s) => session_of_fields(crate::json::jv_fields(f@)) == Some(s@),
            None => session_of_fields(crate::json::jv_fields(f@)) is None,
        },
{
    let drivers = match find_field(f, "drivers") {
        Some(dj) => match drivers_from(dj) {
            Some(d) => d,
            None => {
                return None;
            },
        },
        None => {
            return None;
        },
    };
    let branches = match find_field(f, "branches") {
        Some(bj) => match branches_from(bj) {
            Some(b) => b,
            None => {
                return None;
            },
        },
        None => {
            return None;
        },
    };
    let settings = match find_field(f, "settings") {
        None => None,
        Some(sj) => match sj {
            Json::Null => None,
            _ => match settings_from(sj) {
                Some(s) => Some(s),
                None => {
                    return None;
                },
            },
        },
    };
    let state = match find_field(f, "state") {
        Some(stj) => match state_from(stj) {
            Some(st) => st,
            None => {
                return None;
            },
        },
        None => {
            return None;
        },
    };
    Some(Session { drivers, branches, settings, state })
}

fn session_v0_from_fields(f: &Vec<(Vec<char>, Json)>) -> (r: Option<SessionV0>)
    ensures
        match r {
            Some(s) => session_v0_of_fields(crate::json::jv_fields(f@)) == Some(s@),
            None => session_v0_of_fields(crate::json::jv_fields(f@)) is None,
        },
{
    let last_break = match find_field(f, "last_break") {
        Some(Json::Str(s)) => chars_to_string(s),
        _ => {
            return None;
        },
    };
    let drivers = match find_field(f, "drivers") {
        Some(dj) => match drivers_from(dj) {
            Some(d) => d,
            None => {
                return None;
            },
        },
        None => {
            return None;
        },
    };
    let branches = match find_field(f, "branches") {
        Some(bj) => match branches_from(bj) {
            Some(b) => b,
            None => {
                return None;
            },
        },
        None => {
            return None;
        },
    };
    let settings = match find_field(f, "settings") {
        None => None,
        Some(sj) => match sj {
            Json::Null => None,
            _ => match settings_v0_from(sj) {
                Some(s) => Some(s),
                None => {
                    return None;
                },
            },
        },
    };
    let state = match find_field(f, "state") {
        Some(stj) => match state_v0_from(stj) {
            Some(st) => st,
            None => {
                return None;
            },
        },
        None => {
            return None;
        },
    };
    Some(SessionV0 { last_break, drivers, branches, settings, state })
}

// ---------------------------------------------------------------------------
// The canonical encoding of the current schema.
// ---------------------------------------------------------------------------

pub open spec fn jv_of_opt_name(o: Option<Seq<char>>) -> JsonSpec {
    match o {
        Some(s) => JsonSpec::Str(s),
        None => JsonSpec::Null,
    }
}

pub open spec fn jv_of_state(st: StateSpec) -> JsonSpec {
    match st {
        StateSpec::Stopped => JsonSpec::Str("Stopped"@),
        StateSpec::Working { driver } => JsonSpec::Obj(
            seq![
                ("Working"@, JsonSpec::Obj(seq![("driver"@, JsonSpec::Str(driver))])),
            ],
        ),
        StateSpec::WaitingForNext { next } => JsonSpec::Obj(
            seq![
                ("WaitingForNext"@, JsonSpec::Obj(seq![("next"@, jv_of_opt_name(next))])),
            ],
        ),
    }
}

pub open spec fn jv_of_drivers(ds: Seq<Seq<char>>) -> JsonSpec {
    JsonSpec::Arr(Seq::new(ds.len(), |k: int| JsonSpec::Str(ds[k])))
}

pub open spec fn jv_of_branches(b: BranchesSpec) -> JsonSpec {
    JsonSpec::Obj(
        seq![
            ("branch"@, JsonSpec::Str(b.branch)),
            ("base_branch"@, JsonSpec::Str(b.base_branch)),
        ],
    )
}

pub open spec fn jv_of_settings(s: SettingsSpec) -> JsonSpec {
    JsonSpec::Obj(
        seq![
            ("commit_message"@, JsonSpec::Str(s.commit_message)),
            ("work_duration"@, JsonSpec::Int(s.work_duration)),
        ],
    )
}

pub open spec fn jv_of_opt_settings(o: Option<SettingsSpec>) -> JsonSpec {
    match o {
        Some(st) => jv_of_settings(st),
        None => JsonSpec::Null,
    }
}

/// The members of the envelope written for a session: the current version
/// tag first, then the record's fields.
pub open spec fn session_fields_jv(s: SessionSpec) -> Seq<(Seq<char>, JsonSpec)> {
    seq![
        ("version"@, JsonSpec::Str("v1"@)),
        ("drivers"@, jv_of_drivers(s.drivers)),
        ("branches"@, jv_of_branches(s.branches)),
        ("settings"@, jv_of_opt_settings(s.settings)),
        ("state"@, jv_of_state(s.state)),
    ]
}

/// The envelope written for a session.
pub open spec fn jv_of_session(s: SessionSpec) -> JsonSpec {
    JsonSpec::Obj(session_fields_jv(s))
}

/// The text written for a session: the canonical printed envelope.
pub open spec fn encode_spec(s: SessionSpec) -> Seq<char> {
    print_json(jv_of_session(s))
}

fn push_null(out: &mut Vec<char>)
    ensures
        final(out)@ == old(out)@ + print_json(JsonSpec::Null),
{
    out.push('n');
    out.push('u');
    out.push('l');
    out.push('l');
    proof {
        assert(out@ =~= old(out)@ + print_json(JsonSpec::Null));
    }
}

#[verifier::rlimit(60)]
fn push_state(out: &mut Vec<char>, st: &State)
    ensures
        final(out)@ == old(out)@ + print_json(jv_of_state(st@)),
{
    match st {
        State::Stopped => {
            push_json_str(out, "Stopped");
        },
        State::Working { driver } => {
            out.push('{');
            push_json_str(out, "Working");
            out.push(':');
            out.push('{');
            push_json_str(out, "driver");
            out.push(':');
            push_json_str(out, driver.as_str());
            out.push('}');
            out.push('}');
            proof {
                let fd = ("driver"@, JsonSpec::Str(driver@));
                let inner = JsonSpec::Obj(seq![fd]);
                let fw = ("Working"@, inner);
                assert((seq![fd])[0] == fd);
                assert((seq![fw])[0] == fw);
                assert(print_json(JsonSpec::Str(driver@)) == print_str(driver@));
                assert(print_fields(seq![fd]) == print_str(fd.0) + seq![':'] + print_json(fd.1));
                assert(print_json(inner) == seq!['{'] + print_fields(seq![fd]) + seq!['}']);
                assert(print_fields(seq![fw]) == print_str(fw.0) + seq![':'] + print_json(fw.1));
                assert(print_json(jv_of_state(st@)) == seq!['{'] + print_fields(seq![fw])
                    + seq!['}']);
                assert(out@ =~= old(out)@ + print_json(jv_of_state(st@)));
            }
        },
        State::WaitingForNext { next } => {
            out.push('{');
            push_json_str(out, "WaitingForNext");
            out.push(':');
            out.push('{');
            push_json_str(out, "next");
            out.push(':');
            match next {
                Some(n) => {
                    push_json_str(out, n.as_str());
                },
                None => {
                    push_null(out);
                },
            }
            out.push('}');
            out.push('}');
            proof {
                let nv = jv_of_opt_name(
                    match next {
                        Some(n) => Some(n@),
                        None => None,
                    },
                );
                let fn0 = ("next"@, nv);
                let inner = JsonSpec::Obj(seq![fn0]);
                let fw = ("WaitingForNext"@, inner);
                assert((seq![fn0])[0] == fn0);
                assert((seq![fw])[0] == fw);
                assert(print_fields(seq![fn0]) == print_str(fn0.0) + seq![':'] + print_json(
                    fn0.1,
                ));
                assert(print_json(inner) == seq!['{'] + print_fields(seq![fn0]) + seq!['}']);
                assert(print_fields(seq![fw]) == print_str(fw.0) + seq![':'] + print_json(fw.1));
                assert(print_json(jv_of_state(st@)) == seq!['{'] + print_fields(seq![fw])
                    + seq!['}']);
                assert(out@ =~= old(out)@ + print_json(jv_of_state(st@)));
            }
        },
    }
}

fn push_drivers(out: &mut Vec<char>, d: &Drivers)
    ensures
        final(out)@ == old(out)@ + print_json(jv_of_drivers(d@)),
{
    let names = d.all();
    let ghost items = Seq::new(d@.len(), |k: int| JsonSpec::Str(d@[k]));
    out.push('[');
    let mut k: usize = 0;
    proof {
        assert(items.subrange(0, items.len() as int) =~= items);
    }
    while k < names.len()
        invariant
            k <= names.len(),
            names.deep_view() == d@,
            names.len() == d@.len(),
            items == Seq::new(d@.len(), |k: int| JsonSpec::Str(d@[k])),
            out@ + print_items(items.subrange(k as int, items.len() as int)) == old(out)@
                + seq!['['] + print_items(items),
        decreases names.len() - k,
    {
        let ghost sub = items.subrange(k as int, items.len() as int);
        proof {
            assert(names@[k as int].deep_view() == d@[k as int]);
            assert(sub[0] == items[k as int]);
            assert(print_json(items[k as int]) == print_str(d@[k as int]));
        }
        push_json_str(out, names[k].as_str());
        if k + 1 < names.len() {
            out.push(',');
            proof {
                assert(sub.drop_first() =~= items.subrange(k + 1, items.len() as int));
                assert(print_items(sub) == print_json(sub[0]) + seq![','] + print_items(
                    sub.drop_first(),
                ));
                assert(out@ + print_items(items.subrange(k + 1, items.len() as int)) =~= old(
                    out,
                )@ + seq!['['] + print_items(items));
            }
        } else {
            proof {
                assert(sub.len() == 1);
                assert(print_items(sub) == print_json(sub[0]));
                assert(items.subrange(k + 1, items.len() as int) =~= Seq::<JsonSpec>::empty());
                assert(print_items(Seq::<JsonSpec>::empty()) =~= Seq::<char>::empty());
                assert(out@ + print_items(items.subrange(k + 1, items.len() as int)) =~= old(
                    out,
                )@ + seq!['['] + print_items(items));
            }
        }
        k = k + 1;
    }
    out.push(']');
    proof {
        assert(items.subrange(names.len() as int, items.len() as int) =~= Seq::<
            JsonSpec,
        >::empty());
        assert(print_items(Seq::<JsonSpec>::empty()) =~= Seq::<char>::empty());
        assert(out@ =~= old(out)@ + print_json(jv_of_drivers(d@)));
    }
}

fn push_branches(out: &mut Vec<char>, b: &Branches)
    ensures
        final(out)@ == old(out)@ + print_json(jv_of_branches(b@)),
{
    out.push('{');
    push_json_str(out, "branch");
    out.push(':');
    push_json_str(out, b.branch.as_str());
    out.push(',');
    push_json_str(out, "base_branch");
    out.push(':');
    push_json_str(out, b.base_branch.as_str());
    out.push('}');
    proof {
        let f0 = ("branch"@, JsonSpec::Str(b.branch@));
        let f1 = ("base_branch"@, JsonSpec::Str(b.base_branch@));
        assert(seq![f0, f1].drop_first() =~= seq![f1]);
        assert(print_fields(seq![f1]) == print_str(f1.0) + seq![':'] + print_json(f1.1));
        assert(print_fields(seq![f0, f1]) == print_str(f0.0) + seq![':'] + print_json(f0.1)
            + seq![','] + print_fields(seq![f1]));
        assert(out@ =~= old(out)@ + print_json(jv_of_branches(b@)));
    }
}

fn push_settings(out: &mut Vec<char>, s: &Settings)
    ensures
        final(out)@ == old(out)@ + print_json(jv_of_settings(s@)),
{
    out.push('{');
    push_json_str(out, "commit_message");
    out.push(':');
    push_json_str(out, s.commit_message.as_str());
    out.push(',');
    push_json_str(out, "work_duration");
    out.push(':');
    push_json_int(out, s.work_duration);
    out.push('}');
    proof {
        let f0 = ("commit_message"@, JsonSpec::Str(s.commit_message@));
        let f1 = ("work_duration"@, JsonSpec::Int(s.work_duration as int));
        assert(seq![f0, f1].drop_first() =~= seq![f1]);
        assert(print_fields(seq![f1]) == print_str(f1.0) + seq![':'] + print_json(f1.1));
        assert(print_fields(seq![f0, f1]) == print_str(f0.0) + seq![':'] + print_json(f0.1)
            + seq![','] + print_fields(seq![f1]));
        assert(out@ =~= old(out)@ + print_json(jv_of_settings(s@)));
    }
}

/// How the printed envelope lays out, member by member, grouped as the
/// printer's definition groups it.
proof fn lemma_session_print_shape(sv: SessionSpec)
    ensures
        print_json(jv_of_session(sv)) == seq!['{'] + (print_str("version"@) + seq![':']
            + print_json(JsonSpec::Str("v1"@)) + seq![','] + (print_str("drivers"@) + seq![':']
            + print_json(jv_of_drivers(sv.drivers)) + seq![','] + (print_str("branches"@)
            + seq![':'] + print_json(jv_of_branches(sv.branches)) + seq![','] + (print_str(
            "settings"@,
        ) + seq![':'] + print_json(jv_of_opt_settings(sv.settings)) + seq![','] + (print_str(
            "state"@,
        ) + seq![':'] + print_json(jv_of_state(sv.state))))))) + seq!['}'],
{
    let f0 = ("version"@, JsonSpec::Str("v1"@));
    let f1 = ("drivers"@, jv_of_drivers(sv.drivers));
    let f2 = ("branches"@, jv_of_branches(sv.branches));
    let f3 = ("settings"@, jv_of_opt_settings(sv.settings));
    let f4 = ("state"@, jv_of_state(sv.state));
    let ff = session_fields_jv(sv);
    assert(ff == seq![f0, f1, f2, f3, f4]);
    assert((seq![f0, f1, f2, f3, f4])[0] == f0);
    assert((seq![f1, f2, f3, f4])[0] == f1);
    assert((seq![f2, f3, f4])[0] == f2);
    assert((seq![f3, f4])[0] == f3);
    assert((seq![f4])[0] == f4);
    assert(seq![f0, f1, f2, f3, f4].drop_first() =~= seq![f1, f2, f3, f4]);
    assert(seq![f1, f2, f3, f4].drop_first() =~= seq![f2, f3, f4]);
    assert(seq![f2, f3, f4].drop_first() =~= seq![f3, f4]);
    assert(seq![f3, f4].drop_first() =~= seq![f4]);
    assert(print_fields(seq![f4]) == print_str(f4.0) + seq![':'] + print_json(f4.1));
    assert(print_fields(seq![f3, f4]) == print_str(f3.0) + seq![':'] + print_json(f3.1)
        + seq![','] + print_fields(seq![f4]));
    assert(print_fields(seq![f2, f3, f4]) == print_str(f2.0) + seq![':'] + print_json(f2.1)
        + seq![','] + print_fields(seq![f3, f4]));
    assert(print_fields(seq![f1, f2, f3, f4]) == print_str(f1.0) + seq![':'] + print_json(f1.1)
        + seq![','] + print_fields(seq![f2, f3, f4]));
    assert(print_fields(seq![f0, f1, f2, f3, f4]) == print_str(f0.0) + seq![':'] + print_json(
        f0.1,
    ) + seq![','] + print_fields(seq![f1, f2, f3, f4]));
    assert(print_json(jv_of_session(sv)) == seq!['{'] + print_fields(seq![f0, f1, f2, f3, f4])
        + seq!['}']);
}

/// Writes a session as the canonical text of the current schema. Every save
/// goes through this; no older version is ever written.
#[verifier::rlimit(80)]
pub fn encode_session(s: &Session) -> (r: String)
    ensures
        r@ == encode_spec(s@),
{
    let mut out: Vec<char> = Vec::new();
    out.push('{');
    push_json_str(&mut out, "version");
    out.push(':');
    push_json_str(&mut out, "v1");
    out.push(',');
    push_json_str(&mut out, "drivers");
    out.push(':');
    push_drivers(&mut out, &s.drivers);
    out.push(',');
    push_json_str(&mut out, "branches");
    out.push(':');
    push_branches(&mut out, &s.branches);
    out.push(',');
    push_json_str(&mut out, "settings");
    out.push(':');
    match &s.settings {
        Some(se) => {
            push_settings(&mut out, se);
        },
        None => {
            push_null(&mut out);
        },
    }
    out.push(',');
    push_json_str(&mut out, "state");
    out.push(':');
    push_state(&mut out, &s.state);
    out.push('}');
    proof {
        lemma_session_print_shape(s@);
        assert(out@ =~= encode_spec(s@));
    }
    crate::text::chars_to_string(&out)
}

// ---------------------------------------------------------------------------
// Laws: what decoding makes of what encoding wrote.
// ---------------------------------------------------------------------------

/// Sessions the machine can hold: the work duration fits in 64 signed bits.
/// Every value of the executable [`Session`] type satisfies this.
pub open spec fn wf_session_spec(s: SessionSpec) -> bool {
    match s.settings {
        Some(st) => i64::MIN <= st.work_duration <= i64::MAX,
        None => true,
    }
}

proof fn lemma_envelope_keys()
    ensures
        "version"@ != "drivers"@,
        "version"@ != "branches"@,
        "version"@ != "settings"@,
        "version"@ != "state"@,
        "drivers"@ != "branches"@,
        "drivers"@ != "settings"@,
        "drivers"@ != "state"@,
        "branches"@ != "settings"@,
        "branches"@ != "state"@,
        "settings"@ != "state"@,
        "branch"@ != "base_branch"@,
        "commit_message"@ != "work_duration"@,
        "WaitingForNext"@ != "Working"@,
{
    reveal_strlit("version");
    reveal_strlit("drivers");
    reveal_strlit("branches");
    reveal_strlit("settings");
    reveal_strlit("state");
    reveal_strlit("branch");
    reveal_strlit("base_branch");
    reveal_strlit("commit_message");
    reveal_strlit("work_duration");
    reveal_strlit("WaitingForNext");
    reveal_strlit("Working");
    assert(("version"@)[0] == 'v' && ("drivers"@)[0] == 'd');
    assert(("branches"@)[0] == 'b' && ("settings"@)[0] == 's');
    assert(("state"@)[0] == 's' && ("state"@)[1] == 't' && ("settings"@)[1] == 'e');
    assert(("branch"@)[1] == 'r' && ("base_branch"@)[1] == 'a');
    assert(("commit_message"@)[0] == 'c' && ("work_duration"@)[0] == 'w');
    assert(("WaitingForNext"@)[1] == 'a' && ("Working"@)[1] == 'o');
}

proof fn lemma_drivers_jv_wf(ds: Seq<Seq<char>>)
    ensures
        wf_json(jv_of_drivers(ds)),
        drivers_of_jv(jv_of_drivers(ds)) == Some(ds),
{
    let items = Seq::new(ds.len(), |k: int| JsonSpec::Str(ds[k]));
    assert(forall|k: int| 0 <= k < items.len() ==> (#[trigger] items[k]) is Str);
    assert(forall|k: int| 0 <= k < items.len() ==> wf_json(#[trigger] items[k]));
    assert(Seq::new(items.len(), |k: int| str_content(items[k])) =~= ds);
}

proof fn lemma_branches_jv(b: BranchesSpec)
    ensures
        wf_json(jv_of_branches(b)),
        branches_of_jv(jv_of_branches(b)) == Some(b),
{
    lemma_envelope_keys();
    let f0 = ("branch"@, JsonSpec::Str(b.branch));
    let f1 = ("base_branch"@, JsonSpec::Str(b.base_branch));
    let ff = seq![f0, f1];
    assert(ff[0] == f0 && ff[1] == f1);
    assert(lookup(ff, "branch"@) == Some(f0.1)) by {
        lemma_lookup_at(ff, "branch"@, 0);
    }
    assert(lookup(ff, "base_branch"@) == Some(f1.1)) by {
        lemma_lookup_at(ff, "base_branch"@, 1);
    }
    assert(forall|k: int| 0 <= k < ff.len() ==> wf_json((#[trigger] ff[k]).1));
}

proof fn lemma_settings_jv(st: SettingsSpec)
    requires
        i64::MIN <= st.work_duration <= i64::MAX,
    ensures
        wf_json(jv_of_settings(st)),
        settings_of_jv(jv_of_settings(st)) == Some(st),
{
    lemma_envelope_keys();
    let f0 = ("commit_message"@, JsonSpec::Str(st.commit_message));
    let f1 = ("work_duration"@, JsonSpec::Int(st.work_duration));
    let ff = seq![f0, f1];
    assert(ff[0] == f0 && ff[1] == f1);
    assert(lookup(ff, "commit_message"@) == Some(f0.1)) by {
        lemma_lookup_at(ff, "commit_message"@, 0);
    }
    assert(lookup(ff, "work_duration"@) == Some(f1.1)) by {
        lemma_lookup_at(ff, "work_duration"@, 1);
    }
    assert(forall|k: int| 0 <= k < ff.len() ==> wf_json((#[trigger] ff[k]).1));
}

proof fn lemma_state_jv(st: StateSpec)
    ensures
        wf_json(jv_of_state(st)),
        state_of_jv(jv_of_state(st)) == Some(st),
{
    lemma_envelope_keys();
    match st {
        StateSpec::Stopped => {
            assert(jv_of_state(st) == JsonSpec::Str("Stopped"@));
            assert(wf_json(jv_of_state(st)));
            assert(state_of_jv(jv_of_state(st)) == Some(st));
        },
        StateSpec::Working { driver } => {
            let fd = ("driver"@, JsonSpec::Str(driver));
            let fw = ("Working"@, JsonSpec::Obj(seq![fd]));
            assert((seq![fd])[0] == fd);
            assert((seq![fw])[0] == fw);
            assert(lookup(seq![fw], "Working"@) == Some(fw.1)) by {
                lemma_lookup_at(seq![fw], "Working"@, 0);
            }
            assert(lookup(seq![fd], "driver"@) == Some(fd.1)) by {
                lemma_lookup_at(seq![fd], "driver"@, 0);
            }
            assert(wf_json(fd.1));
            assert forall|k: int| 0 <= k < (seq![fd]).len() implies wf_json(
                (#[trigger] (seq![fd])[k]).1,
            ) by {
                assert((seq![fd])[k] == fd);
            }
            assert(wf_json(fw.1));
            assert forall|k: int| 0 <= k < (seq![fw]).len() implies wf_json(
                (#[trigger] (seq![fw])[k]).1,
            ) by {
                assert((seq![fw])[k] == fw);
            }
            assert(wf_json(jv_of_state(st)));
        },
        StateSpec::WaitingForNext { next } => {
            let fnx = ("next"@, jv_of_opt_name(next));
            let fw = ("WaitingForNext"@, JsonSpec::Obj(seq![fnx]));
            assert((seq![fnx])[0] == fnx);
            assert((seq![fw])[0] == fw);
            assert(lookup(seq![fw], "Working"@) is None) by {
                lemma_lookup_none(seq![fw], "Working"@);
            }
            assert(lookup(seq![fw], "WaitingForNext"@) == Some(fw.1)) by {
                lemma_lookup_at(seq![fw], "WaitingForNext"@, 0);
            }
            assert(lookup(seq![fnx], "next"@) == Some(fnx.1)) by {
                lemma_lookup_at(seq![fnx], "next"@, 0);
            }
            assert(wf_json(fnx.1)) by {
                match next {
                    Some(_) => {},
                    None => {},
                }
            }
            assert forall|k: int| 0 <= k < (seq![fnx]).len() implies wf_json(
                (#[trigger] (seq![fnx])[k]).1,
            ) by {
                assert((seq![fnx])[k] == fnx);
            }
            assert(wf_json(fw.1));
            assert forall|k: int| 0 <= k < (seq![fw]).len() implies wf_json(
                (#[trigger] (seq![fw])[k]).1,
            ) by {
                assert((seq![fw])[k] == fw);
            }
            assert(wf_json(jv_of_state(st)));
        },
    }
}

/// Round trip: a session written under the current schema reads back as
/// exactly that session, for every representable session value.
pub proof fn lemma_decode_encode(s: SessionSpec)
    requires
        wf_session_spec(s),
    ensures
        decode_spec(encode_spec(s)) == DecodedSpec::Sess(s),
{
    lemma_envelope_keys();
    let ff = session_fields_jv(s);
    let f0 = ("version"@, JsonSpec::Str("v1"@));
    let f1 = ("drivers"@, jv_of_drivers(s.drivers));
    let f2 = ("branches"@, jv_of_branches(s.branches));
    let f3 = ("settings"@, jv_of_opt_settings(s.settings));
    let f4 = ("state"@, jv_of_state(s.state));
    assert(ff == seq![f0, f1, f2, f3, f4]);
    assert(ff[0] == f0 && ff[1] == f1 && ff[2] == f2 && ff[3] == f3 && ff[4] == f4);
    lemma_drivers_jv_wf(s.drivers);
    lemma_branches_jv(s.branches);
    lemma_state_jv(s.state);
    match s.settings {
        Some(st) => {
            lemma_settings_jv(st);
        },
        None => {},
    }
    assert(wf_json(jv_of_session(s))) by {
        assert(forall|k: int| 0 <= k < ff.len() ==> wf_json((#[trigger] ff[k]).1));
    }
    crate::json::lemma_parse_print_json(jv_of_session(s));
    assert(parse_json(encode_spec(s)) == Some(jv_of_session(s)));
    assert(lookup(ff, "version"@) == Some(JsonSpec::Str("v1"@))) by {
        lemma_lookup_at(ff, "version"@, 0);
    }
    assert(lookup(ff, "drivers"@) == Some(f1.1)) by {
        lemma_lookup_at(ff, "drivers"@, 1);
    }
    assert(lookup(ff, "branches"@) == Some(f2.1)) by {
        lemma_lookup_at(ff, "branches"@, 2);
    }
    assert(lookup(ff, "settings"@) == Some(f3.1)) by {
        lemma_lookup_at(ff, "settings"@, 3);
    }
    assert(lookup(ff, "state"@) == Some(f4.1)) by {
        lemma_lookup_at(ff, "state"@, 4);
    }
    assert(session_of_fields(ff) == Some(s));
}

// ---------------------------------------------------------------------------
// Laws: the migration chain reads every oldest-schema record.
// ---------------------------------------------------------------------------

pub open spec fn jv_of_state_v0(st: StateV0Spec) -> JsonSpec {
    match st {
        StateV0Spec::Stopped => JsonSpec::Str("Stopped"@),
        StateV0Spec::Working { driver } => JsonSpec::Obj(
            seq![
                ("Working"@, JsonSpec::Obj(seq![("driver"@, JsonSpec::Str(driver))])),
            ],
        ),
        StateV0Spec::WaitingForNext { next, is_break } => JsonSpec::Obj(
            seq![
                (
                    "WaitingForNext"@,
                    JsonSpec::Obj(
                        seq![
                            ("next"@, jv_of_opt_name(next)),
                            ("is_break"@, JsonSpec::Bool(is_break)),
                        ],
                    ),
                ),
            ],
        ),
    }
}

pub open spec fn jv_of_settings_v0(s: SettingsV0Spec) -> JsonSpec {
    JsonSpec::Obj(
        seq![
            ("commit_message"@, JsonSpec::Str(s.commit_message)),
            ("work_duration"@, JsonSpec::Int(s.work_duration)),
            ("break_duration"@, JsonSpec::Int(s.break_duration)),
            ("break_interval"@, JsonSpec::Int(s.break_interval)),
            ("lunch_start"@, JsonSpec::Str(s.lunch_start)),
            ("lunch_end"@, JsonSpec::Str(s.lunch_end)),
        ],
    )
}

pub open spec fn jv_of_opt_settings_v0(o: Option<SettingsV0Spec>) -> JsonSpec {
    match o {
        Some(st) => jv_of_settings_v0(st),
        None => JsonSpec::Null,
    }
}

/// The members of a record as the oldest schema laid them out.
pub open spec fn session_v0_fields_jv(s: SessionV0Spec) -> Seq<(Seq<char>, JsonSpec)> {
    seq![
        ("last_break"@, JsonSpec::Str(s.last_break)),
        ("drivers"@, jv_of_drivers(s.drivers)),
        ("branches"@, jv_of_branches(s.branches)),
        ("settings"@, jv_of_opt_settings_v0(s.settings)),
        ("state"@, jv_of_state_v0(s.state)),
    ]
}

/// An oldest-schema record without any version tag, as history wrote them.
pub open spec fn jv_of_session_v0(s: SessionV0Spec) -> JsonSpec {
    JsonSpec::Obj(session_v0_fields_jv(s))
}

/// An oldest-schema record carrying its tag.
pub open spec fn jv_of_session_v0_tagged(s: SessionV0Spec) -> JsonSpec {
    JsonSpec::Obj(seq![("version"@, JsonSpec::Str("v0"@))] + session_v0_fields_jv(s))
}

/// Oldest-schema records the machine can hold.
pub open spec fn wf_session_v0_spec(s: SessionV0Spec) -> bool {
    match s.settings {
        Some(st) => {
            &&& i64::MIN <= st.work_duration <= i64::MAX
            &&& i64::MIN <= st.break_duration <= i64::MAX
            &&& i64::MIN <= st.break_interval <= i64::MAX
        },
        None => true,
    }
}

proof fn lemma_v0_keys()
    ensures
        "last_break"@ != "drivers"@,
        "last_break"@ != "branches"@,
        "last_break"@ != "settings"@,
        "last_break"@ != "state"@,
        "version"@ != "last_break"@,
        "commit_message"@ != "break_duration"@,
        "commit_message"@ != "break_interval"@,
        "commit_message"@ != "lunch_start"@,
        "commit_message"@ != "lunch_end"@,
        "work_duration"@ != "break_duration"@,
        "work_duration"@ != "break_interval"@,
        "work_duration"@ != "lunch_start"@,
        "work_duration"@ != "lunch_end"@,
        "break_duration"@ != "break_interval"@,
        "break_duration"@ != "lunch_start"@,
        "break_duration"@ != "lunch_end"@,
        "break_interval"@ != "lunch_start"@,
        "break_interval"@ != "lunch_end"@,
        "lunch_start"@ != "lunch_end"@,
        "next"@ != "is_break"@,
        "v0"@ != "v1"@,
{
    reveal_strlit("last_break");
    reveal_strlit("drivers");
    reveal_strlit("branches");
    reveal_strlit("settings");
    reveal_strlit("state");
    reveal_strlit("version");
    reveal_strlit("commit_message");
    reveal_strlit("work_duration");
    reveal_strlit("break_duration");
    reveal_strlit("break_interval");
    reveal_strlit("lunch_start");
    reveal_strlit("lunch_end");
    reveal_strlit("next");
    reveal_strlit("is_break");
    reveal_strlit("v0");
    reveal_strlit("v1");
    assert(("last_break"@)[0] == 'l' && ("drivers"@)[0] == 'd' && ("branches"@)[0] == 'b'
        && ("settings"@)[0] == 's' && ("state"@)[0] == 's' && ("version"@)[0] == 'v');
    assert(("last_break"@)[1] == 'a' && ("state"@)[1] == 't' && ("settings"@)[1] == 'e');
    assert(("commit_message"@)[0] == 'c' && ("work_duration"@)[0] == 'w' && (
    "break_duration"@)[0] == 'b' && ("break_interval"@)[0] == 'b' && ("lunch_start"@)[0] == 'l'
        && ("lunch_end"@)[0] == 'l');
    assert(("break_duration"@)[6] == 'd' && ("break_interval"@)[6] == 'i');
    assert(("lunch_start"@)[6] == 's' && ("lunch_end"@)[6] == 'e');
    assert(("next"@)[0] == 'n' && ("is_break"@)[0] == 'i');
    assert(("v0"@)[1] == '0' && ("v1"@)[1] == '1');
}

proof fn lemma_settings_v0_jv(st: SettingsV0Spec)
    requires
        i64::MIN <= st.work_duration <= i64::MAX,
        i64::MIN <= st.break_duration <= i64::MAX,
        i64::MIN <= st.break_interval <= i64::MAX,
    ensures
        wf_json(jv_of_settings_v0(st)),
        settings_v0_of_jv(jv_of_settings_v0(st)) == Some(st),
{
    lemma_envelope_keys();
    lemma_v0_keys();
    let f0 = ("commit_message"@, JsonSpec::Str(st.commit_message));
    let f1 = ("work_duration"@, JsonSpec::Int(st.work_duration));
    let f2 = ("break_duration"@, JsonSpec::Int(st.break_duration));
    let f3 = ("break_interval"@, JsonSpec::Int(st.break_interval));
    let f4 = ("lunch_start"@, JsonSpec::Str(st.lunch_start));
    let f5 = ("lunch_end"@, JsonSpec::Str(st.lunch_end));
    let ff = seq![f0, f1, f2, f3, f4, f5];
    assert(ff[0] == f0 && ff[1] == f1 && ff[2] == f2 && ff[3] == f3 && ff[4] == f4 && ff[5]
        == f5);
    assert(lookup(ff, "commit_message"@) == Some(f0.1)) by {
        lemma_lookup_at(ff, "commit_message"@, 0);
    }
    assert(lookup(ff, "work_duration"@) == Some(f1.1)) by {
        lemma_lookup_at(ff, "work_duration"@, 1);
    }
    assert(lookup(ff, "break_duration"@) == Some(f2.1)) by {
        lemma_lookup_at(ff, "break_duration"@, 2);
    }
    assert(lookup(ff, "break_interval"@) == Some(f3.1)) by {
        lemma_lookup_at(ff, "break_interval"@, 3);
    }
    assert(lookup(ff, "lunch_start"@) == Some(f4.1)) by {
        lemma_lookup_at(ff, "lunch_start"@, 4);
    }
    assert(lookup(ff, "lunch_end"@) == Some(f5.1)) by {
        lemma_lookup_at(ff, "lunch_end"@, 5);
    }
    assert(forall|k: int| 0 <= k < ff.len() ==> wf_json((#[trigger] ff[k]).1));
}

proof fn lemma_state_v0_jv(st: StateV0Spec)
    ensures
        wf_json(jv_of_state_v0(st)),
        state_v0_of_jv(jv_of_state_v0(st)) == Some(st),
{
    lemma_envelope_keys();
    lemma_v0_keys();
    match st {
        StateV0Spec::Stopped => {
            assert(jv_of_state_v0(st) == JsonSpec::Str("Stopped"@));
            assert(wf_json(jv_of_state_v0(st)));
        },
        StateV0Spec::Working { driver } => {
            let fd = ("driver"@, JsonSpec::Str(driver));
            let fw = ("Working"@, JsonSpec::Obj(seq![fd]));
            assert((seq![fd])[0] == fd);
            assert((seq![fw])[0] == fw);
            assert(lookup(seq![fw], "Working"@) == Some(fw.1)) by {
                lemma_lookup_at(seq![fw], "Working"@, 0);
            }
            assert(lookup(seq![fd], "driver"@) == Some(fd.1)) by {
                lemma_lookup_at(seq![fd], "driver"@, 0);
            }
            assert(wf_json(fd.1));
            assert forall|k: int| 0 <= k < (seq![fd]).len() implies wf_json(
                (#[trigger] (seq![fd])[k]).1,
            ) by {
                assert((seq![fd])[k] == fd);
            }
            assert(wf_json(fw.1));
            assert forall|k: int| 0 <= k < (seq![fw]).len() implies wf_json(
                (#[trigger] (seq![fw])[k]).1,
            ) by {
                assert((seq![fw])[k] == fw);
            }
            assert(wf_json(jv_of_state_v0(st)));
        },
        StateV0Spec::WaitingForNext { next, is_break } => {
            let fnx = ("next"@, jv_of_opt_name(next));
            let fb = ("is_break"@, JsonSpec::Bool(is_break));
            let inner = seq![fnx, fb];
            let fw = ("WaitingForNext"@, JsonSpec::Obj(inner));
            assert(inner[0] == fnx && inner[1] == fb);
            assert((seq![fw])[0] == fw);
            assert(lookup(seq![fw], "Working"@) is None) by {
                lemma_lookup_none(seq![fw], "Working"@);
            }
            assert(lookup(seq![fw], "WaitingForNext"@) == Some(fw.1)) by {
                lemma_lookup_at(seq![fw], "WaitingForNext"@, 0);
            }
            assert(lookup(inner, "next"@) == Some(fnx.1)) by {
                lemma_lookup_at(inner, "next"@, 0);
            }
            assert(lookup(inner, "is_break"@) == Some(fb.1)) by {
                lemma_lookup_at(inner, "is_break"@, 1);
            }
            assert(wf_json(fnx.1)) by {
                match next {
                    Some(_) => {},
                    None => {},
                }
            }
            assert forall|k: int| 0 <= k < inner.len() implies wf_json(
                (#[trigger] inner[k]).1,
            ) by {
                assert(inner[k] == fnx || inner[k] == fb);
            }
            assert(wf_json(fw.1));
            assert forall|k: int| 0 <= k < (seq![fw]).len() implies wf_json(
                (#[trigger] (seq![fw])[k]).1,
            ) by {
                assert((seq![fw])[k] == fw);
            }
            assert(wf_json(jv_of_state_v0(st)));
        },
    }
}

proof fn lemma_session_v0_fields(s0: SessionV0Spec)
    requires
        wf_session_v0_spec(s0),
    ensures
        session_v0_of_fields(session_v0_fields_jv(s0)) == Some(s0),
        forall|k: int|
            0 <= k < session_v0_fields_jv(s0).len() ==> wf_json(
                (#[trigger] session_v0_fields_jv(s0)[k]).1,
            ),
        lookup(session_v0_fields_jv(s0), "version"@) is None,
{
    lemma_envelope_keys();
    lemma_v0_keys();
    let ff = session_v0_fields_jv(s0);
    let f0 = ("last_break"@, JsonSpec::Str(s0.last_break));
    let f1 = ("drivers"@, jv_of_drivers(s0.drivers));
    let f2 = ("branches"@, jv_of_branches(s0.branches));
    let f3 = ("settings"@, jv_of_opt_settings_v0(s0.settings));
    let f4 = ("state"@, jv_of_state_v0(s0.state));
    assert(ff == seq![f0, f1, f2, f3, f4]);
    assert(ff[0] == f0 && ff[1] == f1 && ff[2] == f2 && ff[3] == f3 && ff[4] == f4);
    lemma_drivers_jv_wf(s0.drivers);
    lemma_branches_jv(s0.branches);
    lemma_state_v0_jv(s0.state);
    match s0.settings {
        Some(st) => {
            lemma_settings_v0_jv(st);
        },
        None => {},
    }
    assert(lookup(ff, "last_break"@) == Some(f0.1)) by {
        lemma_lookup_at(ff, "last_break"@, 0);
    }
    assert(lookup(ff, "drivers"@) == Some(f1.1)) by {
        lemma_lookup_at(ff, "drivers"@, 1);
    }
    assert(lookup(ff, "branches"@) == Some(f2.1)) by {
        lemma_lookup_at(ff, "branches"@, 2);
    }
    assert(lookup(ff, "settings"@) == Some(f3.1)) by {
        lemma_lookup_at(ff, "settings"@, 3);
    }
    assert(lookup(ff, "state"@) == Some(f4.1)) by {
        lemma_lookup_at(ff, "state"@, 4);
    }
    assert(lookup(ff, "version"@) is None) by {
        lemma_lookup_none(ff, "version"@);
    }
    assert(forall|k: int| 0 <= k < ff.len() ==> wf_json((#[trigger] ff[k]).1));
}

/// Migration is total over the untagged oldest schema: any record history
/// wrote without a version tag decodes to the migration of its value, no
/// field shared with the current schema dropped.
pub proof fn lemma_decode_v0_untagged(s0: SessionV0Spec)
    requires
        wf_session_v0_spec(s0),
    ensures
        decode_spec(print_json(jv_of_session_v0(s0))) == DecodedSpec::Sess(migrate_v0_spec(s0)),
{
    lemma_session_v0_fields(s0);
    assert(wf_json(jv_of_session_v0(s0)));
    crate::json::lemma_parse_print_json(jv_of_session_v0(s0));
}

/// Migration is total over the tagged oldest schema as well.
pub proof fn lemma_decode_v0_tagged(s0: SessionV0Spec)
    requires
        wf_session_v0_spec(s0),
    ensures
        decode_spec(print_json(jv_of_session_v0_tagged(s0))) == DecodedSpec::Sess(
            migrate_v0_spec(s0),
        ),
{
    lemma_envelope_keys();
    lemma_v0_keys();
    lemma_session_v0_fields(s0);
    let base = session_v0_fields_jv(s0);
    let fv = ("version"@, JsonSpec::Str("v0"@));
    let ff = seq![fv] + base;
    assert(ff[0] == fv);
    assert(forall|k: int| 1 <= k < ff.len() ==> #[trigger] ff[k] == base[k - 1]);
    assert(forall|k: int| 0 <= k < ff.len() ==> wf_json((#[trigger] ff[k]).1));
    assert(wf_json(jv_of_session_v0_tagged(s0)));
    crate::json::lemma_parse_print_json(jv_of_session_v0_tagged(s0));
    assert(lookup(ff, "version"@) == Some(fv.1)) by {
        lemma_lookup_at(ff, "version"@, 0);
    }
    assert(ff.drop_first() =~= base);
    assert(lookup(ff, "last_break"@) == lookup(base, "last_break"@));
    assert(lookup(ff, "drivers"@) == lookup(base, "drivers"@));
    assert(lookup(ff, "branches"@) == lookup(base, "branches"@));
    assert(lookup(ff, "settings"@) == lookup(base, "settings"@));
    assert(lookup(ff, "state"@) == lookup(base, "state"@));
    assert(session_v0_of_fields(ff) == Some(s0));
}

/// Reads a record's text: the current envelope first, then the version
/// probe, then the untagged oldest schema, migrating whatever was found.
pub fn decode_session(text: &str) -> (r: Result<Session, DecodeError>)
    ensures
        match r {
            Ok(s) => decode_spec(text@) == DecodedSpec::Sess(s@),
            Err(e) => match e {
                DecodeError::Format => decode_spec(text@) == DecodedSpec::Fmt,
                DecodeError::NewerVersion(tag) => decode_spec(text@) == DecodedSpec::Newer(tag@),
            },
        },
{
    let chars = str_chars(text);
    let parsed = match read_json(&chars) {
        Some(j) => j,
        None => {
            return Err(DecodeError::Format);
        },
    };
    match &parsed {
        Json::Obj(f) => {
            match find_field(f, "version") {
                Some(vj) => match vj {
                    Json::Str(tag) => {
                        if chars_eq_str(tag, "v1") {
                            match session_from_fields(f) {
                                Some(s) => Ok(s),
                                None => Err(DecodeError::NewerVersion(chars_to_string(tag))),
                            }
                        } else if chars_eq_str(tag, "v0") {
                            match session_v0_from_fields(f) {
                                Some(s0) => Ok(VersionedSession::V0(s0).latest()),
                                None => Err(DecodeError::NewerVersion(chars_to_string(tag))),
                            }
                        } else {
                            Err(DecodeError::NewerVersion(chars_to_string(tag)))
                        }
                    },
                    _ => Err(DecodeError::Format),
                },
                None => match session_v0_from_fields(f) {
                    Some(s0) => Ok(VersionedSession::V0(s0).latest()),
                    None => Err(DecodeError::Format),
                },
            }
        },
        _ => Err(DecodeError::Format),
    }
}

} // verus!
