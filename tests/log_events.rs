use cephalon::cache::{after_lookup, after_produce, after_store, CacheError, CacheStep, StoreFailure};
use cephalon::lifecycle::{CaptureController, ControlAction};
use cephalon::log_entry::LogEntry;
use cephalon::net::{after_response, RetryDecision, THROTTLE_BACKOFF_MS};

#[test]
fn parse_script_line_with_timestamp() {
    let e = LogEntry::parse(
        "123.456 Script [Info]: ProjectionRewardChoice.lua: Relic rewards initialized",
    );
    assert_eq!(
        e,
        Some(LogEntry::ScriptInfo {
            script: "ProjectionRewardChoice".to_string(),
            content: "Relic rewards initialized".to_string(),
        })
    );
}

#[test]
fn parse_plain_lines() {
    assert_eq!(
        LogEntry::parse("Net [Info]: Num session players: 3"),
        Some(LogEntry::NetInfo("Num session players: 3".to_string()))
    );
    assert_eq!(
        LogEntry::parse("  7.1 Sys [Warning]:   disk   \r\n"),
        Some(LogEntry::SysWarning("disk".to_string()))
    );
    assert_eq!(
        LogEntry::parse("AI [Info]: thinking"),
        Some(LogEntry::AIInfo("thinking".to_string()))
    );
    assert_eq!(
        LogEntry::parse("Game [Warning]: x"),
        Some(LogEntry::GameWarning("x".to_string()))
    );
}

#[test]
fn parse_rejects_unknown_or_malformed() {
    assert_eq!(LogEntry::parse("Foo [Info]: x"), None);
    assert_eq!(LogEntry::parse("Net [Warning]: x"), None);
    assert_eq!(LogEntry::parse("no header here"), None);
    assert_eq!(LogEntry::parse("Script [Info]: no script prefix"), None);
    assert_eq!(LogEntry::parse(""), None);
}

#[test]
fn parse_finds_leftmost_header() {
    assert_eq!(
        LogEntry::parse("junk 1.2 Gfx [Info]: frame [Info]: again"),
        Some(LogEntry::GfxInfo("frame [Info]: again".to_string()))
    );
}

#[test]
fn controller_tracks_squad_and_starts_sessions() {
    let mut c = CaptureController::new();
    let start = LogEntry::ScriptInfo {
        script: "ProjectionRewardChoice".to_string(),
        content: "Relic rewards initialized".to_string(),
    };
    assert_eq!(c.handle(&start), ControlAction::StartSession(4));
    assert_eq!(
        c.handle(&LogEntry::NetInfo("Num session players: 2".to_string())),
        ControlAction::Nothing
    );
    assert_eq!(c.squad_size, 2);
    assert_eq!(c.handle(&start), ControlAction::StartSession(2));
    assert_eq!(
        c.handle(&LogEntry::NetInfo("Num session players: 9".to_string())),
        ControlAction::Nothing
    );
    assert_eq!(c.squad_size, 2);
    let got = LogEntry::ScriptInfo {
        script: "ProjectionRewardChoice".to_string(),
        content: "Got rewards".to_string(),
    };
    assert_eq!(c.handle(&got), ControlAction::CancelSession);
    let other = LogEntry::ScriptInfo {
        script: "Other".to_string(),
        content: "Relic rewards initialized".to_string(),
    };
    assert_eq!(c.handle(&other), ControlAction::Nothing);
}

#[test]
fn cache_uses_stored_value_without_producing() {
    let step: CacheStep<Vec<u32>, String> = after_lookup(Some(vec![1, 2, 3]));
    assert_eq!(step, CacheStep::Finished(Ok(vec![1, 2, 3])));
    let miss: CacheStep<Vec<u32>, String> = after_lookup(None);
    assert_eq!(miss, CacheStep::Produce);
}

#[test]
fn cache_produce_and_store_outcomes() {
    let ok: CacheStep<u32, String> = after_produce(Ok(5));
    assert_eq!(ok, CacheStep::Store(5));
    let err: CacheStep<u32, String> = after_produce(Err("down".to_string()));
    assert_eq!(err, CacheStep::Finished(Err(CacheError::InnerError("down".to_string()))));
    assert_eq!(after_store::<u32, String>(5, Ok(())), Ok(5));
    assert_eq!(
        after_store::<u32, String>(5, Err(StoreFailure::Create("ro".to_string()))),
        Err(CacheError::CreateFileError("ro".to_string()))
    );
    assert_eq!(
        after_store::<u32, String>(5, Err(StoreFailure::Serialize("bad".to_string()))),
        Err(CacheError::SerdeError("bad".to_string()))
    );
}

#[test]
fn throttled_responses_are_retried() {
    assert_eq!(after_response(429), RetryDecision::RetryAfter(THROTTLE_BACKOFF_MS));
    assert_eq!(after_response(200), RetryDecision::Accept);
    assert_eq!(after_response(500), RetryDecision::Accept);
}
