use lookxy::config::{persist_folder_tree_initialized, persist_threaded, Config, Env};
use lookxy::json::Json;

fn no_env() -> Env {
    Env { client_id: None, backfill_days: None, refresh_secs: None, threaded: None }
}

fn obj(entries: Vec<(&str, Json)>) -> Json {
    Json::Obj(entries.into_iter().map(|(k, v)| (k.to_string(), v)).collect())
}

#[test]
fn defaults_when_no_file_and_env_overrides() {
    let c = Config::load_from(&None, &no_env());
    assert_eq!(c.backfill_days, 180);
    let mut env = no_env();
    env.backfill_days = Some("30".into());
    let c2 = Config::load_from(&None, &env);
    assert_eq!(c2.backfill_days, 30);
}

#[test]
fn defaults_are_the_documented_baked_in_values() {
    let c = Config::default();
    assert_eq!(c.client_id, "14d82eec-204b-4c2f-b7e8-296a70dab67e");
    assert_eq!(c.backfill_days, 180);
    assert_eq!(c.refresh_secs, 60);
}

#[test]
fn file_overlay_wins_over_defaults() {
    let file = obj(vec![
        ("client_id", Json::Str("custom-client".into())),
        ("backfill_days", Json::Num(7)),
        ("refresh_secs", Json::Num(15)),
    ]);
    let c = Config::load_from(&Some(file), &no_env());
    assert_eq!(c.client_id, "custom-client");
    assert_eq!(c.backfill_days, 7);
    assert_eq!(c.refresh_secs, 15);
}

#[test]
fn missing_file_falls_back_to_defaults() {
    let c = Config::load_from(&None, &no_env());
    assert_eq!(c, Config::default());
}

#[test]
fn env_overlay_wins_over_file() {
    let file = obj(vec![("backfill_days", Json::Num(7))]);
    let mut env = no_env();
    env.backfill_days = Some("99".into());
    let c = Config::load_from(&Some(file), &env);
    assert_eq!(c.backfill_days, 99);
}

#[test]
fn negative_refresh_secs_in_file_falls_back_to_default() {
    let file = obj(vec![("refresh_secs", Json::Num(-5))]);
    let c = Config::load_from(&Some(file), &no_env());
    assert_eq!(c.refresh_secs, 60);
}

#[test]
fn zero_backfill_days_in_file_falls_back_to_default() {
    let file = obj(vec![("backfill_days", Json::Num(0))]);
    let c = Config::load_from(&Some(file), &no_env());
    assert_eq!(c.backfill_days, 180);
}

#[test]
fn zero_refresh_secs_env_is_rejected() {
    let mut env = no_env();
    env.refresh_secs = Some("0".into());
    let c = Config::load_from(&None, &env);
    assert_eq!(c.refresh_secs, 60);
}

#[test]
fn negative_backfill_days_env_is_rejected() {
    let mut env = no_env();
    env.backfill_days = Some("-1".into());
    let c = Config::load_from(&None, &env);
    assert_eq!(c.backfill_days, 180);
}

#[test]
fn zero_backfill_days_env_is_rejected() {
    let mut env = no_env();
    env.backfill_days = Some("0".into());
    let c = Config::load_from(&None, &env);
    assert_eq!(c.backfill_days, 180);
}

#[test]
fn threaded_defaults_true_and_file_overlay_can_disable() {
    assert!(Config::default().threaded);
    let file = obj(vec![("threaded", Json::Bool(false))]);
    let c = Config::load_from(&Some(file), &no_env());
    assert!(!c.threaded);
}

#[test]
fn persist_threaded_roundtrips_and_preserves_other_keys() {
    let file = obj(vec![
        ("client_id", Json::Str("keep-me".into())),
        ("backfill_days", Json::Num(7)),
    ]);
    let written = Some(persist_threaded(Some(file), false));
    let c = Config::load_from(&written, &no_env());
    assert!(!c.threaded);
    assert_eq!(c.client_id, "keep-me");
    assert_eq!(c.backfill_days, 7);

    let again = Some(persist_threaded(written, true));
    assert!(Config::load_from(&again, &no_env()).threaded);
    match again {
        Some(Json::Obj(e)) => assert_eq!(e.len(), 3),
        other => panic!("expected an object, got {other:?}"),
    }
}

#[test]
fn nothing_readable_is_written_over_by_one_entry() {
    let written = persist_threaded(None, true);
    assert_eq!(written, obj(vec![("threaded", Json::Bool(true))]));
    let written = persist_threaded(Some(Json::Null), false);
    assert_eq!(written, obj(vec![("threaded", Json::Bool(false))]));
}

#[test]
fn the_environment_says_truth_in_several_ways() {
    for (said, is) in [("true", true), (" TRUE ", true), ("1", true), ("false", false), ("0", false)]
    {
        let mut env = no_env();
        env.threaded = Some(said.into());
        let file = obj(vec![("threaded", Json::Bool(!is))]);
        assert_eq!(Config::load_from(&Some(file), &env).threaded, is, "{said}");
    }
    let mut env = no_env();
    env.threaded = Some("maybe".into());
    env.client_id = Some("".into());
    let c = Config::load_from(&None, &env);
    assert!(c.threaded);
    assert_eq!(c.client_id, Config::default().client_id);
}

#[test]
fn wrong_types_in_the_file_are_skipped() {
    let file = obj(vec![
        ("client_id", Json::Num(3)),
        ("backfill_days", Json::Str("7".into())),
        ("threaded", Json::Null),
    ]);
    assert_eq!(Config::load_from(&Some(file), &no_env()), Config::default());
}

#[test]
fn signature_and_flags_come_from_the_file() {
    let c = Config::default();
    assert_eq!(c.signature, "");
    assert!(!c.reminders_notify && !c.folder_tree_initialized);
    let file = obj(vec![
        ("signature", Json::Str("Ann".into())),
        ("reminders_notify", Json::Bool(true)),
    ]);
    let c = Config::load_from(&Some(file), &no_env());
    assert_eq!(c.signature, "Ann");
    assert!(c.reminders_notify);
}

#[test]
fn the_first_expansion_is_remembered() {
    let file = obj(vec![("signature", Json::Str("Ann".into()))]);
    let written = persist_folder_tree_initialized(Some(file), true);
    let c = Config::load_from(&Some(written), &no_env());
    assert!(c.folder_tree_initialized);
    assert_eq!(c.signature, "Ann");
}
