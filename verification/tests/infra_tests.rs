use nira::cache::{TtlCache, DEFAULT_TTL_SECS};
use nira::clock::{ms_of, now_unix, secs_of, unix_ms};
use nira::config::{
    corrupt_backup_name, default_true, is_stale_tmp, receipt_result, resolve_load,
    temp_file_name, to_decimal, ui_font_stack, ConfirmOutcome, JsonLoad, PersistReceipt,
    ThemePref,
};

#[test]
fn cache_answers_within_its_ttl_and_the_asked_age() {
    let mut c = TtlCache::with_ttl(100);
    assert_eq!(c.ttl_secs(), 100);
    c.put_at("k".to_string(), "v1".to_string(), 1_000);
    assert_eq!(c.get_fresher_than_at("k", 500, 1_100), Some("v1".to_string()));
    assert_eq!(c.get_fresher_than_at("k", 500, 1_101), None);
    assert_eq!(c.get_fresher_than_at("k", 10, 1_011), None);
    assert_eq!(c.get_fresher_than_at("k", 10, 1_010), Some("v1".to_string()));
    assert_eq!(c.get_fresher_than_at("other", 10, 1_000), None);
    c.put_at("k".to_string(), "v2".to_string(), 2_000);
    assert_eq!(c.get_fresher_than_at("k", 100, 2_050), Some("v2".to_string()));
}

#[test]
fn cache_snapshot_drops_expired_entries() {
    let mut c = TtlCache::with_ttl(100);
    c.put_at("old".to_string(), "a".to_string(), 10);
    c.put_at("new".to_string(), "b".to_string(), 500);
    let snap = c.flush_snapshot(550);
    assert_eq!(snap.len(), 1);
    assert_eq!(snap[0].0, "new");
    assert_eq!(snap[0].1.value, "b");
    assert_eq!(snap[0].1.inserted_at_unix, 500);
    c.clear();
    assert!(c.flush_snapshot(550).is_empty());
}

#[test]
fn cache_put_and_get_now() {
    let mut c = TtlCache::new();
    assert_eq!(c.ttl_secs(), DEFAULT_TTL_SECS);
    c.put("k".to_string(), "v".to_string());
    assert_eq!(c.get("k"), Some("v".to_string()));
    assert_eq!(c.get_fresher_than("k", 60), Some("v".to_string()));
}

#[test]
fn clock_conversions() {
    assert_eq!(ms_of(1_999_999), 1);
    assert_eq!(ms_of(u128::MAX), i64::MAX);
    assert_eq!(secs_of(2_500_000_000), 2);
    assert!(unix_ms() > 1_600_000_000_000);
    assert!(now_unix() > 1_600_000_000);
}

#[test]
fn font_stacks_and_defaults() {
    assert_eq!(ui_font_stack(Some("inter")), "\"Inter\", system-ui, sans-serif");
    assert_eq!(ui_font_stack(Some("system")), "system-ui, sans-serif");
    assert_eq!(
        ui_font_stack(Some("comic")),
        "\"Geist\", \"Inter\", system-ui, -apple-system, \"Segoe UI\", sans-serif"
    );
    assert_eq!(ui_font_stack(None), ui_font_stack(Some("unknown")));
    assert!(default_true());
    assert_eq!(ThemePref::default(), ThemePref::System);
}

#[test]
fn loads_resolve_to_values_or_defaults() {
    assert_eq!(resolve_load(JsonLoad::Loaded(5), 0), (5, false));
    assert_eq!(resolve_load(JsonLoad::Missing, 0), (0, false));
    assert_eq!(
        resolve_load(JsonLoad::Quarantined { backup: "b".into(), reason: "r".into() }, 1),
        (1, false)
    );
    assert_eq!(resolve_load(JsonLoad::Blocked { reason: "r".into() }, 2), (2, true));
}

#[test]
fn temp_and_backup_names() {
    assert_eq!(temp_file_name("likes.json", 42, 7), ".likes.json.tmp-42-7");
    assert_eq!(corrupt_backup_name("likes.json", 1700, 42, 3), ".likes.json.corrupt-1700-42-3");
    assert_eq!(to_decimal(0), "0");
    assert_eq!(to_decimal(18_446_744_073_709_551_615), "18446744073709551615");
}

#[test]
fn sweep_touches_only_other_processes_temp_files() {
    assert!(is_stale_tmp(".likes.json.tmp-99-1", 42));
    assert!(!is_stale_tmp(".likes.json.tmp-42-1", 42));
    assert!(!is_stale_tmp("likes.json", 42));
    assert!(!is_stale_tmp("likes.json.tmp-99-1", 42));
    assert!(!is_stale_tmp(".likes.json", 42));
}

#[test]
fn receipts_report_the_disk_result_or_why_none_came() {
    assert_eq!(receipt_result(ConfirmOutcome::Answered(Ok(()))), Ok(()));
    assert_eq!(receipt_result(ConfirmOutcome::Answered(Err("disk full".into()))), Err("disk full".to_string()));
    assert_eq!(receipt_result(ConfirmOutcome::TimedOut), Err("save confirmation timed out".to_string()));
    assert_eq!(receipt_result(ConfirmOutcome::Disconnected), Err("persistence writer thread gone".to_string()));

    let (tx, rx) = std::sync::mpsc::channel();
    tx.send(Err("no space".to_string())).unwrap();
    assert_eq!(PersistReceipt(rx).wait(1_000_000_000), Err("no space".to_string()));
    let (tx, rx) = std::sync::mpsc::channel::<Result<(), String>>();
    drop(tx);
    assert_eq!(PersistReceipt(rx).wait(1_000_000_000), Err("persistence writer thread gone".to_string()));
    let (_tx, rx) = std::sync::mpsc::channel::<Result<(), String>>();
    assert_eq!(PersistReceipt(rx).wait(1_000_000), Err("save confirmation timed out".to_string()));
}

#[test]
fn an_unreadable_settings_file_is_never_overwritten() {
    assert_eq!(nira::config::save_allowed(false), Ok(()));
    assert_eq!(
        nira::config::save_allowed(true),
        Err("config persistence is disabled because the existing file is unreadable".to_string())
    );
}

#[test]
fn an_entry_whose_allowed_age_reaches_the_end_of_time_is_always_served() {
    let mut c = TtlCache::with_ttl(u64::MAX);
    c.put_at("k".to_string(), "v".to_string(), 5);
    assert_eq!(c.get("k"), Some("v".to_string()));
    assert_eq!(c.get_fresher_than("k", u64::MAX), Some("v".to_string()));
    assert_eq!(c.get("missing"), None);
}
