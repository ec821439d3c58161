use bff::provider::cache::EntryTtls;
use bff::provider::session::{parse_same_site, SameSite};
use bff::scripting::{should_interrupt, ScriptEngine, MAX_OPERATIONS, PROGRESS_CHECK_EVERY};
use bff::utils::time::Duration;

/// Waits (busily) for `ms` milliseconds.
fn wait_ms(ms: u64) {
    let start = std::time::Instant::now();
    while start.elapsed() < std::time::Duration::from_millis(ms) {}
}

#[test]
fn per_entry_lifetimes_are_recorded_apart_from_the_default() {
    let mut t = EntryTtls::new(Duration::from_secs(60));
    t.on_set("default", Duration::from_secs(60));
    t.on_set("zero", Duration::zero());
    assert!(!t.expired("default"));
    assert!(!t.expired("zero"));
    t.on_set("short", Duration::from_millis(30));
    t.on_set("long", Duration::from_secs(60 * 60));
    assert!(!t.expired("long"));
    wait_ms(60);
    assert!(t.expired("short"));
    assert!(!t.expired("long"));
}

#[test]
fn delete_clears_the_recorded_lifetime() {
    let mut t = EntryTtls::new(Duration::from_secs(60));
    t.on_set("key", Duration::from_millis(1));
    wait_ms(5);
    assert!(t.expired("key"));
    t.remove("key");
    assert!(!t.expired("key"));
    // Recording again replaces the earlier lifetime.
    t.on_set("key", Duration::from_millis(1));
    t.on_set("key", Duration::from_secs(10));
    wait_ms(5);
    assert!(!t.expired("key"));
}

#[test]
fn same_site_settings() {
    assert_eq!(parse_same_site("Lax"), Ok(SameSite::Lax));
    assert_eq!(parse_same_site("STRICT"), Ok(SameSite::Strict));
    assert_eq!(parse_same_site("none"), Ok(SameSite::AllSites));
    assert_eq!(parse_same_site("Sometimes"), Err("非法 same_site 配置: sometimes".to_string()));
}

#[test]
fn script_limits() {
    let e = ScriptEngine::new();
    assert_eq!(e.max_duration().as_millis(), 2000);
    assert_eq!(e.hard_limit().as_millis(), 5000);
    let e = ScriptEngine::new_with_max_duration(Duration::from_millis(250));
    assert_eq!(e.max_duration().as_millis(), 250);
    assert_eq!(ScriptEngine::default().max_duration().as_millis(), 2000);
    assert_eq!((MAX_OPERATIONS, PROGRESS_CHECK_EVERY), (1_000_000, 10_000));
    let max = Duration::from_secs(2);
    assert!(should_interrupt(20_000, Duration::from_secs(3), max));
    assert!(!should_interrupt(20_001, Duration::from_secs(3), max));
    assert!(!should_interrupt(20_000, Duration::from_secs(2), max));
}
