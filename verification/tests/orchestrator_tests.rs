use md_book::config::BookConfig;
use md_book::numfmt::u32_to_string;
use md_book::numfmt::u64_to_string;
use md_book::numfmt::year_to_string;
use md_book::orchestrator::LoopAction;
use md_book::orchestrator::Phase;
use md_book::orchestrator::after_initial_build;
use md_book::orchestrator::get_templates_dir;
use md_book::orchestrator::on_change;
use md_book::orchestrator::on_rebuild_done;
use md_book::orchestrator::on_tick;

#[test]
fn test_initial_phase_transitions() {
    assert_eq!(after_initial_build(false, true, true).phase, Phase::Terminated);
    assert_eq!(after_initial_build(true, false, false).phase, Phase::Terminated);
    assert_eq!(after_initial_build(true, true, false).phase, Phase::WatchingDebounce);
    assert_eq!(after_initial_build(true, false, true).phase, Phase::WatchingDebounce);
}

#[test]
fn test_debounce_coalesces_changes() {
    let st = after_initial_build(true, true, false);
    // A quiet tick rebuilds nothing.
    let (st, rebuild) = on_tick(st);
    assert!(!rebuild);
    // Many changes within one window trigger exactly one rebuild.
    let st = on_change(st);
    let st = on_change(st);
    let st = on_change(st);
    let (st, rebuild) = on_tick(st);
    assert!(rebuild);
    assert_eq!(st.phase, Phase::Building);
    let (st, action) = on_rebuild_done(st, true);
    assert_eq!(action, LoopAction::SignalReload);
    assert_eq!(st.phase, Phase::WatchingDebounce);
    // The drained window rebuilds nothing more.
    let (_, rebuild) = on_tick(st);
    assert!(!rebuild);
}

#[test]
fn test_failed_rebuild_is_logged_and_loop_continues() {
    let st = after_initial_build(true, true, false);
    let st = on_change(st);
    let (st, rebuild) = on_tick(st);
    assert!(rebuild);
    let (st, action) = on_rebuild_done(st, false);
    assert_eq!(action, LoopAction::LogError);
    assert_eq!(st.phase, Phase::WatchingDebounce);
}

#[test]
fn test_templates_dir_watch_choice() {
    let config = BookConfig::default();
    assert_eq!(get_templates_dir(&config, true).unwrap(), "templates");
    assert!(get_templates_dir(&config, false).is_none());
}

#[test]
fn test_decimal_formatting() {
    assert_eq!(u32_to_string(0), "0");
    assert_eq!(u32_to_string(7), "7");
    assert_eq!(u32_to_string(4294967295), "4294967295");
    assert_eq!(u64_to_string(1200), "1200");
    assert_eq!(year_to_string(2024), "2024");
    assert_eq!(year_to_string(0), "0");
    assert_eq!(year_to_string(-44), "-44");
}
