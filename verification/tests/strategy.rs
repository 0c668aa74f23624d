use fs_scan::objects::Config;
use fs_scan::strategy::{
    parse_size, probe_target, select_strategy, statx_supported, HelperOutput, HelperVerdict,
    StatPolicy, Strategy,
};
use fs_scan::worker::EntryKind;

fn config(prevent_statx: bool, external_shortcut: bool) -> Config {
    Config {
        path: String::from("/r"),
        max_threads: 0,
        save_csv: false,
        verbose: false,
        prevent_statx,
        external_shortcut,
    }
}

fn answer(launched: bool, exit_code: i32, stdout: &str) -> HelperOutput {
    HelperOutput { launched, exit_code, stdout: stdout.as_bytes().to_vec() }
}

#[test]
fn the_probe_is_tried_on_the_first_regular_file() {
    let kinds = vec![
        Some(EntryKind::Directory),
        None,
        Some(EntryKind::Other),
        Some(EntryKind::RegularFile),
        Some(EntryKind::RegularFile),
    ];
    assert_eq!(probe_target(&kinds), Some(3));
    assert_eq!(probe_target(&vec![Some(EntryKind::RegularFile)]), Some(0));
}

#[test]
fn without_a_regular_file_there_is_no_probe() {
    assert_eq!(probe_target(&vec![]), None);
    assert_eq!(probe_target(&vec![Some(EntryKind::Directory), None, Some(EntryKind::Other)]), None);
}

#[test]
fn the_fast_way_needs_a_passed_probe() {
    assert!(statx_supported(&config(false, false), Some(true)));
    assert!(!statx_supported(&config(false, false), Some(false)));
    assert!(!statx_supported(&config(false, false), None));
    assert!(!statx_supported(&config(true, false), Some(true)));
}

#[test]
fn the_strategy_is_chosen_once() {
    assert_eq!(select_strategy(&config(false, false), Some(true)), Strategy::FastExtended);
    assert_eq!(select_strategy(&config(false, false), Some(false)), Strategy::Standard);
    assert_eq!(select_strategy(&config(false, false), None), Strategy::Standard);
    assert_eq!(select_strategy(&config(true, false), Some(true)), Strategy::Standard);
    assert_eq!(select_strategy(&config(false, true), Some(true)), Strategy::ExternalShortcut);
    assert_eq!(select_strategy(&config(true, true), None), Strategy::ExternalShortcut);
}

#[test]
fn a_failed_probe_gives_the_standard_strategy() {
    let forced = select_strategy(&config(false, false), Some(false));
    let standard = select_strategy(&config(true, false), Some(true));
    assert_eq!(forced, standard);
    assert_eq!(forced, Strategy::Standard);
}

#[test]
fn sizes_are_read_from_digits() {
    assert_eq!(parse_size(b"0"), Some(0));
    assert_eq!(parse_size(b"4096"), Some(4_096));
    assert_eq!(parse_size(b"4096\n"), Some(4_096));
    assert_eq!(parse_size(b" \t12345 \r\n"), Some(12_345));
    assert_eq!(parse_size(b"007"), Some(7));
    assert_eq!(parse_size(b"18446744073709551615"), Some(u64::MAX));
}

#[test]
fn anything_else_is_no_size() {
    assert_eq!(parse_size(b""), None);
    assert_eq!(parse_size(b"  \n"), None);
    assert_eq!(parse_size(b"12 34"), None);
    assert_eq!(parse_size(b"-5"), None);
    assert_eq!(parse_size(b"+5"), None);
    assert_eq!(parse_size(b"12k"), None);
    assert_eq!(parse_size(b"1.5"), None);
    assert_eq!(parse_size(b"18446744073709551616"), None);
    assert_eq!(parse_size(b"99999999999999999999999"), None);
}

#[test]
fn a_good_answer_gives_the_size_and_keeps_the_helper() {
    let mut policy = StatPolicy::new(Strategy::ExternalShortcut);
    assert_eq!(policy.on_helper(&answer(true, 0, "2048\n")), HelperVerdict::Size(2_048));
    assert_eq!(policy.strategy, Strategy::ExternalShortcut);
}

#[test]
fn a_failed_answer_falls_back_for_good() {
    for bad in [answer(true, 0, "n/a"), answer(true, 1, "2048"), answer(false, 0, "2048")] {
        let mut policy = StatPolicy::new(Strategy::ExternalShortcut);
        assert_eq!(policy.on_helper(&bad), HelperVerdict::FellBack);
        assert_eq!(policy.strategy, Strategy::Standard);
        assert_eq!(policy.on_helper(&answer(true, 0, "2048")), HelperVerdict::Ignored);
        assert_eq!(policy.on_helper(&bad), HelperVerdict::Ignored);
        assert_eq!(policy.strategy, Strategy::Standard);
    }
}

#[test]
fn other_strategies_take_no_answer() {
    let mut fast = StatPolicy::new(Strategy::FastExtended);
    assert_eq!(fast.on_helper(&answer(true, 0, "1")), HelperVerdict::Ignored);
    assert_eq!(fast.strategy, Strategy::FastExtended);
    let mut standard = StatPolicy::new(Strategy::Standard);
    assert_eq!(standard.on_helper(&answer(false, 9, "")), HelperVerdict::Ignored);
    assert_eq!(standard.strategy, Strategy::Standard);
}
