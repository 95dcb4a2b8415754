use cf_cli::config::Config;
use cf_cli::decimal::{parse_i64, parse_u64, render_i64, render_u64};
use cf_cli::log::{log_row, print_plan};
use cf_cli::param::param_row;
use cf_cli::select::{
    default_scan_address, scan_report, select_apply, select_menu, select_step, SelectStep,
};
use cf_cli::text::{center_str, pad_right_str, split_commas, trim};
use cf_cli::value::{value_type_name, ValueType};

#[test]
fn unsigned_decimal_parsing() {
    assert_eq!(parse_u64("0"), Some(0));
    assert_eq!(parse_u64("3000"), Some(3000));
    assert_eq!(parse_u64("+5"), Some(5));
    assert_eq!(parse_u64("18446744073709551615"), Some(u64::MAX));
    assert_eq!(parse_u64("18446744073709551616"), None);
    assert_eq!(parse_u64(""), None);
    assert_eq!(parse_u64("+"), None);
    assert_eq!(parse_u64(" 3"), None);
    assert_eq!(parse_u64("12a"), None);
    assert_eq!(parse_u64("-1"), None);
}

#[test]
fn signed_decimal_parsing() {
    assert_eq!(parse_i64("-128"), Some(-128));
    assert_eq!(parse_i64("+42"), Some(42));
    assert_eq!(parse_i64("-9223372036854775808"), Some(i64::MIN));
    assert_eq!(parse_i64("9223372036854775807"), Some(i64::MAX));
    assert_eq!(parse_i64("9223372036854775808"), None);
    assert_eq!(parse_i64("-9223372036854775809"), None);
    assert_eq!(parse_i64("--5"), None);
    assert_eq!(parse_i64("-"), None);
}

#[test]
fn decimal_rendering() {
    assert_eq!(render_u64(0), "0");
    assert_eq!(render_u64(3000), "3000");
    assert_eq!(render_u64(u64::MAX), "18446744073709551615");
    assert_eq!(render_i64(-17), "-17");
    assert_eq!(render_i64(0), "0");
    assert_eq!(render_i64(i64::MIN), "-9223372036854775808");
}

#[test]
fn trimming_interactive_input() {
    assert_eq!(trim("  42\r\n"), "42");
    assert_eq!(trim("\t1 "), "1");
    assert_eq!(trim(""), "");
    assert_eq!(trim("   "), "");
    assert_eq!(trim("a b"), "a b");
}

#[test]
fn selection_accepts_each_valid_index() {
    let results = vec![
        "radio://0/80/2M/E7E7E7E7E7".to_string(),
        "radio://0/81/2M/E7E7E7E7E7".to_string(),
        "radio://0/82/2M/E7E7E7E7E7".to_string(),
    ];
    for i in 0..results.len() {
        let line = format!(" {}\n", i);
        assert_eq!(select_step(&results, &line), SelectStep::Chosen(i));
    }
}

#[test]
fn selection_rejects_bad_input_without_choosing() {
    let results = vec![
        "radio://0/80/2M/E7E7E7E7E7".to_string(),
        "radio://0/81/2M/E7E7E7E7E7".to_string(),
    ];
    assert_eq!(select_step(&results, "2"), SelectStep::OutOfRange);
    assert_eq!(select_step(&results, "99"), SelectStep::OutOfRange);
    assert_eq!(select_step(&results, "x"), SelectStep::NotANumber);
    assert_eq!(select_step(&results, ""), SelectStep::NotANumber);
    assert_eq!(select_step(&results, "-1"), SelectStep::NotANumber);
    assert_eq!(select_step(&results, "1.5"), SelectStep::NotANumber);
}

#[test]
fn selection_persists_the_chosen_address_verbatim() {
    let results = vec![
        "radio://0/80/2M/E7E7E7E7E7".to_string(),
        "radio://0/81/2M/E7E7E7E7E7".to_string(),
    ];
    let mut config = Config::default();
    config.cache.push(("k".to_string(), "v".to_string()));
    let chosen = select_apply(&mut config, &results, 1);
    assert_eq!(chosen, results[1]);
    assert_eq!(config.uri, results[1]);
    assert_eq!(config.cache.len(), 1);
    assert!(config.auto_complete_cache.is_none());
}

#[test]
fn empty_scan_reports_nothing_and_accepts_nothing() {
    let results: Vec<String> = Vec::new();
    assert!(scan_report(&results).is_empty());
    assert!(select_menu(&results).is_none());
    assert_eq!(select_step(&results, "0"), SelectStep::OutOfRange);
    assert_eq!(select_step(&results, "x"), SelectStep::NotANumber);
}

#[test]
fn scan_and_menu_lines_render_each_address() {
    let results = vec!["uriA".to_string(), "uriB".to_string()];
    assert_eq!(scan_report(&results), vec!["> uriA", "> uriB"]);
    assert_eq!(
        select_menu(&results).unwrap(),
        vec!["[0] uriA", "[1] uriB"]
    );
}

#[test]
fn splitting_is_verbatim_and_ordered() {
    assert_eq!(split_commas("a,b"), vec!["a", "b"]);
    assert_eq!(split_commas("a,,b"), vec!["a", "", "b"]);
    assert_eq!(split_commas(""), vec![""]);
    assert_eq!(split_commas(" a , b"), vec![" a ", " b"]);
    assert_eq!(split_commas("solo"), vec!["solo"]);
    assert_eq!(split_commas("a,"), vec!["a", ""]);
}

#[test]
fn print_plan_groups_names_in_order_at_the_period() {
    let plan = print_plan("a,b", 50).expect("50 ms is a valid period");
    assert_eq!(plan.variables, vec!["a", "b"]);
    assert_eq!(plan.period_ms, 50);
}

#[test]
fn print_plan_validates_the_period_bounds() {
    assert!(print_plan("a", 9).is_none());
    assert!(print_plan("a", 10).is_some());
    assert!(print_plan("a", 100).is_some());
    assert!(print_plan("a", 2559).is_some());
    assert!(print_plan("a", 2560).is_none());
    assert!(print_plan("a", 0).is_none());
}

#[test]
fn listing_rows_match_the_table_layout() {
    assert_eq!(
        param_row("speed", true, "3000"),
        format!("{: <30} | {: ^6} | {}", "speed", "RW", "3000")
    );
    assert_eq!(
        param_row("motor.thrust", false, "0"),
        format!("{: <30} | {: ^6} | {}", "motor.thrust", "RO", "0")
    );
    assert_eq!(
        log_row("stateEstimate.yaw", ValueType::F32),
        format!("{: <30} | {: <5}", "stateEstimate.yaw", "F32")
    );
}

#[test]
fn padding_matches_column_formatting() {
    assert_eq!(pad_right_str("ab", 5), format!("{: <5}", "ab"));
    assert_eq!(pad_right_str("abcdef", 5), "abcdef");
    assert_eq!(center_str("RW", 6), format!("{: ^6}", "RW"));
    assert_eq!(center_str("abc", 6), format!("{: ^6}", "abc"));
}

#[test]
fn type_names_match_the_device_tags() {
    assert_eq!(value_type_name(ValueType::U8), "U8");
    assert_eq!(value_type_name(ValueType::I64), "I64");
    assert_eq!(value_type_name(ValueType::F16), "F16");
    assert_eq!(value_type_name(ValueType::F64), "F64");
}

#[test]
fn default_config_is_empty() {
    let config = Config::default();
    assert_eq!(config.uri, "");
    assert!(config.cache.is_empty());
    assert!(config.auto_complete_cache.is_none());
}

#[test]
fn default_address_is_broadcast() {
    assert_eq!(default_scan_address(), [0xe7u8; 5]);
}
