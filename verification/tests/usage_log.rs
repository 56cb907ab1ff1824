use ollama_client::usage::{get_aggregated_stats, record_tokens, TokenStat, UsageError, UsageLog};

fn stat(date: &str, prompt: i64, completion: i64) -> TokenStat {
    TokenStat { date: date.to_string(), prompt_tokens: prompt, completion_tokens: completion }
}

#[test]
fn two_records_of_one_day_make_one_row() {
    let mut log = UsageLog::new();
    record_tokens(&mut log, "2024-01-01", 10, 5, "llama3:8b");
    record_tokens(&mut log, "2024-01-01", 10, 5, "llama3:8b");
    assert_eq!(get_aggregated_stats(&log), Ok(vec![stat("2024-01-01", 20, 10)]));
}

#[test]
fn empty_log_has_no_rows() {
    assert_eq!(get_aggregated_stats(&UsageLog::new()), Ok(vec![]));
}

#[test]
fn days_come_in_ascending_order() {
    let mut log = UsageLog::new();
    record_tokens(&mut log, "2024-03-01", 1, 2, "a");
    record_tokens(&mut log, "2024-01-15", 3, 4, "b");
    record_tokens(&mut log, "2024-02-01", 5, 6, "a");
    record_tokens(&mut log, "2024-01-15", 7, 8, "a");
    record_tokens(&mut log, "2023-12-31", 9, 10, "c");
    record_tokens(&mut log, "2024-03-01", 11, 12, "c");
    assert_eq!(
        get_aggregated_stats(&log),
        Ok(vec![
            stat("2023-12-31", 9, 10),
            stat("2024-01-15", 10, 12),
            stat("2024-02-01", 5, 6),
            stat("2024-03-01", 12, 14),
        ])
    );
}

#[test]
fn sums_are_over_all_models() {
    let mut log = UsageLog::new();
    record_tokens(&mut log, "2024-01-01", 1, 10, "a");
    record_tokens(&mut log, "2024-01-01", 2, 20, "b");
    record_tokens(&mut log, "2024-01-01", 3, 30, "c");
    assert_eq!(get_aggregated_stats(&log), Ok(vec![stat("2024-01-01", 6, 60)]));
}

#[test]
fn dates_are_ordered_by_their_bytes() {
    let mut log = UsageLog::new();
    for date in ["b", "", "a", "ab", "B", "\u{e9}", "a\u{0}", "2024-1-1", "2024-01-01"] {
        record_tokens(&mut log, date, 1, 1, "m");
    }
    let dates: Vec<String> =
        get_aggregated_stats(&log).unwrap().into_iter().map(|s| s.date).collect();
    assert_eq!(dates, vec!["", "2024-01-01", "2024-1-1", "B", "a", "a\u{0}", "ab", "b", "\u{e9}"]);
}

#[test]
fn negative_counts_are_summed_as_they_are() {
    let mut log = UsageLog::new();
    record_tokens(&mut log, "d", i64::MAX, i64::MIN, "m");
    record_tokens(&mut log, "d", i64::MIN, i64::MAX, "m");
    record_tokens(&mut log, "d", 5, -5, "m");
    assert_eq!(get_aggregated_stats(&log), Ok(vec![stat("d", 4, -6)]));
}

#[test]
fn a_sum_that_fits_only_in_the_end_is_given() {
    let mut log = UsageLog::new();
    record_tokens(&mut log, "d", i64::MAX, 0, "m");
    record_tokens(&mut log, "d", 1, 0, "m");
    record_tokens(&mut log, "d", -1, 0, "m");
    assert_eq!(get_aggregated_stats(&log), Ok(vec![stat("d", i64::MAX, 0)]));
}

#[test]
fn a_sum_beyond_i64_is_an_overflow() {
    let mut log = UsageLog::new();
    record_tokens(&mut log, "2024-01-01", 1, 1, "m");
    record_tokens(&mut log, "2024-01-02", i64::MAX, 0, "m");
    record_tokens(&mut log, "2024-01-02", 1, 0, "m");
    assert_eq!(get_aggregated_stats(&log), Err(UsageError::Overflow));

    let mut log = UsageLog::new();
    record_tokens(&mut log, "d", 0, i64::MIN, "m");
    record_tokens(&mut log, "d", 0, -1, "m");
    assert_eq!(get_aggregated_stats(&log), Err(UsageError::Overflow));
}

#[test]
fn record_appends_a_row() {
    let mut log = UsageLog::new();
    assert_eq!(log.len(), 0);
    record_tokens(&mut log, "2024-01-01", 10, 5, "llama3:8b");
    record_tokens(&mut log, "2024-01-02", 1, 2, "phi3");
    assert_eq!(log.len(), 2);
    assert_eq!(log.rows()[0].date, "2024-01-01");
    assert_eq!(log.rows()[0].prompt_tokens, 10);
    assert_eq!(log.rows()[0].completion_tokens, 5);
    assert_eq!(log.rows()[0].model, "llama3:8b");
    assert_eq!(log.rows()[1].model, "phi3");
}

#[test]
fn clear_forgets_everything() {
    let mut log = UsageLog::new();
    record_tokens(&mut log, "2024-01-01", 10, 5, "m");
    log.clear();
    assert_eq!(log.len(), 0);
    assert_eq!(get_aggregated_stats(&log), Ok(vec![]));
}
