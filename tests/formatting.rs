use cube_timer::utils::{
    chunk_vec, dec_time, inc_time, saturating_div, saturating_sub, saturating_unwrap_sub,
    time_string,
};

#[test]
fn format_zero() {
    assert_eq!(time_string(0), "00:00.00");
}

#[test]
fn format_over_an_hour() {
    assert_eq!(time_string(3_661_000), "01:01:01.00");
}

#[test]
fn format_minutes_seconds_centiseconds() {
    assert_eq!(time_string(61_234), "01:01.23");
    assert_eq!(time_string(15_000), "00:15.00");
    assert_eq!(time_string(999), "00:00.99");
    assert_eq!(time_string(3_599_999), "59:59.99");
    assert_eq!(time_string(3_600_000), "01:00:00.00");
    assert_eq!(time_string(360_000_000), "100:00:00.00");
}

#[test]
fn saturating_arithmetic() {
    assert_eq!(saturating_sub(5, 7), 0);
    assert_eq!(saturating_sub(7, 5), 2);
    assert_eq!(saturating_div(7, 0), 0);
    assert_eq!(saturating_div(7, 2), 3);
    assert_eq!(saturating_unwrap_sub(Some(10), None), 10);
    assert_eq!(saturating_unwrap_sub(None, Some(10)), 0);
    assert_eq!(saturating_unwrap_sub(Some(30), Some(10)), 20);
}

#[test]
fn inspection_countdown_and_solve_count_up() {
    assert_eq!(dec_time(Some(1_000), 2_000), 14_000);
    assert_eq!(dec_time(Some(1_000), 16_000), 0);
    assert_eq!(dec_time(Some(1_000), 90_000), 0);
    assert_eq!(dec_time(Some(u64::MAX), 0), u64::MAX);
    assert_eq!(inc_time(Some(1_000), 3_500), 2_500);
    assert_eq!(inc_time(Some(5_000), 3_500), 0);
    assert_eq!(inc_time(None, 3_500), 3_500);
}

#[test]
fn rows_of_five() {
    let turns: Vec<String> = (0..12).map(|i| format!("T{}", i)).collect();
    let rows = chunk_vec(&turns);
    assert_eq!(rows.len(), 3);
    assert_eq!(rows[0], turns[0..5].to_vec());
    assert_eq!(rows[1], turns[5..10].to_vec());
    assert_eq!(rows[2], turns[10..12].to_vec());
    assert!(chunk_vec(&Vec::new()).is_empty());
    assert_eq!(chunk_vec(&turns[0..10].to_vec()).len(), 2);
}
