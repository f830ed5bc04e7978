use chrono::NaiveDate;
use flood_alert::tides::{
    LocalDateTime, Prediction, TideArchive, TideKind, TideRow, FLOOD_THRESHOLD_MILLI_FT,
    FORECAST_DAYS,
};
use flood_alert::{get_flood_predictions, update_tide_predictions, FloodDisplay};

fn at(y: i32, m: u32, d: u32, h: u32, min: u32) -> LocalDateTime {
    let day = NaiveDate::from_ymd_opt(y, m, d).unwrap().to_epoch_days();
    LocalDateTime { day, second: h * 3600 + min * 60 }
}

fn entry(time: LocalDateTime, height_milli_ft: i64, kind: Option<TideKind>) -> Prediction {
    Prediction { time, height_milli_ft, kind }
}

#[test]
fn test_flood_display_formatting() {
    let dt = at(2023, 10, 5, 14, 30);
    let display = FloodDisplay::new(dt, 6789);

    assert_eq!(display.datetime, "Thursday, October 5 at 2:30PM");
    assert_eq!(display.height, "6.79");
}

#[test]
fn display_formats_morning_and_midnight() {
    assert_eq!(
        FloodDisplay::new(at(2024, 1, 1, 9, 5), 7000).datetime,
        "Monday, January 1 at 9:05AM"
    );
    assert_eq!(
        FloodDisplay::new(at(2024, 2, 29, 0, 0), 7000).datetime,
        "Thursday, February 29 at 12:00AM"
    );
}

#[test]
fn heights_round_to_two_decimals() {
    assert_eq!(FloodDisplay::new(at(2024, 1, 1, 0, 0), 7000).height, "7.00");
    assert_eq!(FloodDisplay::new(at(2024, 1, 1, 0, 0), 6400).height, "6.40");
    assert_eq!(FloodDisplay::new(at(2024, 1, 1, 0, 0), 6404).height, "6.40");
    assert_eq!(FloodDisplay::new(at(2024, 1, 1, 0, 0), 6995).height, "7.00");
    assert_eq!(FloodDisplay::new(at(2024, 1, 1, 0, 0), 12345).height, "12.35");
    assert_eq!(FloodDisplay::new(at(2024, 1, 1, 0, 0), 0).height, "0.00");
    assert_eq!(FloodDisplay::new(at(2024, 1, 1, 0, 0), -1230).height, "-1.23");
    assert_eq!(FloodDisplay::new(at(2024, 1, 1, 0, 0), -4).height, "-0.00");
}

#[test]
fn refresh_keeps_only_high_and_low_entries() {
    let start = at(2024, 6, 1, 0, 0).day;
    let day3 = at(2024, 6, 3, 10, 0);
    let entries = vec![
        entry(day3, 7000, Some(TideKind::High)),
        entry(at(2024, 6, 3, 16, 0), 1000, Some(TideKind::Low)),
        entry(at(2024, 6, 3, 18, 0), 9000, None),
    ];
    let mut archive = TideArchive::new();
    let stored = update_tide_predictions(&mut archive, start, FORECAST_DAYS, &entries);
    assert_eq!(stored, 2);
    assert_eq!(archive.rows().len(), 2);
}

#[test]
fn refresh_then_query_reports_the_one_flood() {
    let start = at(2024, 6, 1, 0, 0).day;
    let entries = vec![
        entry(at(2024, 6, 3, 10, 0), 7000, Some(TideKind::High)),
        entry(at(2024, 6, 3, 16, 0), 1000, Some(TideKind::Low)),
    ];
    let mut archive = TideArchive::new();
    update_tide_predictions(&mut archive, start, FORECAST_DAYS, &entries);
    let high: Vec<TideRow> = archive
        .rows()
        .into_iter()
        .filter(|r| r.kind == TideKind::High)
        .collect();
    assert_eq!(high.len(), 1);
    assert_eq!(high[0].height_milli_ft, 7000);

    let events = get_flood_predictions(&archive, at(2024, 6, 2, 12, 0));
    assert_eq!(events.len(), 1);
    assert_eq!(events[0].height, "7.00");
}

#[test]
fn refresh_twice_does_not_duplicate() {
    let start = at(2024, 6, 1, 0, 0).day;
    let entries = vec![
        entry(at(2024, 6, 2, 4, 0), 6500, Some(TideKind::High)),
        entry(at(2024, 6, 2, 11, 0), -200, Some(TideKind::Low)),
        entry(at(2024, 7, 1, 23, 59), 6600, Some(TideKind::High)),
    ];
    let mut archive = TideArchive::new();
    update_tide_predictions(&mut archive, start, FORECAST_DAYS, &entries);
    let once = archive.rows();
    update_tide_predictions(&mut archive, start, FORECAST_DAYS, &entries);
    assert_eq!(archive.rows(), once);
    assert_eq!(once.len(), 3);
}

#[test]
fn refresh_replaces_window_and_keeps_rows_outside() {
    let start = at(2024, 6, 1, 0, 0).day;
    let before_window = entry(at(2024, 5, 31, 23, 0), 6800, Some(TideKind::High));
    let stale = entry(at(2024, 6, 10, 5, 0), 6900, Some(TideKind::High));
    let last_day = entry(at(2024, 7, 1, 23, 59), 6900, Some(TideKind::High));
    let after_window = entry(at(2024, 7, 2, 0, 0), 6900, Some(TideKind::High));
    let mut archive = TideArchive::new();
    update_tide_predictions(&mut archive, start - 5, 0, &vec![before_window]);
    update_tide_predictions(&mut archive, start + 40, 0, &vec![after_window]);
    update_tide_predictions(&mut archive, start, FORECAST_DAYS, &vec![stale, last_day]);
    assert_eq!(archive.rows().len(), 4);

    let fresh = entry(at(2024, 6, 11, 5, 0), 7100, Some(TideKind::High));
    update_tide_predictions(&mut archive, start, FORECAST_DAYS, &vec![fresh]);
    let times: Vec<LocalDateTime> = archive.rows().iter().map(|r| r.time).collect();
    assert_eq!(times, vec![before_window.time, after_window.time, fresh.time]);
}

#[test]
fn refresh_with_empty_answer_clears_window() {
    let start = at(2024, 6, 1, 0, 0).day;
    let mut archive = TideArchive::new();
    update_tide_predictions(
        &mut archive,
        start,
        FORECAST_DAYS,
        &vec![entry(at(2024, 6, 5, 5, 0), 7000, Some(TideKind::High))],
    );
    let stored = update_tide_predictions(&mut archive, start, FORECAST_DAYS, &vec![]);
    assert_eq!(stored, 0);
    assert!(archive.rows().is_empty());
}

#[test]
fn flood_query_filters_by_threshold_and_time_and_sorts() {
    let start = at(2024, 6, 1, 0, 0).day;
    let entries = vec![
        entry(at(2024, 6, 9, 6, 0), 6500, Some(TideKind::High)),
        entry(at(2024, 6, 4, 6, 0), FLOOD_THRESHOLD_MILLI_FT, Some(TideKind::High)),
        entry(at(2024, 6, 4, 7, 0), FLOOD_THRESHOLD_MILLI_FT - 1, Some(TideKind::High)),
        entry(at(2024, 6, 2, 6, 0), 8000, Some(TideKind::High)),
        entry(at(2024, 6, 6, 6, 0), 7200, Some(TideKind::High)),
    ];
    let mut archive = TideArchive::new();
    update_tide_predictions(&mut archive, start, FORECAST_DAYS, &entries);
    let now = at(2024, 6, 4, 6, 0);
    let rows = archive.flood_rows(now);
    let heights: Vec<i64> = rows.iter().map(|r| r.height_milli_ft).collect();
    assert_eq!(heights, vec![6400, 7200, 6500]);
    for r in &rows {
        assert!(r.height_milli_ft >= FLOOD_THRESHOLD_MILLI_FT);
        assert!(now.not_after(&r.time));
    }
    let events = get_flood_predictions(&archive, now);
    let shown: Vec<&str> = events.iter().map(|e| e.height.as_str()).collect();
    assert_eq!(shown, vec!["6.40", "7.20", "6.50"]);
}

#[test]
fn flood_query_on_empty_archive_is_empty() {
    let archive = TideArchive::new();
    assert!(get_flood_predictions(&archive, at(2024, 6, 1, 0, 0)).is_empty());
}

#[test]
fn local_time_comparison() {
    let a = at(2024, 6, 1, 23, 59);
    let b = at(2024, 6, 2, 0, 0);
    assert!(a.not_after(&b));
    assert!(!b.not_after(&a));
    assert!(a.not_after(&a));
}

#[test]
fn flood_rows_of_equal_time_keep_storage_order() {
    let start = at(2024, 6, 1, 0, 0).day;
    let t = at(2024, 6, 5, 6, 0);
    let entries = vec![
        entry(at(2024, 6, 7, 6, 0), 6600, Some(TideKind::High)),
        entry(t, 7100, Some(TideKind::High)),
        entry(t, 6900, Some(TideKind::High)),
        entry(t, 7500, Some(TideKind::Low)),
    ];
    let mut archive = TideArchive::new();
    update_tide_predictions(&mut archive, start, FORECAST_DAYS, &entries);
    let heights: Vec<i64> = archive
        .flood_rows(at(2024, 6, 1, 0, 0))
        .iter()
        .map(|r| r.height_milli_ft)
        .collect();
    assert_eq!(heights, vec![7100, 6900, 7500, 6600]);
    let later: Vec<i64> = archive
        .flood_rows(at(2024, 6, 5, 6, 0))
        .iter()
        .map(|r| r.height_milli_ft)
        .collect();
    assert_eq!(later, heights);
    let latest: Vec<i64> = archive
        .flood_rows(at(2024, 6, 5, 7, 0))
        .iter()
        .map(|r| r.height_milli_ft)
        .collect();
    assert_eq!(latest, vec![6600]);
}
