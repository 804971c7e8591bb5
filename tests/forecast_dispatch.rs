use keepipe::clock::LocalTime;
use keepipe::config::{Action, AreaCode, Config, WiFiDigit as DeviceConfig};
use keepipe::dispatch::{build_command, fires, plan_action, plan_actions, report_hour, ActionPlan};
use keepipe::forecast::{
    resolve, select_pair, AreaTemps, Forecast, ForecastDocument, ResolutionError, TimeSeries,
};
use keepipe::run::plan_run;
use keepipe::wifidigit::WiFiDigit;

const JST: i64 = 9 * 3600;
const JAN23_MIDNIGHT: i64 = 1705935600;
const JAN24_MIDNIGHT: i64 = 1706022000;
const REPORT: i64 = 1705953600; // 2024-01-23T05:00:00+09:00

fn strings(v: &[&str]) -> Vec<String> {
    v.iter().map(|s| s.to_string()).collect()
}

fn doc(time_defines: &[&str], temps: &[&str], report: Option<&str>) -> ForecastDocument {
    let other = TimeSeries { time_defines: vec![], areas: vec![] };
    let temps_series = TimeSeries {
        time_defines: strings(time_defines),
        areas: vec![
            AreaTemps { code: "14136".to_string(), name: "小樽".to_string(), temps: strings(&["9", "9", "9", "9"]) },
            AreaTemps { code: "14163".to_string(), name: "札幌".to_string(), temps: strings(temps) },
        ],
    };
    ForecastDocument {
        report_datetime: report.map(|s| s.to_string()),
        time_series: vec![other.clone(), other, temps_series],
    }
}

const FOUR_TIMES: [&str; 4] = [
    "2024-01-23T06:00:00+09:00",
    "2024-01-23T18:00:00+09:00",
    "2024-01-24T06:00:00+09:00",
    "2024-01-24T18:00:00+09:00",
];

fn six_am() -> LocalTime {
    LocalTime { epoch: 1705957200, utc_offset: JST, midnight_offset: JST }
}

fn four_am() -> LocalTime {
    LocalTime { epoch: 1705957200 - 2 * 3600, utc_offset: JST, midnight_offset: JST }
}

#[test]
fn sapporo_example_selects_tomorrow() {
    let d = doc(&FOUR_TIMES, &["4", "4", "-1", "1"], Some("2024-01-23T05:00:00+09:00"));
    let mut f = Forecast::new("016000".to_string(), "14163".to_string(), 5);
    assert_eq!(f.update_temperature(d, &six_am()), Ok(()));
    assert_eq!(f.temp_lowest, Some(-1));
    assert_eq!(f.temp_highest, Some(1));
    assert_eq!(f.area_name, "札幌");
    assert_eq!(f.get_report_datetime(), Some(REPORT));
    assert_eq!(f.update, Some(six_am().epoch));
}

#[test]
fn before_rollover_selects_today() {
    let d = doc(&FOUR_TIMES, &["4", "5", "-1", "1"], Some("2024-01-23T05:00:00+09:00"));
    let r = resolve(&d, &"14163".to_string(), 5, &four_am()).unwrap();
    assert_eq!((r.temp_lowest, r.temp_highest), (4, 5));
    assert_eq!(r.report_time, REPORT);
}

#[test]
fn two_in_window_come_in_timestamp_order() {
    let r = select_pair(&vec![JAN24_MIDNIGHT - 1, JAN24_MIDNIGHT + 10, JAN24_MIDNIGHT + 5], &vec![7, 3, -2], JAN24_MIDNIGHT);
    assert_eq!(r, Ok((-2, 3)));
    let r = select_pair(&vec![JAN24_MIDNIGHT + 5, JAN24_MIDNIGHT + 10], &vec![5, -3], JAN24_MIDNIGHT);
    assert_eq!(r, Ok((5, -3)));
}

#[test]
fn two_at_one_instant_keep_series_order() {
    let r = select_pair(&vec![JAN24_MIDNIGHT + 5, JAN24_MIDNIGHT + 5], &vec![8, 2], JAN24_MIDNIGHT);
    assert_eq!(r, Ok((8, 2)));
}

#[test]
fn window_end_is_exclusive() {
    let r = select_pair(&vec![JAN24_MIDNIGHT, JAN24_MIDNIGHT + 86399, JAN24_MIDNIGHT + 86400], &vec![1, 2, 3], JAN24_MIDNIGHT);
    assert_eq!(r, Ok((1, 2)));
}

#[test]
fn no_sample_in_window_is_ambiguous() {
    assert_eq!(select_pair(&vec![JAN23_MIDNIGHT], &vec![1], JAN24_MIDNIGHT), Err(ResolutionError::AmbiguousWindow));
    assert_eq!(select_pair(&vec![], &vec![], JAN24_MIDNIGHT), Err(ResolutionError::AmbiguousWindow));
}

#[test]
fn one_sample_in_window_is_ambiguous() {
    let times = ["2024-01-23T06:00:00+09:00", "2024-01-24T06:00:00+09:00"];
    let d = doc(&times, &["4", "-1"], Some("2024-01-23T05:00:00+09:00"));
    let mut f = Forecast::new("016000".to_string(), "14163".to_string(), 5);
    assert_eq!(f.update_temperature(d, &six_am()), Err(ResolutionError::AmbiguousWindow));
    assert_eq!(f.temp_lowest, None);
    assert_eq!(f.temp_highest, None);
    assert_eq!(f.update, None);
}

#[test]
fn three_samples_in_window_is_ambiguous() {
    let times = ["2024-01-24T00:00:00+09:00", "2024-01-24T06:00:00+09:00", "2024-01-24T18:00:00+09:00"];
    let d = doc(&times, &["1", "2", "3"], Some("2024-01-23T05:00:00+09:00"));
    assert_eq!(resolve(&d, &"14163".to_string(), 5, &six_am()).unwrap_err(), ResolutionError::AmbiguousWindow);
}

#[test]
fn samples_pair_with_timestamps_by_position() {
    // Only the first two timestamps have samples.
    let d = doc(&FOUR_TIMES, &["4", "4"], Some("2024-01-23T05:00:00+09:00"));
    assert_eq!(resolve(&d, &"14163".to_string(), 5, &four_am()).unwrap().temp_highest, 4);
    assert_eq!(resolve(&d, &"14163".to_string(), 5, &six_am()).unwrap_err(), ResolutionError::AmbiguousWindow);
}

#[test]
fn unknown_area_is_reported() {
    let d = doc(&FOUR_TIMES, &["4", "4", "-1", "1"], Some("2024-01-23T05:00:00+09:00"));
    assert_eq!(resolve(&d, &"99999".to_string(), 5, &six_am()).unwrap_err(), ResolutionError::AreaNotFound);
}

#[test]
fn missing_temperature_series_is_area_not_found() {
    let d = ForecastDocument { report_datetime: None, time_series: vec![] };
    assert_eq!(resolve(&d, &"14163".to_string(), 5, &six_am()).unwrap_err(), ResolutionError::AreaNotFound);
}

#[test]
fn first_matching_area_is_used() {
    let mut d = doc(&FOUR_TIMES, &["4", "4", "-1", "1"], Some("2024-01-23T05:00:00+09:00"));
    d.time_series[2].areas.push(AreaTemps { code: "14163".to_string(), name: "other".to_string(), temps: strings(&["0", "0", "0", "0"]) });
    let r = resolve(&d, &"14163".to_string(), 5, &six_am()).unwrap();
    assert_eq!(r.area_name, "札幌");
    assert_eq!((r.temp_lowest, r.temp_highest), (-1, 1));
}

#[test]
fn malformed_sample_is_reported() {
    let d = doc(&FOUR_TIMES, &["4", "four", "-1", "1"], Some("2024-01-23T05:00:00+09:00"));
    assert_eq!(resolve(&d, &"14163".to_string(), 5, &six_am()).unwrap_err(), ResolutionError::MalformedData);
}

#[test]
fn bad_timestamp_is_reported() {
    let times = ["2024-01-23T06:00:00+09:00", "yesterday", "2024-01-24T06:00:00+09:00", "2024-01-24T18:00:00+09:00"];
    let d = doc(&times, &["4", "4", "-1", "1"], Some("2024-01-23T05:00:00+09:00"));
    assert_eq!(resolve(&d, &"14163".to_string(), 5, &six_am()).unwrap_err(), ResolutionError::InvalidTimestamp);
}

#[test]
fn missing_report_time_is_reported() {
    let d = doc(&FOUR_TIMES, &["4", "4", "-1", "1"], None);
    let mut f = Forecast::new("016000".to_string(), "14163".to_string(), 5);
    assert_eq!(f.update_temperature(d, &six_am()), Err(ResolutionError::MissingReportTime));
    assert_eq!(f.get_report_datetime(), None);
    assert!(f.forecast.is_some());
}

#[test]
fn bad_report_time_is_reported() {
    let d = doc(&FOUR_TIMES, &["4", "4", "-1", "1"], Some("2024-01-23 05:00"));
    assert_eq!(resolve(&d, &"14163".to_string(), 5, &six_am()).unwrap_err(), ResolutionError::InvalidTimestamp);
}

#[test]
fn report_time_in_utc_is_read() {
    let d = doc(&FOUR_TIMES, &["4", "4", "-1", "1"], Some("2024-01-22T20:00:00Z"));
    assert_eq!(resolve(&d, &"14163".to_string(), 5, &six_am()).unwrap().report_time, REPORT);
}

#[test]
fn new_forecast_is_empty() {
    let f = Forecast::new("016000".to_string(), "14163".to_string(), 7);
    assert_eq!(f.offices, "016000");
    assert_eq!(f.area_code, "14163");
    assert_eq!(f.area_name, "");
    assert_eq!(f.reference_time, 7);
    assert_eq!(f.temp_lowest, None);
    assert_eq!(f.update, None);
    assert!(f.forecast.is_none());
    assert_eq!(f.get_report_datetime(), None);
}

#[test]
fn command_placeholders_are_filled() {
    let c = build_command("2digit/{tempLowest}/{tempHighest}/{reportHour}/{nowHour}", -3, 12, Some(5), 6);
    assert_eq!(c, Some("2digit/-3/12/5/6".to_string()));
}

#[test]
fn command_without_placeholders_is_unchanged() {
    assert_eq!(build_command("upside-down/false", 1, 2, None, 3), Some("upside-down/false".to_string()));
    assert_eq!(build_command("blink-flipped/1000.10", -9, 9, Some(1), 12), Some("blink-flipped/1000.10".to_string()));
}

#[test]
fn command_needing_unknown_report_hour_is_skipped() {
    assert_eq!(build_command("bar/{reportHour}", 1, 2, None, 3), None);
}

fn action(lowest: Option<i64>, highest: Option<i64>, method: Option<&str>, command: &str) -> Action {
    Action { lowest, highest, method: method.map(|m| m.to_string()), command: command.to_string() }
}

#[test]
fn lowest_threshold_minus_two() {
    let a = action(Some(-2), None, Some("PUT"), "blink-flipped/1000.10");
    assert!(fires(&a, -2, 5));
    assert!(fires(&a, -3, 5));
    assert!(!fires(&a, -1, 5));
    assert!(matches!(plan_action(&a, &"http://d".to_string(), -1, 5, None, 1), ActionPlan::NotTriggered));
}

#[test]
fn highest_threshold() {
    let a = action(None, Some(30), None, "x");
    assert!(fires(&a, 0, 30));
    assert!(!fires(&a, 0, 29));
    let both = action(Some(0), Some(10), None, "x");
    assert!(fires(&both, 0, 10));
    assert!(!fires(&both, 1, 10));
    assert!(!fires(&both, 0, 9));
}

#[test]
fn plan_builds_request() {
    let a = action(None, None, Some("Put"), "2digit/{tempLowest}");
    match plan_action(&a, &"http://192.168.0.1".to_string(), -1, 1, None, 3) {
        ActionPlan::Send(d, cmd) => {
            assert!(d.is_put());
            assert_eq!(cmd, "2digit/-1");
            assert_eq!(d.target(&cmd), "http://192.168.0.1/2digit/-1");
        }
        other => panic!("unexpected plan {:?}", other),
    }
}

#[test]
fn plan_defaults_to_get_and_rejects_unknown_method() {
    let a = action(None, None, None, "x");
    match plan_action(&a, &"http://d".to_string(), 0, 0, None, 1) {
        ActionPlan::Send(d, _) => assert!(!d.is_put()),
        other => panic!("unexpected plan {:?}", other),
    }
    let bad = action(None, None, Some("POST"), "x");
    assert!(matches!(plan_action(&bad, &"http://d".to_string(), 0, 0, None, 1), ActionPlan::UnknownMethod));
}

#[test]
fn every_action_is_planned() {
    let actions = vec![
        action(None, None, Some("PUT"), "upside-down/false"),
        action(None, None, Some("POST"), "2digit/{tempLowest}"),
        action(None, None, Some("PUT"), "bar/{nowHour}"),
        action(Some(-2), None, Some("PUT"), "blink-flipped/1000.10"),
    ];
    let plans = plan_actions(&actions, &"http://d".to_string(), -3, 1, Some(5), 6);
    assert_eq!(plans.len(), 4);
    assert!(matches!(plans[1], ActionPlan::UnknownMethod));
    match &plans[2] {
        ActionPlan::Send(_, c) => assert_eq!(c, "bar/6"),
        other => panic!("unexpected plan {:?}", other),
    }
    assert!(matches!(plans[3], ActionPlan::Send(_, _)));
}

#[test]
fn report_hour_uses_local_offset() {
    assert_eq!(report_hour(Some(REPORT), &six_am()), Some(5));
    assert_eq!(report_hour(None, &six_am()), None);
}

#[test]
fn device_method_names() {
    assert!(matches!(WiFiDigit::new("get".to_string(), "u".to_string()), Ok(WiFiDigit::GET(_))));
    assert!(matches!(WiFiDigit::new("GET".to_string(), "u".to_string()), Ok(WiFiDigit::GET(_))));
    assert!(matches!(WiFiDigit::new("put".to_string(), "u".to_string()), Ok(WiFiDigit::PUT(_))));
    assert!(matches!(WiFiDigit::new("PUT".to_string(), "u".to_string()), Ok(WiFiDigit::PUT(_))));
    assert!(matches!(WiFiDigit::new("Get".to_string(), "u".to_string()), Ok(WiFiDigit::GET(_))));
    assert!(matches!(WiFiDigit::new("pUt".to_string(), "u".to_string()), Ok(WiFiDigit::PUT(_))));
    assert_eq!(WiFiDigit::new("POST".to_string(), "u".to_string()).unwrap_err(), "unknown method");
    assert_eq!(WiFiDigit::new("GETS".to_string(), "u".to_string()).unwrap_err(), "unknown method");
    assert_eq!(WiFiDigit::new("PUT".to_string(), "http://x".to_string()).unwrap().url(), "http://x");
}

#[test]
fn whole_run_plans_with_the_day() {
    let config = Config {
        area: AreaCode { jma_offices: "016000".to_string(), jma_area_code: "14163".to_string(), reference_time: None },
        wifidigit: DeviceConfig { url: "http://d".to_string() },
        actions: vec![
            action(None, None, Some("PUT"), "2digit/{tempLowest}"),
            action(None, None, None, "hour/{reportHour}"),
            action(None, Some(5), None, "hot"),
        ],
    };
    let d = doc(&FOUR_TIMES, &["4", "4", "-1", "1"], Some("2024-01-23T05:00:00+09:00"));
    let (f, plans) = plan_run(&config, d, &six_am());
    assert_eq!(f.temp_lowest, Some(-1));
    let plans = plans.unwrap();
    assert_eq!(plans.len(), 3);
    match &plans[0] {
        ActionPlan::Send(_, c) => assert_eq!(c, "2digit/-1"),
        other => panic!("unexpected plan {:?}", other),
    }
    match &plans[1] {
        ActionPlan::Send(_, c) => assert_eq!(c, "hour/5"),
        other => panic!("unexpected plan {:?}", other),
    }
    assert!(matches!(plans[2], ActionPlan::NotTriggered));
}

#[test]
fn whole_run_stops_on_resolution_error() {
    let config = Config {
        area: AreaCode { jma_offices: "016000".to_string(), jma_area_code: "1".to_string(), reference_time: Some(5) },
        wifidigit: DeviceConfig { url: "http://d".to_string() },
        actions: vec![action(None, None, None, "x")],
    };
    let d = doc(&FOUR_TIMES, &["4", "4", "-1", "1"], Some("2024-01-23T05:00:00+09:00"));
    let (_, plans) = plan_run(&config, d, &six_am());
    assert_eq!(plans.unwrap_err(), ResolutionError::AreaNotFound);
    assert_eq!(config.area.rollover_hour(), 5);
}
