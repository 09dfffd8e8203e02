use rustberry::dashboard::{
    requested_period, sensor_slot, DashboardError, Info, Moment, ReadingDb, Timestamp,
    WateringChartData, WateringDashboard, WateringTimeRecordings,
};
use rustberry::decimal::parse_i64;

fn ts(secs: i64, offset: i32) -> Timestamp {
    Timestamp::new(secs, 0, offset).unwrap()
}

fn reading(secs: i64, sensor: &str, value: f32, name: &str) -> ReadingDb<f32> {
    ReadingDb {
        time: ts(secs, 3600),
        sensor: sensor.to_string(),
        metric: "humidity".to_string(),
        value,
        name: name.to_string(),
    }
}

fn watering(secs: i64, sensor: &str, duration: i32) -> WateringTimeRecordings {
    WateringTimeRecordings {
        time: ts(secs, 3600),
        sensor: sensor.to_string(),
        duration_seconds: duration,
        name: String::from("x"),
    }
}

#[test]
fn timestamps_as_rfc3339() {
    assert_eq!(ts(1_600_000_000, 3600).to_rfc3339(), "2020-09-13T13:26:40+01:00");
    assert_eq!(ts(0, 0).to_rfc3339(), "1970-01-01T00:00:00+00:00");
    assert_eq!(Timestamp::new(1_600_000_000, 500_000_000, -7200).unwrap().to_rfc3339(), "2020-09-13T10:26:40.500+02:00".replace("+02", "-02"));
    assert!(Timestamp::new(0, 0, 86_400).is_none());
    assert!(Timestamp::new(0, 1_500_000_000, 0).is_none());
    assert!(Timestamp::new(59, 1_500_000_000, 0).is_some());
    assert!(Timestamp::new(-1, 1_500_000_000, 0).is_some());
    assert!(Timestamp::new(8_210_266_876_799, 0, 0).is_some());
    assert!(Timestamp::new(8_210_266_876_800, 0, 0).is_none());
    assert!(Timestamp::new(-8_334_601_228_800, 0, 0).is_some());
    assert!(Timestamp::new(-8_334_601_228_801, 0, 0).is_none());
}

#[test]
fn timestamp_range_matches_chrono() {
    for secs in [8_210_266_876_799i64, 8_210_266_876_800, -8_334_601_228_800, -8_334_601_228_801, 59, 60, -1, -2, 0] {
        for nanos in [0u32, 999_999_999, 1_000_000_000, 1_999_999_999, 2_000_000_000] {
            assert_eq!(
                chrono::DateTime::from_timestamp(secs, nanos).is_some(),
                Timestamp::new(secs, nanos, 0).is_some(),
                "{} {}", secs, nanos
            );
        }
    }
    for offset in [-86_400i32, -86_399, 0, 86_399, 86_400] {
        assert_eq!(chrono::FixedOffset::east_opt(offset).is_some(), Timestamp::new(0, 0, offset).is_some());
    }
}

#[test]
fn sensor_ids() {
    assert_eq!(sensor_slot(&String::from("1")), 1);
    assert_eq!(sensor_slot(&String::from("2")), 2);
    assert_eq!(sensor_slot(&String::from("12")), 0);
    assert_eq!(sensor_slot(&String::from("")), 0);
    assert_eq!(sensor_slot(&String::from("3")), 0);
}

#[test]
fn chart_splits_the_plants() {
    let dashboard = WateringDashboard {
        from: ts(1_600_000_000, 3600),
        to: ts(1_600_086_400, 3600),
        sensor_readings: vec![
            reading(1_600_000_100, "2", 40.5, "coriander"),
            reading(1_600_000_200, "1", 55.0, "basil"),
            reading(1_600_000_300, "3", 10.0, "other"),
            reading(1_600_000_400, "1", 54.0, "renamed"),
        ],
        waterings: vec![watering(1_600_000_500, "1", 10), watering(1_600_000_600, "7", 3)],
    };
    let chart = WateringChartData::from_dashboard(&dashboard).ok().unwrap();
    assert_eq!(chart.from.secs, 1_600_000_000);
    assert_eq!(chart.sensor1.name, "basil");
    assert_eq!(chart.sensor2.name, "coriander");
    assert_eq!(chart.sensor1.soil_humidity_readings.len(), 2);
    assert_eq!(chart.sensor1.soil_humidity_readings[0].x, "2020-09-13T13:30:00+01:00");
    assert_eq!(chart.sensor1.soil_humidity_readings[0].y, 55.0);
    assert_eq!(chart.sensor1.soil_humidity_readings[1].y, 54.0);
    assert_eq!(chart.sensor2.soil_humidity_readings.len(), 1);
    assert_eq!(chart.sensor2.soil_humidity_readings[0].y, 40.5);
    assert_eq!(chart.sensor1.watering_readings.len(), 1);
    assert_eq!(chart.sensor1.watering_readings[0].y, 10);
    assert_eq!(chart.sensor1.watering_readings[0].x, "2020-09-13T13:35:00+01:00");
    assert_eq!(chart.sensor2.watering_readings.len(), 0);
    // Two readings of plant 1, one of plant 2, one of another sensor: four in all.
    assert_eq!(chart.sensor1.soil_humidity_readings.len() + chart.sensor2.soil_humidity_readings.len() + 1, dashboard.sensor_readings.len());
}

#[test]
fn parse_like_std() {
    for s in ["0", "42", "-17", "+8", "", "-", "+", "12a", " 1", "9223372036854775807", "9223372036854775808", "-9223372036854775808", "-9223372036854775809", "00012", "99999999999999999999999"] {
        assert_eq!(parse_i64(s), s.parse::<i64>().ok(), "{}", s);
    }
}

#[test]
fn period_defaults_and_bounds() {
    let now = Moment { secs: 1_600_000_000, nanos: 7 };
    let p = requested_period(&Info { start: None, finish: None }, now).ok().unwrap();
    assert_eq!(p.start.secs, 1_600_000_000 - 432_000);
    assert_eq!(p.start.nanos, 7);
    assert_eq!(p.finish.secs, 1_600_000_000);
    let p = requested_period(&Info { start: Some("100".to_string()), finish: Some("200".to_string()) }, now).ok().unwrap();
    assert_eq!((p.start.secs, p.start.nanos, p.finish.secs, p.finish.nanos), (100, 0, 200, 0));
    let r = requested_period(&Info { start: Some("200".to_string()), finish: Some("200".to_string()) }, now);
    assert!(matches!(r, Err(DashboardError::StartNotBeforeFinish)));
    let r = requested_period(&Info { start: Some("1600000000".to_string()), finish: None }, now);
    assert!(r.is_ok());
    assert_eq!(DashboardError::StartNotBeforeFinish.to_text(), "start_date cannot be > then finish_date");
}

#[test]
fn decimal_text_parses_back() {
    for n in [0u64, 7, 10, 1234567890, 9223372036854775807] {
        let mut text = String::new();
        rustberry::decimal::push_decimal(&mut text, n);
        assert_eq!(text, n.to_string());
        assert_eq!(parse_i64(&text), Some(n as i64));
    }
}

#[test]
fn chartable_needs_both_plants() {
    let t = ts(1_600_000_000, 0);
    let mut d = WateringDashboard { from: t, to: t, sensor_readings: vec![reading(1, "1", 1.0, "a")], waterings: vec![] };
    assert!(!d.chartable());
    d.sensor_readings.push(reading(2, "2", 1.0, "b"));
    assert!(d.chartable());
    d.waterings.push(WateringTimeRecordings { time: Timestamp { secs: 0, nanos: 0, offset: 90_000 }, sensor: String::from("1"), duration_seconds: 1, name: String::new() });
    assert!(!d.chartable());
}
