use chrono::Timelike;
use rustberry::sensors::{
    calculate_percentage, calculate_water_level, percentage_defined, plants_state_from_readings, should_water, Plant,
    Setup, SoilSensorParams, TimeOfDay, WaterLevelReading, WaterLevelSensor, WateringParams,
};

fn time_of_day(t: chrono::NaiveTime) -> TimeOfDay {
    TimeOfDay { secs: t.num_seconds_from_midnight(), nanos: t.nanosecond() }
}

fn plant(id: &str, water: u16, air: u16) -> Plant<f32> {
    Plant {
        id: id.to_string(),
        name: format!("plant {}", id),
        analog_channel: 0,
        sensor_params: SoilSensorParams { water_reading: water, air_reading: air },
        watering_params: WateringParams {
            water_for_seconds: 10,
            water_start_time: TimeOfDay { secs: 8 * 3600, nanos: 0 },
            water_end_time: TimeOfDay { secs: 20 * 3600, nanos: 0 },
            requires_watering_level: 40.0,
            pump_gpio: 18,
        },
    }
}

#[test]
fn checking_water_level() {
    let mut plant: Plant<f32> = plant("1", 200, 710);

    let now = chrono::offset::Local::now().time();

    let start = now - chrono::Duration::minutes(10);
    let end = now + chrono::Duration::minutes(10);

    plant.watering_params.water_start_time = time_of_day(start);
    plant.watering_params.water_end_time = time_of_day(end);

    assert_eq!(plant.watering_params.should_be_watered(), true);

    let start = now - chrono::Duration::minutes(20);
    let end = now - chrono::Duration::minutes(10);

    plant.watering_params.water_start_time = time_of_day(start);
    plant.watering_params.water_end_time = time_of_day(end);

    assert_eq!(plant.watering_params.should_be_watered(), false)
}

#[test]
fn watering_window_excludes_its_ends() {
    let p = plant("1", 200, 710).watering_params;
    assert!(p.should_be_watered_at(TimeOfDay { secs: 12 * 3600, nanos: 0 }));
    assert!(!p.should_be_watered_at(TimeOfDay { secs: 8 * 3600, nanos: 0 }));
    assert!(p.should_be_watered_at(TimeOfDay { secs: 8 * 3600, nanos: 1 }));
    assert!(!p.should_be_watered_at(TimeOfDay { secs: 20 * 3600, nanos: 0 }));
    assert!(!p.should_be_watered_at(TimeOfDay { secs: 23 * 3600, nanos: 0 }));
}

#[test]
fn water_level_threshold() {
    assert!(matches!(calculate_water_level(49), WaterLevelReading::NoWaterContact));
    assert!(matches!(calculate_water_level(50), WaterLevelReading::CompleteUnderWater));
    assert!(matches!(calculate_water_level(1023), WaterLevelReading::CompleteUnderWater));
}

#[test]
fn percentage_scale() {
    let params = SoilSensorParams { water_reading: 200, air_reading: 710 };
    assert_eq!(calculate_percentage(100, &params), 100);
    assert_eq!(calculate_percentage(200, &params), 100);
    assert_eq!(calculate_percentage(710, &params), 0);
    assert_eq!(calculate_percentage(900, &params), 0);
    // 100 - (255 * 100) / 510 = 50
    assert_eq!(calculate_percentage(455, &params), 50);
    // 100 - (300 * 100) / 510 = 100 - 58 = 42
    assert_eq!(calculate_percentage(500, &params), 42);
    let mut last: u8 = 100;
    for v in 200..=710u16 {
        let p: u8 = calculate_percentage(v, &params);
        assert!(p <= last);
        last = p;
    }
}

#[test]
fn plants_state_pairs_plants_with_humidity() {
    let setup = Setup {
        water_level_sensor: WaterLevelSensor { analog_channel: 7 },
        sensor_power_pin: 16,
        plants: vec![plant("1", 200, 710), plant("2", 300, 700)],
    };
    let state = plants_state_from_readings(setup, &vec![455, 700], 10);
    assert_eq!(state.plants.len(), 2);
    assert_eq!(state.plants[0].0.id, "1");
    assert_eq!(state.plants[0].1.humidity, 50);
    assert_eq!(state.plants[1].0.id, "2");
    assert_eq!(state.plants[1].1.humidity, 0);
    assert!(matches!(state.water_container_reading, WaterLevelReading::NoWaterContact));
}

#[test]
fn watering_decision() {
    let full = WaterLevelReading::CompleteUnderWater;
    let empty = WaterLevelReading::NoWaterContact;
    assert!(should_water(true, true, &full));
    assert!(!should_water(true, true, &empty));
    assert!(!should_water(false, true, &full));
    assert!(!should_water(true, false, &full));
}

#[test]
fn percentage_domain() {
    let params = SoilSensorParams { water_reading: 50, air_reading: 710 };
    assert!(percentage_defined(40, &params));
    assert!(percentage_defined(705, &params));
    assert!(!percentage_defined(706, &params));
    assert!(percentage_defined(800, &params));
    let flat = SoilSensorParams { water_reading: 300, air_reading: 300 };
    assert!(!percentage_defined(300, &flat));
}
