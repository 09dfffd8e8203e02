use rustberry::demo::{
    calculate_percentage, check_water_container, plants_state_from_readings, DemoError, Plant, Setup,
    SoilSensorParams, WaterLevelReading, WaterLevelSensor,
};

#[test]
fn demo_percentage() {
    let params = SoilSensorParams { water_reading: 50, air_reading: 600 };
    assert_eq!(calculate_percentage(50, &params), 100);
    assert_eq!(calculate_percentage(600, &params), 0);
    // 100 - (330 * 100) / 550 = 40
    assert_eq!(calculate_percentage(380, &params), 40);
}

#[test]
fn demo_plants_state() {
    let setup = Setup {
        water_level_sensor: WaterLevelSensor { analog_channel: 7, water_reading: 0, just_a_tip_reading: 0, air_reading: 0 },
        plants: vec![Plant {
            id: String::from("1"),
            name: String::from("basil"),
            analog_channel: 0,
            pump_gpio: 18,
            water_for_seconds: 5,
            sensor_params: SoilSensorParams { water_reading: 50, air_reading: 710 },
            requires_watering_level: 30.0f64,
        }],
    };
    let state = plants_state_from_readings(setup, &vec![40]);
    assert_eq!(state.plants.len(), 1);
    assert_eq!(state.plants[0].1.humidity, 100);
    assert!(matches!(state.water_container_reading, WaterLevelReading::NotComplete));
}

#[test]
fn demo_container_check() {
    assert!(matches!(check_water_container(&WaterLevelReading::CompleteUnderWater), Ok(false)));
    assert!(matches!(check_water_container(&WaterLevelReading::NotComplete), Ok(true)));
    assert!(matches!(check_water_container(&WaterLevelReading::NoWaterContact), Err(DemoError::RefillWaterContainer)));
    assert_eq!(DemoError::RefillWaterContainer.to_text(), "Refill water container");
}
