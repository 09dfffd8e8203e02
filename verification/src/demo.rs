use vstd::prelude::*;

use crate::sensors_core::{computable, percentage, percentage_computable, spec_percentage};

verus! {

/// Calibration of a soil sensor: its reading in water and in air.
pub struct SoilSensorParams {
    pub water_reading: u16,
    pub air_reading: u16,
}

/// A plant and how it is watered; `L` is the type of the humidity level
/// below which it needs water, which this library carries through.
pub struct Plant<L> {
    pub id: String,
    pub name: String,
    pub analog_channel: u8,
    pub pump_gpio: u8,
    pub water_for_seconds: u64,
    pub sensor_params: SoilSensorParams,
    pub requires_watering_level: L,
}

/// The probe in the water container and its calibration.
pub struct WaterLevelSensor {
    pub analog_channel: u8,
    pub water_reading: u16,
    pub just_a_tip_reading: u16,
    pub air_reading: u16,
}

pub struct Setup<L> {
    pub water_level_sensor: WaterLevelSensor,
    pub plants: Vec<Plant<L>>,
}

/// Soil humidity of a plant, in percent.
pub struct SoilHumidityReading {
    pub humidity: u8,
}

pub struct PlantsState<L> {
    pub plants: Vec<(Plant<L>, SoilHumidityReading)>,
    pub water_container_reading: WaterLevelReading,
}

/// How much water the container holds.
#[derive(Clone, Copy, Debug)]
pub enum WaterLevelReading {
    NoWaterContact,
    NotComplete,
    CompleteUnderWater,
}

/// Why plants cannot be watered.
#[derive(Clone, Copy, Debug)]
pub enum DemoError {
    /// The container has no water left.
    RefillWaterContainer,
}

impl DemoError {
    pub fn to_text(&self) -> (r: String)
        ensures
            r@ == "Refill water container"@,
    {
        String::from_str("Refill water container")
    }
}

/// Whether `calculate_percentage` can compute the humidity of this reading.
pub fn percentage_defined(sensor_value: u16, sensor_calibration: &SoilSensorParams) -> (r: bool)
    ensures
        r == percentage_computable(
            sensor_value,
            sensor_calibration.water_reading,
            sensor_calibration.air_reading,
        ),
{
    computable(sensor_value, sensor_calibration.water_reading, sensor_calibration.air_reading)
}

/// Soil humidity in percent (0 is as dry as air, 100 as wet as water).
pub fn calculate_percentage(sensor_value: u16, sensor_calibration: &SoilSensorParams) -> (r: u8)
    requires
        percentage_computable(
            sensor_value,
            sensor_calibration.water_reading,
            sensor_calibration.air_reading,
        ),
    ensures
        r == spec_percentage(
            sensor_value,
            sensor_calibration.water_reading,
            sensor_calibration.air_reading,
        ),
{
    percentage(sensor_value, sensor_calibration.water_reading, sensor_calibration.air_reading)
}

pub open spec fn readings_computable<L>(plants: Seq<Plant<L>>, soil_readings: Seq<u16>) -> bool {
    &&& soil_readings.len() == plants.len()
    &&& forall|i: int|
        0 <= i < plants.len() ==> percentage_computable(
            #[trigger] soil_readings[i],
            plants[i].sensor_params.water_reading,
            plants[i].sensor_params.air_reading,
        )
}

/// The state of the plants from their raw readings (`soil_readings[i]`
/// belongs to plant `i`). The container probe is not read: its state is
/// reported as not known to be complete.
pub fn plants_state_from_readings<L>(setup: Setup<L>, soil_readings: &Vec<u16>) -> (r: PlantsState<L>)
    requires
        readings_computable(setup.plants@, soil_readings@),
    ensures
        r.plants@.len() == setup.plants@.len(),
        forall|i: int|
            0 <= i < r.plants@.len() ==> (#[trigger] r.plants@[i]).0 == setup.plants@[i]
                && r.plants@[i].1.humidity == spec_percentage(
                soil_readings@[i],
                setup.plants@[i].sensor_params.water_reading,
                setup.plants@[i].sensor_params.air_reading,
            ),
        r.water_container_reading is NotComplete,
{
    let ghost given = setup.plants@;
    let mut remaining = setup.plants;
    let n: usize = remaining.len();
    let mut plants_state: Vec<(Plant<L>, SoilHumidityReading)> = Vec::new();
    let mut i: usize = 0;
    while i < n
        invariant
            n == given.len(),
            i <= n,
            readings_computable(given, soil_readings@),
            remaining@ == given.subrange(i as int, n as int),
            plants_state@.len() == i,
            forall|j: int|
                0 <= j < i ==> (#[trigger] plants_state@[j]).0 == given[j]
                    && plants_state@[j].1.humidity == spec_percentage(
                    soil_readings@[j],
                    given[j].sensor_params.water_reading,
                    given[j].sensor_params.air_reading,
                ),
        decreases n - i,
    {
        let plant = remaining.remove(0);
        assert(plant == given[i as int]);
        let humidity = calculate_percentage(soil_readings[i], &plant.sensor_params);
        plants_state.push((plant, SoilHumidityReading { humidity }));
        i = i + 1;
        assert(remaining@ =~= given.subrange(i as int, n as int));
    }
    PlantsState { plants: plants_state, water_container_reading: WaterLevelReading::NotComplete }
}

/// Whether watering may go on given the container: a full container is
/// fine (`Ok(false)`), one not known to be full is fine with a warning
/// (`Ok(true)`), an empty one stops the watering.
pub fn check_water_container(reading: &WaterLevelReading) -> (r: Result<bool, DemoError>)
    ensures
        reading is CompleteUnderWater ==> r == Ok::<bool, DemoError>(false),
        reading is NotComplete ==> r == Ok::<bool, DemoError>(true),
        reading is NoWaterContact ==> r is Err,
{
    match reading {
        WaterLevelReading::CompleteUnderWater => Ok(false),
        WaterLevelReading::NotComplete => Ok(true),
        WaterLevelReading::NoWaterContact => Err(DemoError::RefillWaterContainer),
    }
}

} // verus!
