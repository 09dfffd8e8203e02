use vstd::prelude::*;

use chrono::Timelike;

use crate::sensors_core::{computable, percentage, percentage_computable, spec_percentage};

verus! {

/// Calibration of a capacitive soil sensor read through an MCP3008 (0-1023):
/// the reading in water and the reading in air.
pub struct SoilSensorParams {
    pub water_reading: u16,
    pub air_reading: u16,
}

/// What the water-level probe in the container reports.
#[derive(Clone, Copy, Debug)]
pub enum WaterLevelReading {
    NoWaterContact,
    CompleteUnderWater,
}

/// Reading below which the water-level probe is taken to be dry.
pub const WATER_CONTACT_THRESHOLD: u16 = 50;

/// Classifies a raw reading of the water-level probe.
pub fn calculate_water_level(level: u16) -> (r: WaterLevelReading)
    ensures
        r is NoWaterContact <==> level < WATER_CONTACT_THRESHOLD,
        r is CompleteUnderWater <==> level >= WATER_CONTACT_THRESHOLD,
{
    if level < WATER_CONTACT_THRESHOLD {
        WaterLevelReading::NoWaterContact
    } else {
        WaterLevelReading::CompleteUnderWater
    }
}

/// Whether `calculate_percentage` can compute the humidity of this reading.
pub fn percentage_defined(sensor_value: u16, sensor_calibration: &SoilSensorParams) -> (r: bool)
    ensures
        r == percentage_computable(
            sensor_value,
            sensor_calibration.water_reading,
            sensor_calibration.air_reading,
        ),
{
    computable(sensor_value, sensor_calibration.water_reading, sensor_calibration.air_reading)
}

/// Soil humidity in percent (0 is as dry as air, 100 as wet as water).
pub fn calculate_percentage(sensor_value: u16, sensor_calibration: &SoilSensorParams) -> (r: u8)
    requires
        percentage_computable(
            sensor_value,
            sensor_calibration.water_reading,
            sensor_calibration.air_reading,
        ),
    ensures
        r == spec_percentage(
            sensor_value,
            sensor_calibration.water_reading,
            sensor_calibration.air_reading,
        ),
{
    percentage(sensor_value, sensor_calibration.water_reading, sensor_calibration.air_reading)
}


/// A time of day as chrono's `NaiveTime` holds it: whole seconds since
/// midnight and the fraction in nanoseconds (a fraction of 10^9 or more marks
/// a leap second).
#[derive(Clone, Copy, Debug)]
pub struct TimeOfDay {
    pub secs: u32,
    pub nanos: u32,
}

impl TimeOfDay {
    pub open spec fn wf(&self) -> bool {
        self.secs < 86_400 && self.nanos < 2_000_000_000
    }

    /// The order of times within a day.
    pub open spec fn before(&self, other: TimeOfDay) -> bool {
        self.secs < other.secs || (self.secs == other.secs && self.nanos < other.nanos)
    }

    pub fn is_before(&self, other: &TimeOfDay) -> (r: bool)
        ensures
            r == self.before(*other),
    {
        self.secs < other.secs || (self.secs == other.secs && self.nanos < other.nanos)
    }
}

/// Reads the local wall clock: chrono's `Local::now().time()`, taken apart
/// with `Timelike::num_seconds_from_midnight` and `Timelike::nanosecond`.
/// The contract states only the ranges chrono documents for these two; the
/// time itself is whatever the clock says.
#[verifier::external_body]
fn local_time_of_day() -> (r: TimeOfDay)
    ensures
        r.wf(),
{
    let now = chrono::Local::now().time();
    TimeOfDay { secs: now.num_seconds_from_midnight(), nanos: now.nanosecond() }
}

/// How and when a plant is watered; `L` is the type of the humidity level
/// below which the plant needs water, which this library carries through.
pub struct WateringParams<L> {
    /// How long a plant is watered.
    pub water_for_seconds: i32,
    /// Time of the day after which the plant may be watered.
    pub water_start_time: TimeOfDay,
    /// Time of the day before which the plant may be watered.
    pub water_end_time: TimeOfDay,
    /// Soil humidity (percent) below which the plant requires watering.
    pub requires_watering_level: L,
    /// GPIO pin that starts the pump.
    pub pump_gpio: u8,
}

impl<L> WateringParams<L> {
    /// The watering window holds the time `now`, both ends excluded.
    pub open spec fn window_contains(&self, now: TimeOfDay) -> bool {
        self.water_start_time.before(now) && now.before(self.water_end_time)
    }

    /// Whether the time of day `now` lies strictly inside the watering window.
    pub fn should_be_watered_at(&self, now: TimeOfDay) -> (r: bool)
        ensures
            r == self.window_contains(now),
    {
        now.is_before(&self.water_end_time) && self.water_start_time.is_before(&now)
    }

    /// Whether the current local time lies strictly inside the watering window.
    pub fn should_be_watered(&self) -> (r: bool)
        ensures
            exists|now: TimeOfDay| now.wf() && r == self.window_contains(now),
    {
        let now = local_time_of_day();
        self.should_be_watered_at(now)
    }
}

pub struct Plant<L> {
    pub id: String,
    pub name: String,
    pub analog_channel: u8,
    pub sensor_params: SoilSensorParams,
    pub watering_params: WateringParams<L>,
}

/// The probe that tells whether the water container still holds water.
pub struct WaterLevelSensor {
    pub analog_channel: u8,
}

/// The whole installation.
pub struct Setup<L> {
    pub water_level_sensor: WaterLevelSensor,
    pub sensor_power_pin: u8,
    pub plants: Vec<Plant<L>>,
}

/// Soil humidity of a plant, in percent.
pub struct SoilHumidityReading {
    pub humidity: u8,
}

/// Every plant with its soil humidity, and the state of the water container.
pub struct PlantsState<L> {
    pub plants: Vec<(Plant<L>, SoilHumidityReading)>,
    pub water_container_reading: WaterLevelReading,
}

/// Every soil reading can be turned into a percentage with its plant's
/// calibration.
pub open spec fn readings_computable<L>(plants: Seq<Plant<L>>, soil_readings: Seq<u16>) -> bool {
    &&& soil_readings.len() == plants.len()
    &&& forall|i: int|
        0 <= i < plants.len() ==> percentage_computable(
            #[trigger] soil_readings[i],
            plants[i].sensor_params.water_reading,
            plants[i].sensor_params.air_reading,
        )
}

/// The state of the installation from the raw readings: `soil_readings[i]`
/// is the reading of plant `i`'s sensor, `water_level` that of the probe.
pub fn plants_state_from_readings<L>(setup: Setup<L>, soil_readings: &Vec<u16>, water_level: u16) -> (r:
    PlantsState<L>)
    requires
        readings_computable(setup.plants@, soil_readings@),
    ensures
        r.plants@.len() == setup.plants@.len(),
        forall|i: int|
            0 <= i < r.plants@.len() ==> (#[trigger] r.plants@[i]).0 == setup.plants@[i]
                && r.plants@[i].1.humidity == spec_percentage(
                soil_readings@[i],
                setup.plants@[i].sensor_params.water_reading,
                setup.plants@[i].sensor_params.air_reading,
            ),
        r.water_container_reading is NoWaterContact <==> water_level < WATER_CONTACT_THRESHOLD,
{
    let ghost given = setup.plants@;
    let mut remaining = setup.plants;
    let n: usize = remaining.len();
    let mut plant_state: Vec<(Plant<L>, SoilHumidityReading)> = Vec::new();
    let mut i: usize = 0;
    while i < n
        invariant
            n == given.len(),
            i <= n,
            readings_computable(given, soil_readings@),
            remaining@ == given.subrange(i as int, n as int),
            plant_state@.len() == i,
            forall|j: int|
                0 <= j < i ==> (#[trigger] plant_state@[j]).0 == given[j]
                    && plant_state@[j].1.humidity == spec_percentage(
                    soil_readings@[j],
                    given[j].sensor_params.water_reading,
                    given[j].sensor_params.air_reading,
                ),
        decreases n - i,
    {
        let plant = remaining.remove(0);
        assert(plant == given[i as int]);
        let humidity = calculate_percentage(soil_readings[i], &plant.sensor_params);
        plant_state.push((plant, SoilHumidityReading { humidity }));
        i = i + 1;
        assert(remaining@ =~= given.subrange(i as int, n as int));
    }
    PlantsState { plants: plant_state, water_container_reading: calculate_water_level(water_level) }
}

/// Whether a plant gets water: its soil is dry, it is watering time, and
/// the container is not empty.
pub fn should_water(is_dry: bool, is_time_to_water: bool, water_container: &WaterLevelReading) -> (r:
    bool)
    ensures
        r == (is_dry && is_time_to_water && !(water_container is NoWaterContact)),
{
    let water_container_empty = match water_container {
        WaterLevelReading::NoWaterContact => true,
        WaterLevelReading::CompleteUnderWater => false,
    };
    is_dry && is_time_to_water && !water_container_empty
}


/// The humidity scale runs from 0 to 100 and falls as readings rise: a
/// reading at or below the water calibration gives 100, one at or above the
/// air calibration gives 0, and of two readings the higher never gives the
/// higher percentage.
pub proof fn lemma_percentage_scale(v1: u16, v2: u16, params: SoilSensorParams)
    requires
        percentage_computable(v1, params.water_reading, params.air_reading),
        percentage_computable(v2, params.water_reading, params.air_reading),
    ensures
        0 <= spec_percentage(v1, params.water_reading, params.air_reading) <= 100,
        v1 <= params.water_reading && params.water_reading <= params.air_reading ==> spec_percentage(
            v1,
            params.water_reading,
            params.air_reading,
        ) == 100,
        v1 >= params.air_reading && params.water_reading <= params.air_reading ==> spec_percentage(
            v1,
            params.water_reading,
            params.air_reading,
        ) == 0,
        v1 <= v2 ==> spec_percentage(v1, params.water_reading, params.air_reading)
            >= spec_percentage(v2, params.water_reading, params.air_reading),
{
    let w = params.water_reading as int;
    let a = params.air_reading as int;
    if w <= v1 <= a {
        assert(0 <= ((v1 - w) * 100) / (a - w) <= 100) by (nonlinear_arith)
            requires
                w <= v1 <= a,
                w < a,
        ;
        if v1 == w {
            assert(((v1 - w) * 100) / (a - w) == 0) by (nonlinear_arith)
                requires
                    v1 == w,
                    w < a,
            ;
        }
        if v1 == a {
            assert(((v1 - w) * 100) / (a - w) == 100) by (nonlinear_arith)
                requires
                    v1 == a,
                    w < a,
            ;
        }
    }
    if w <= v2 <= a {
        assert(0 <= ((v2 - w) * 100) / (a - w) <= 100) by (nonlinear_arith)
            requires
                w <= v2 <= a,
                w < a,
        ;
    }
    if w <= v1 <= a && w <= v2 <= a && v1 <= v2 {
        assert(((v1 - w) * 100) / (a - w) <= ((v2 - w) * 100) / (a - w)) by (nonlinear_arith)
            requires
                w <= v1 <= v2 <= a,
                w < a,
        ;
    }
}

} // verus!
