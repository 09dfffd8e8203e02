use vstd::prelude::*;

use crate::decimal::{parse_i64, spec_parse_i64};

verus! {

/// Smallest and largest Unix second whose date chrono can represent
/// (January 1 of year -262143 and December 31 of year 262142).
pub const MIN_TIMESTAMP_SECS: i64 = -8334601228800;

pub const MAX_TIMESTAMP_SECS: i64 = 8210266876799;

/// A point on the time line that chrono can hold: seconds since the Unix
/// epoch and a sub-second part (a part of 10^9 or more marks a leap second,
/// which only the last second of a minute can carry).
pub open spec fn instant_valid(secs: i64, nanos: u32) -> bool {
    &&& MIN_TIMESTAMP_SECS <= secs <= MAX_TIMESTAMP_SECS
    &&& nanos < 2_000_000_000
    &&& nanos >= 1_000_000_000 ==> secs % 60 == 59
}

/// An offset from UTC, in seconds, that a chrono `FixedOffset` can hold.
pub open spec fn offset_valid(offset: i32) -> bool {
    -86_400 < offset < 86_400
}

/// The RFC 3339 text that chrono writes for the instant `secs`/`nanos`
/// seen at the UTC offset `offset` (`DateTime::to_rfc3339`).
pub uninterp spec fn rfc3339_text(secs: i64, nanos: u32, offset: i32) -> Seq<char>;

/// Calls chrono's `DateTime::to_rfc3339` on the instant `secs`/`nanos` at the
/// fixed offset `offset`. The contract claims only that the text depends on
/// these three values and nothing else; chrono's formatting itself is not
/// restated here.
#[verifier::external_body]
fn chrono_rfc3339(secs: i64, nanos: u32, offset: i32) -> (r: String)
    requires
        instant_valid(secs, nanos),
        offset_valid(offset),
    ensures
        r@ == rfc3339_text(secs, nanos, offset),
{
    let zone = chrono::FixedOffset::east_opt(offset).unwrap();
    chrono::DateTime::from_timestamp(secs, nanos).unwrap().with_timezone(&zone).to_rfc3339()
}

/// A moment as a database or the clock reports it: the instant and the UTC
/// offset at which it is shown.
#[derive(Clone, Copy, Debug)]
pub struct Timestamp {
    pub secs: i64,
    pub nanos: u32,
    pub offset: i32,
}

impl Timestamp {
    pub open spec fn wf(&self) -> bool {
        instant_valid(self.secs, self.nanos) && offset_valid(self.offset)
    }

    /// A timestamp, where chrono can represent it.
    pub fn new(secs: i64, nanos: u32, offset: i32) -> (r: Option<Timestamp>)
        ensures
            r is Some <==> instant_valid(secs, nanos) && offset_valid(offset),
            r matches Some(t) ==> t.secs == secs && t.nanos == nanos && t.offset == offset,
    {
        let truncated: i64 = secs % 60;
        let second_of_minute: i64 = if truncated < 0 {
            truncated + 60
        } else {
            truncated
        };
        assert(second_of_minute == secs % 60);
        if MIN_TIMESTAMP_SECS <= secs && secs <= MAX_TIMESTAMP_SECS && nanos < 2_000_000_000 && (
        nanos < 1_000_000_000 || second_of_minute == 59) && -86_400 < offset && offset < 86_400 {
            Some(Timestamp { secs, nanos, offset })
        } else {
            None
        }
    }

    pub fn is_valid(&self) -> (r: bool)
        ensures
            r == self.wf(),
    {
        Timestamp::new(self.secs, self.nanos, self.offset).is_some()
    }

    /// The timestamp as RFC 3339 text.
    pub fn to_rfc3339(&self) -> (r: String)
        requires
            self.wf(),
        ensures
            r@ == rfc3339_text(self.secs, self.nanos, self.offset),
    {
        chrono_rfc3339(self.secs, self.nanos, self.offset)
    }
}


/// A soil reading as the database stores it; `V` is the type of the measured
/// value, which this library carries through without reading it.
pub struct ReadingDb<V> {
    pub time: Timestamp,
    pub sensor: String,
    pub metric: String,
    pub value: V,
    pub name: String,
}

/// One watering as the database stores it.
pub struct WateringTimeRecordings {
    pub time: Timestamp,
    pub sensor: String,
    pub duration_seconds: i32,
    pub name: String,
}

/// The optional bounds of the requested period, as Unix seconds in text.
pub struct Info {
    pub start: Option<String>,
    pub finish: Option<String>,
}

/// Everything the dashboard shows for a period.
pub struct WateringDashboard<V> {
    pub from: Timestamp,
    pub to: Timestamp,
    pub sensor_readings: Vec<ReadingDb<V>>,
    pub waterings: Vec<WateringTimeRecordings>,
}

/// One point of a chart: the time as RFC 3339 text and the value.
pub struct Reading<Y> {
    pub x: String,
    pub y: Y,
}

/// The chart series of one plant.
pub struct PlantData<V> {
    pub name: String,
    pub soil_humidity_readings: Vec<Reading<V>>,
    pub watering_readings: Vec<Reading<i32>>,
}

/// The chart data of the two plants of the installation.
pub struct WateringChartData<V> {
    pub from: Timestamp,
    pub to: Timestamp,
    pub sensor1: PlantData<V>,
    pub sensor2: PlantData<V>,
}

/// The plant (1 or 2) that a sensor id names, or 0 for any other id.
pub open spec fn sensor_number(sensor: Seq<char>) -> int {
    if sensor == seq!['1'] {
        1
    } else if sensor == seq!['2'] {
        2
    } else {
        0
    }
}

pub open spec fn time_text(t: Timestamp) -> Seq<char> {
    rfc3339_text(t.secs, t.nanos, t.offset)
}

/// The soil series of plant `n`: the readings of its sensor, in order.
pub open spec fn soil_points<V>(readings: Seq<ReadingDb<V>>, n: int) -> Seq<(Seq<char>, V)>
    decreases readings.len(),
{
    if readings.len() == 0 {
        seq![]
    } else {
        let earlier = soil_points(readings.drop_last(), n);
        let r = readings.last();
        if sensor_number(r.sensor@) == n {
            earlier.push((time_text(r.time), r.value))
        } else {
            earlier
        }
    }
}

/// The watering series of plant `n`: its waterings, in order, with their
/// durations.
pub open spec fn watering_points(waterings: Seq<WateringTimeRecordings>, n: int) -> Seq<
    (Seq<char>, i32),
>
    decreases waterings.len(),
{
    if waterings.len() == 0 {
        seq![]
    } else {
        let earlier = watering_points(waterings.drop_last(), n);
        let w = waterings.last();
        if sensor_number(w.sensor@) == n {
            earlier.push((time_text(w.time), w.duration_seconds))
        } else {
            earlier
        }
    }
}

/// The name carried by the first reading of plant `n`, if there is one.
pub open spec fn first_name<V>(readings: Seq<ReadingDb<V>>, n: int) -> Option<Seq<char>>
    decreases readings.len(),
{
    if readings.len() == 0 {
        None
    } else {
        match first_name(readings.drop_last(), n) {
            Some(name) => Some(name),
            None => if sensor_number(readings.last().sensor@) == n {
                Some(readings.last().name@)
            } else {
                None
            },
        }
    }
}

pub open spec fn points_match<Y>(points: Seq<Reading<Y>>, expected: Seq<(Seq<char>, Y)>) -> bool {
    &&& points.len() == expected.len()
    &&& forall|i: int|
        0 <= i < points.len() ==> (#[trigger] points[i]).x@ == expected[i].0 && points[i].y
            == expected[i].1
}

impl<V> WateringDashboard<V> {
    /// Every time in the dashboard is one that chrono can represent.
    pub open spec fn wf(&self) -> bool {
        &&& self.from.wf()
        &&& self.to.wf()
        &&& forall|i: int|
            0 <= i < self.sensor_readings@.len() ==> (#[trigger] self.sensor_readings@[i]).time.wf()
        &&& forall|i: int| 0 <= i < self.waterings@.len() ==> (#[trigger] self.waterings@[i]).time.wf()
    }

    /// Both plants have at least one soil reading in the dashboard.
    pub open spec fn names_both_plants(&self) -> bool {
        first_name(self.sensor_readings@, 1) is Some && first_name(self.sensor_readings@, 2) is Some
    }

    /// Whether the dashboard can be charted: its times are valid and both
    /// plants have a soil reading.
    pub fn chartable(&self) -> (r: bool)
        ensures
            r == (self.wf() && self.names_both_plants()),
    {
        if !self.from.is_valid() || !self.to.is_valid() {
            return false;
        }
        let n: usize = self.sensor_readings.len();
        let mut seen1 = false;
        let mut seen2 = false;
        let mut i: usize = 0;
        while i < n
            invariant
                n == self.sensor_readings@.len(),
                i <= n,
                forall|j: int| 0 <= j < i ==> (#[trigger] self.sensor_readings@[j]).time.wf(),
                seen1 == (first_name(self.sensor_readings@.take(i as int), 1) is Some),
                seen2 == (first_name(self.sensor_readings@.take(i as int), 2) is Some),
            decreases n - i,
        {
            let reading = &self.sensor_readings[i];
            assert(self.sensor_readings@.take(i + 1).drop_last() =~= self.sensor_readings@.take(
                i as int,
            ));
            if !reading.time.is_valid() {
                return false;
            }
            let slot = sensor_slot(&reading.sensor);
            if slot == 1 {
                seen1 = true;
            } else if slot == 2 {
                seen2 = true;
            }
            i = i + 1;
        }
        assert(self.sensor_readings@.take(n as int) =~= self.sensor_readings@);
        let m: usize = self.waterings.len();
        let mut j: usize = 0;
        while j < m
            invariant
                m == self.waterings@.len(),
                j <= m,
                forall|k: int| 0 <= k < j ==> (#[trigger] self.waterings@[k]).time.wf(),
            decreases m - j,
        {
            if !self.waterings[j].time.is_valid() {
                return false;
            }
            j = j + 1;
        }
        seen1 && seen2
    }
}

/// The chart data of plant `n` as the dashboard determines it.
pub open spec fn plant_data_of<V>(data: PlantData<V>, dashboard: WateringDashboard<V>, n: int) -> bool {
    &&& first_name(dashboard.sensor_readings@, n) == Some(data.name@)
    &&& points_match(data.soil_humidity_readings@, soil_points(dashboard.sensor_readings@, n))
    &&& points_match(data.watering_readings@, watering_points(dashboard.waterings@, n))
}

/// Which plant a sensor id names: 1, 2, or 0 for any other id.
pub fn sensor_slot(sensor: &String) -> (r: u8)
    ensures
        r == sensor_number(sensor@),
{
    let text = sensor.as_str();
    if text.unicode_len() == 1 {
        let c = text.get_char(0);
        if c == '1' {
            assert(sensor@ =~= seq!['1']);
            1
        } else if c == '2' {
            assert(sensor@ =~= seq!['2']);
            2
        } else {
            assert(sensor@ != seq!['1'] && sensor@ != seq!['2']) by {
                assert(seq!['1'][0] == '1');
                assert(seq!['2'][0] == '2');
            }
            0
        }
    } else {
        assert(sensor@ != seq!['1'] && sensor@ != seq!['2']) by {
            assert(seq!['1'].len() == 1);
            assert(seq!['2'].len() == 1);
        }
        0
    }
}

impl<V: Copy> WateringChartData<V> {
    /// Splits the dashboard into the series of plant 1 and plant 2.
    pub fn from_dashboard(dashboard: &WateringDashboard<V>) -> (r: Result<WateringChartData<V>, DashboardError>)
        requires
            dashboard.wf(),
            dashboard.names_both_plants(),
        ensures
            r matches Ok(chart) && chart.from == dashboard.from && chart.to == dashboard.to
                && plant_data_of(chart.sensor1, *dashboard, 1) && plant_data_of(
                chart.sensor2,
                *dashboard,
                2,
            ),
    {
        let ghost readings = dashboard.sensor_readings@;
        let ghost waterings = dashboard.waterings@;
        let mut sensor1_name: Option<String> = None;
        let mut sensor2_name: Option<String> = None;
        let mut sensor1_soil_humidity: Vec<Reading<V>> = Vec::new();
        let mut sensor2_soil_humidity: Vec<Reading<V>> = Vec::new();
        let n: usize = dashboard.sensor_readings.len();
        let mut i: usize = 0;
        while i < n
            invariant
                dashboard.wf(),
                readings == dashboard.sensor_readings@,
                n == readings.len(),
                i <= n,
                points_match(sensor1_soil_humidity@, soil_points(readings.take(i as int), 1)),
                points_match(sensor2_soil_humidity@, soil_points(readings.take(i as int), 2)),
                match sensor1_name {
                    Some(s) => first_name(readings.take(i as int), 1) == Some(s@),
                    None => first_name(readings.take(i as int), 1) is None,
                },
                match sensor2_name {
                    Some(s) => first_name(readings.take(i as int), 2) == Some(s@),
                    None => first_name(readings.take(i as int), 2) is None,
                },
            decreases n - i,
        {
            let reading = &dashboard.sensor_readings[i];
            assert(readings.take(i + 1).drop_last() =~= readings.take(i as int));
            assert(readings.take(i + 1).last() == readings[i as int]);
            assert(reading.time.wf());
            let slot = sensor_slot(&reading.sensor);
            if slot == 1 {
                if sensor1_name.is_none() {
                    sensor1_name = Some(reading.name.clone());
                }
                let point = Reading { x: reading.time.to_rfc3339(), y: reading.value };
                sensor1_soil_humidity.push(point);
            } else if slot == 2 {
                if sensor2_name.is_none() {
                    sensor2_name = Some(reading.name.clone());
                }
                let point = Reading { x: reading.time.to_rfc3339(), y: reading.value };
                sensor2_soil_humidity.push(point);
            }
            i = i + 1;
        }
        assert(readings.take(n as int) =~= readings);
        let mut sensor1_watering: Vec<Reading<i32>> = Vec::new();
        let mut sensor2_watering: Vec<Reading<i32>> = Vec::new();
        let m: usize = dashboard.waterings.len();
        let mut j: usize = 0;
        while j < m
            invariant
                dashboard.wf(),
                waterings == dashboard.waterings@,
                m == waterings.len(),
                j <= m,
                points_match(sensor1_watering@, watering_points(waterings.take(j as int), 1)),
                points_match(sensor2_watering@, watering_points(waterings.take(j as int), 2)),
            decreases m - j,
        {
            let watering = &dashboard.waterings[j];
            assert(waterings.take(j + 1).drop_last() =~= waterings.take(j as int));
            assert(waterings.take(j + 1).last() == waterings[j as int]);
            assert(watering.time.wf());
            let slot = sensor_slot(&watering.sensor);
            if slot == 1 {
                let point = Reading { x: watering.time.to_rfc3339(), y: watering.duration_seconds };
                sensor1_watering.push(point);
            } else if slot == 2 {
                let point = Reading { x: watering.time.to_rfc3339(), y: watering.duration_seconds };
                sensor2_watering.push(point);
            }
            j = j + 1;
        }
        assert(waterings.take(m as int) =~= waterings);
        let name1 = match sensor1_name {
            Some(name) => name,
            None => {
                proof {
                    assert(false);
                }
                String::new()
            },
        };
        let name2 = match sensor2_name {
            Some(name) => name,
            None => {
                proof {
                    assert(false);
                }
                String::new()
            },
        };
        Ok(
            WateringChartData {
                from: dashboard.from,
                to: dashboard.to,
                sensor1: PlantData {
                    name: name1,
                    soil_humidity_readings: sensor1_soil_humidity,
                    watering_readings: sensor1_watering,
                },
                sensor2: PlantData {
                    name: name2,
                    soil_humidity_readings: sensor2_soil_humidity,
                    watering_readings: sensor2_watering,
                },
            },
        )
    }
}

/// Why a dashboard request is refused.
#[derive(Clone, Copy, Debug)]
pub enum DashboardError {
    /// The start of the period is not before its end.
    StartNotBeforeFinish,
}

impl DashboardError {
    /// The message the server answers a refused request with.
    pub fn to_text(&self) -> (r: String)
        ensures
            r@ == "start_date cannot be > then finish_date"@,
    {
        String::from_str("start_date cannot be > then finish_date")
    }
}


/// How far back a period reaches when its start is not given: five days.
pub const DEFAULT_PERIOD_SECS: i64 = 432_000;

/// An instant: seconds since the Unix epoch and the sub-second part.
#[derive(Clone, Copy, Debug)]
pub struct Moment {
    pub secs: i64,
    pub nanos: u32,
}

/// The period that a dashboard covers.
#[derive(Clone, Copy, Debug)]
pub struct Period {
    pub start: Moment,
    pub finish: Moment,
}

pub open spec fn moment_before(a: Moment, b: Moment) -> bool {
    a.secs < b.secs || (a.secs == b.secs && a.nanos < b.nanos)
}

/// "Before" is the order of the time line: no moment is before itself, of
/// two different moments exactly one is before the other, and it agrees
/// with the order of the seconds.
pub proof fn lemma_moment_order(a: Moment, b: Moment, c: Moment)
    ensures
        !moment_before(a, a),
        moment_before(a, b) ==> !moment_before(b, a),
        a != b ==> (moment_before(a, b) || moment_before(b, a)),
        moment_before(a, b) && moment_before(b, c) ==> moment_before(a, c),
        a.secs < b.secs ==> moment_before(a, b),
        moment_before(a, b) ==> a.secs <= b.secs,
{
}

/// A bound given as Unix seconds in text that chrono can turn into a time.
pub open spec fn bound_usable(bound: Option<String>) -> bool {
    match bound {
        Some(text) => match spec_parse_i64(text@) {
            Some(secs) => instant_valid(secs, 0),
            None => false,
        },
        None => true,
    }
}

/// The instant a bound names, or `default` where it is absent.
pub open spec fn bound_moment(bound: Option<String>, default: Moment) -> Moment {
    match bound {
        Some(text) => Moment { secs: spec_parse_i64(text@).unwrap(), nanos: 0 },
        None => default,
    }
}

pub open spec fn default_start(now: Moment) -> Moment {
    Moment { secs: (now.secs - DEFAULT_PERIOD_SECS) as i64, nanos: now.nanos }
}

pub open spec fn requested_start(info: Info, now: Moment) -> Moment {
    bound_moment(info.start, default_start(now))
}

pub open spec fn requested_finish(info: Info, now: Moment) -> Moment {
    bound_moment(info.finish, now)
}

/// The Unix seconds that a bound of a request names, as the request gives
/// them in text.
pub fn parse_bound(text: &String) -> (r: Option<i64>)
    ensures
        r == spec_parse_i64(text@),
{
    parse_i64(text.as_str())
}

fn bound_or(bound: &Option<String>, default: Moment) -> (r: Moment)
    requires
        bound_usable(*bound),
    ensures
        r == bound_moment(*bound, default),
{
    match bound {
        Some(text) => match parse_bound(text) {
            Some(secs) => Moment { secs, nanos: 0 },
            None => {
                proof {
                    assert(false);
                }
                default
            },
        },
        None => default,
    }
}

/// The period a dashboard request asks for, at the current instant `now`:
/// a bound that is given is taken as Unix seconds, a missing start is five
/// days before `now`, a missing finish is `now`. The period must start
/// before it finishes.
pub fn requested_period(info: &Info, now: Moment) -> (r: Result<Period, DashboardError>)
    requires
        instant_valid(now.secs, now.nanos),
        instant_valid((now.secs - DEFAULT_PERIOD_SECS) as i64, now.nanos),
        bound_usable(info.start),
        bound_usable(info.finish),
    ensures
        r is Err <==> !moment_before(requested_start(*info, now), requested_finish(*info, now)),
        r matches Ok(p) ==> p.start == requested_start(*info, now) && p.finish == requested_finish(
            *info,
            now,
        ),
        r matches Ok(p) ==> p.start.secs < p.finish.secs || (p.start.secs == p.finish.secs
            && p.start.nanos < p.finish.nanos),
        (info.start matches Some(s) && info.finish matches Some(f) && spec_parse_i64(s@)->0
            >= spec_parse_i64(f@)->0) ==> r is Err,
        (info.start is None && info.finish is None) ==> r is Ok,
{
    let fallback = Moment { secs: now.secs - DEFAULT_PERIOD_SECS, nanos: now.nanos };
    let start = bound_or(&info.start, fallback);
    let finish = bound_or(&info.finish, now);
    if start.secs < finish.secs || (start.secs == finish.secs && start.nanos < finish.nanos) {
        Ok(Period { start, finish })
    } else {
        Err(DashboardError::StartNotBeforeFinish)
    }
}


/// The sensor id text names plant `n` (1 or 2).
pub open spec fn names_plant(sensor: Seq<char>, n: int) -> bool {
    (n == 1 && sensor == seq!['1']) || (n == 2 && sensor == seq!['2'])
}

proof fn lemma_names_plant(sensor: Seq<char>, n: int)
    requires
        n == 1 || n == 2,
    ensures
        names_plant(sensor, n) <==> sensor_number(sensor) == n,
{
    assert(seq!['1'] != seq!['2']) by {
        assert(seq!['1'][0] != seq!['2'][0]);
    }
}

/// Plant `n`'s watering series is the waterings whose sensor id is `n`, in
/// order: the returned `idx` maps each point to one such watering (the point
/// is its time as text and its duration), later points come from later
/// waterings, and every watering of that sensor is charted.
pub proof fn lemma_watering_series(waterings: Seq<WateringTimeRecordings>, n: int) -> (idx: Seq<int>)
    requires
        n == 1 || n == 2,
    ensures
        idx.len() == watering_points(waterings, n).len(),
        forall|i: int|
            0 <= i < idx.len() ==> 0 <= #[trigger] idx[i] < waterings.len() && names_plant(
                waterings[idx[i]].sensor@,
                n,
            ) && watering_points(waterings, n)[i] == (
                time_text(waterings[idx[i]].time),
                waterings[idx[i]].duration_seconds,
            ),
        forall|i: int, k: int| 0 <= i < k < idx.len() ==> #[trigger] idx[i] < #[trigger] idx[k],
        forall|j: int|
            0 <= j < waterings.len() && names_plant(waterings[j].sensor@, n) ==> exists|i: int|
                0 <= i < idx.len() && #[trigger] idx[i] == j,
    decreases waterings.len(),
{
    if waterings.len() == 0 {
        Seq::<int>::empty()
    } else {
        let before = waterings.drop_last();
        let prev = lemma_watering_series(before, n);
        let last = waterings.len() - 1;
        let idx = if sensor_number(waterings.last().sensor@) == n {
            prev.push(last)
        } else {
            prev
        };
        assert forall|j: int|
            0 <= j < waterings.len() && names_plant(waterings[j].sensor@, n) implies exists|i: int|
            0 <= i < idx.len() && #[trigger] idx[i] == j by {
            lemma_names_plant(waterings[j].sensor@, n);
            if j < last {
                assert(before[j] == waterings[j]);
                assert(names_plant(before[j].sensor@, n));
                let i = choose|i: int| 0 <= i < prev.len() && #[trigger] prev[i] == j;
                assert(idx[i] == prev[i]);
            } else {
                assert(idx[idx.len() - 1] == j);
            }
        }
        assert forall|i: int|
            0 <= i < idx.len() implies 0 <= #[trigger] idx[i] < waterings.len() && names_plant(
            waterings[idx[i]].sensor@,
            n,
        ) && watering_points(waterings, n)[i] == (
            time_text(waterings[idx[i]].time),
            waterings[idx[i]].duration_seconds,
        ) by {
            if i < prev.len() {
                assert(idx[i] == prev[i]);
                assert(before[prev[i]] == waterings[prev[i]]);
            } else {
                lemma_names_plant(waterings.last().sensor@, n);
            }
        }
        idx
    }
}

/// Plant `n`'s soil series is the soil readings whose sensor id is `n`, in
/// order: the returned `idx` maps each point to one such reading (the point
/// is its time as text and its value), later points come from later
/// readings, and every reading of that sensor is charted.
pub proof fn lemma_soil_series<V>(readings: Seq<ReadingDb<V>>, n: int) -> (idx: Seq<int>)
    requires
        n == 1 || n == 2,
    ensures
        idx.len() == soil_points(readings, n).len(),
        forall|i: int|
            0 <= i < idx.len() ==> 0 <= #[trigger] idx[i] < readings.len() && names_plant(
                readings[idx[i]].sensor@,
                n,
            ) && soil_points(readings, n)[i] == (
                time_text(readings[idx[i]].time),
                readings[idx[i]].value,
            ),
        forall|i: int, k: int| 0 <= i < k < idx.len() ==> #[trigger] idx[i] < #[trigger] idx[k],
        forall|j: int|
            0 <= j < readings.len() && names_plant(readings[j].sensor@, n) ==> exists|i: int|
                0 <= i < idx.len() && #[trigger] idx[i] == j,
    decreases readings.len(),
{
    if readings.len() == 0 {
        Seq::<int>::empty()
    } else {
        let before = readings.drop_last();
        let prev = lemma_soil_series(before, n);
        let last = readings.len() - 1;
        let idx = if sensor_number(readings.last().sensor@) == n {
            prev.push(last)
        } else {
            prev
        };
        assert forall|j: int|
            0 <= j < readings.len() && names_plant(readings[j].sensor@, n) implies exists|i: int|
            0 <= i < idx.len() && #[trigger] idx[i] == j by {
            lemma_names_plant(readings[j].sensor@, n);
            if j < last {
                assert(before[j] == readings[j]);
                assert(names_plant(before[j].sensor@, n));
                let i = choose|i: int| 0 <= i < prev.len() && #[trigger] prev[i] == j;
                assert(idx[i] == prev[i]);
            } else {
                assert(idx[idx.len() - 1] == j);
            }
        }
        assert forall|i: int|
            0 <= i < idx.len() implies 0 <= #[trigger] idx[i] < readings.len() && names_plant(
            readings[idx[i]].sensor@,
            n,
        ) && soil_points(readings, n)[i] == (time_text(readings[idx[i]].time), readings[idx[i]].value) by {
            if i < prev.len() {
                assert(idx[i] == prev[i]);
                assert(before[prev[i]] == readings[prev[i]]);
            } else {
                lemma_names_plant(readings.last().sensor@, n);
            }
        }
        idx
    }
}

/// Number of readings from sensors other than those of plants 1 and 2.
pub open spec fn other_readings<V>(readings: Seq<ReadingDb<V>>) -> int
    decreases readings.len(),
{
    if readings.len() == 0 {
        0
    } else {
        other_readings(readings.drop_last()) + if sensor_number(readings.last().sensor@) == 0 {
            1int
        } else {
            0int
        }
    }
}

/// The two soil series split the readings: every reading of plant 1 or 2
/// lands in its plant's series and in no other, and only readings of other
/// sensors are left out.
pub proof fn lemma_soil_series_partition<V>(readings: Seq<ReadingDb<V>>)
    ensures
        soil_points(readings, 1).len() + soil_points(readings, 2).len() + other_readings(readings)
            == readings.len(),
    decreases readings.len(),
{
    if readings.len() > 0 {
        lemma_soil_series_partition(readings.drop_last());
    }
}

/// A request that gives no bounds asks for the five days up to now, and is
/// granted.
pub proof fn lemma_default_period(now: Moment)
    requires
        instant_valid(now.secs, now.nanos),
        instant_valid((now.secs - DEFAULT_PERIOD_SECS) as i64, now.nanos),
    ensures
        ({
            let info = Info { start: None, finish: None };
            &&& requested_start(info, now) == (Moment {
                secs: (now.secs - DEFAULT_PERIOD_SECS) as i64,
                nanos: now.nanos,
            })
            &&& requested_finish(info, now) == now
            &&& moment_before(requested_start(info, now), requested_finish(info, now))
        }),
{
}

} // verus!
