use rustberry::dashboard::{ReadingDb, Timestamp, WateringDashboard};
use rustberry::frontend::{fetch_response_messages, ChartView, Model, Msg, Update};

fn dashboard() -> WateringDashboard<f32> {
    let t = Timestamp::new(1_600_000_000, 0, 0).unwrap();
    let r = |sensor: &str| ReadingDb { time: t, sensor: sensor.to_string(), metric: String::from("humidity"), value: 1.5f32, name: format!("p{}", sensor) };
    WateringDashboard { from: t, to: t, sensor_readings: vec![r("1"), r("2")], waterings: vec![] }
}

#[test]
fn page_fetches_and_shows_data() {
    let (mut model, update): (Model<f32>, Update) = Model::create();
    assert!(update == Update { should_render: true, start_fetch: true });
    assert!(model.fetching);
    assert!(matches!(model.view_data(), ChartView::Waiting));
    let u = model.update::<String>(Msg::FetchReady(Ok(dashboard())));
    assert!(u == Update { should_render: true, start_fetch: false });
    assert!(!model.fetching);
    match model.view_data() {
        ChartView::Chart(chart) => {
            assert_eq!(chart.sensor1.name, "p1");
            assert_eq!(chart.sensor2.soil_humidity_readings[0].x, "2020-09-13T12:26:40+00:00");
        }
        ChartView::Waiting => panic!("chart expected"),
    }
    let u = model.update::<String>(Msg::FetchReady(Err(String::from("offline"))));
    assert!(!u.start_fetch);
    assert!(model.data.is_none());
    assert!(!model.change());
}

#[test]
fn failed_responses_give_no_message() {
    let msgs = fetch_response_messages::<f32, String>(false, Ok(dashboard()));
    assert!(msgs.is_empty());
    let msgs = fetch_response_messages::<f32, String>(true, Err(String::from("bad json")));
    assert_eq!(msgs.len(), 1);
    assert!(matches!(&msgs[0], Msg::FetchReady(Err(e)) if e == "bad json"));
}
