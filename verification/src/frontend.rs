use vstd::prelude::*;

use crate::dashboard::{plant_data_of, WateringChartData, WateringDashboard};

verus! {

/// What the dashboard page reacts to; `E` is the error of a failed fetch.
pub enum Msg<V, E> {
    /// The user (or the page's start) asks for fresh data.
    FetchData,
    /// A fetch has finished.
    FetchReady(Result<WateringDashboard<V>, E>),
}

/// What the page must do after handling a message.
#[derive(Clone, Copy, Debug, PartialEq, Eq, Structural)]
pub struct Update {
    /// Render the page again.
    pub should_render: bool,
    /// Start a fetch of the dashboard data.
    pub start_fetch: bool,
}

/// What the page shows where the chart goes.
pub enum ChartView<V> {
    Chart(WateringChartData<V>),
    /// The data has not arrived yet.
    Waiting,
}

/// The state of the dashboard page.
pub struct Model<V> {
    pub fetching: bool,
    pub data: Option<WateringDashboard<V>>,
}

impl<V> Model<V> {
    /// A page that has just asked for its data.
    pub fn create() -> (r: (Model<V>, Update))
        ensures
            r.0.fetching,
            r.0.data is None,
            r.1 == (Update { should_render: true, start_fetch: true }),
    {
        let mut s = Model { fetching: false, data: None };
        let u = s.update::<()>(Msg::FetchData);
        (s, u)
    }

    pub fn update<E>(&mut self, msg: Msg<V, E>) -> (r: Update)
        ensures
            msg is FetchData ==> final(self).fetching && final(self).data == old(self).data && r == (
            Update { should_render: true, start_fetch: true }),
            msg matches Msg::FetchReady(response) ==> !final(self).fetching && final(self).data
                == response.ok() && r == (Update { should_render: true, start_fetch: false }),
    {
        match msg {
            Msg::FetchData => {
                self.fetching = true;
                Update { should_render: true, start_fetch: true }
            },
            Msg::FetchReady(response) => {
                self.fetching = false;
                self.data = response.ok();
                Update { should_render: true, start_fetch: false }
            },
        }
    }

    /// The page has no properties, so a change of them never renders again.
    pub fn change(&mut self) -> (r: bool)
        ensures
            !r,
            final(self).fetching == old(self).fetching,
            final(self).data == old(self).data,
    {
        false
    }
}

impl<V: Copy> Model<V> {
    /// The data can be charted whenever it is there.
    pub open spec fn chartable(&self) -> bool {
        self.data matches Some(d) ==> d.wf() && d.names_both_plants()
    }

    /// The chart of the fetched data, or the note that it has not come yet.
    pub fn view_data(&self) -> (r: ChartView<V>)
        requires
            self.chartable(),
        ensures
            self.data is None <==> r is Waiting,
            r matches ChartView::Chart(chart) ==> chart.from == self.data->0.from && chart.to
                == self.data->0.to && plant_data_of(chart.sensor1, self.data->0, 1)
                && plant_data_of(chart.sensor2, self.data->0, 2),
    {
        match &self.data {
            Some(value) => match WateringChartData::from_dashboard(value) {
                Ok(chart) => ChartView::Chart(chart),
                Err(_) => ChartView::Waiting,
            },
            None => ChartView::Waiting,
        }
    }
}

/// The messages a finished fetch produces: its data when the server answered
/// with success, none otherwise.
pub fn fetch_response_messages<V, E>(success: bool, data: Result<WateringDashboard<V>, E>) -> (r: Vec<
    Msg<V, E>,
>)
    ensures
        success ==> r@.len() == 1 && r@[0] == Msg::<V, E>::FetchReady(data),
        !success ==> r@.len() == 0,
{
    let mut messages: Vec<Msg<V, E>> = Vec::new();
    if success {
        messages.push(Msg::FetchReady(data));
    }
    messages
}

} // verus!
