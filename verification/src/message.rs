//! What the running services report.

use vstd::prelude::*;

use crate::news::NewsItem;
use crate::weather::WeatherReport;

verus! {

/// One update from a service, as sent on to the front end.
#[derive(Clone, Debug)]
pub enum UpdateMessage {
    Weather(WeatherReport),
    News(Vec<NewsItem>),
}

} // verus!
