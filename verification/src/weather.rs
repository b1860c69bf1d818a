//! Weather data and the weather service.
//!
//! Querying a weather provider is the embedder's network edge; this module
//! holds the data model the rest of the system sees and the service's fixed
//! facts (its name, its polling rate, the query value each unit system maps
//! to).  Fractional provider values are carried in fixed point, thousandths
//! of the provider's unit, and dates as days since the Unix epoch.

use vstd::prelude::*;

use crate::service::Service;
use crate::settings::WeatherSettings;

verus! {

/// Where weather is polled from.
#[derive(Clone, Copy, Debug, PartialEq, Eq, Structural)]
pub enum WeatherSource {
    OpenWeather,
}

/// The unit system weather is reported in.
#[derive(Clone, Copy, Debug, PartialEq, Eq, Structural)]
pub enum TemperatureUnits {
    Kelvin,
    Celsius,
    Fahrenheit,
}

/// The query value OpenWeather expects for a unit system.
pub open spec fn spec_units_query(u: TemperatureUnits) -> Seq<char> {
    match u {
        TemperatureUnits::Kelvin => "standard"@,
        TemperatureUnits::Celsius => "metric"@,
        TemperatureUnits::Fahrenheit => "imperial"@,
    }
}

/// The query value OpenWeather expects for a unit system.
pub fn units_query(u: &TemperatureUnits) -> (r: &'static str)
    ensures
        r@ == spec_units_query(*u),
{
    match u {
        TemperatureUnits::Kelvin => "standard",
        TemperatureUnits::Celsius => "metric",
        TemperatureUnits::Fahrenheit => "imperial",
    }
}

/// The weather right now: temperature and humidity in thousandths of the
/// provider's unit, and a short description.
#[derive(Clone, Debug)]
pub struct CurrentWeather {
    pub temp_milli: i64,
    pub humidity_milli: i64,
    pub description: String,
}

/// One day of forecast: the date as days since the Unix epoch, and the
/// provider's fractional values in thousandths.  The rain chance is in
/// thousandths of a percent, as the front end displays percentages.
#[derive(Clone, Debug)]
pub struct Forecast {
    pub date_days: i64,
    pub min_temp_milli: i64,
    pub max_temp_milli: i64,
    pub humidity_milli: i64,
    pub rain_chance_milli: i64,
    pub cloudiness_milli: i64,
    pub description: String,
}

/// A full weather report: the current weather and the daily forecast.
#[derive(Clone, Debug)]
pub struct WeatherReport {
    pub current_weather: CurrentWeather,
    pub forecast: Vec<Forecast>,
}

/// The weather service: how often the provider is polled.  The poll itself
/// is the embedder's network edge.
#[derive(Clone)]
pub struct WeatherService {
    pub polling_rate: u64,
}

impl WeatherService {
    /// A weather service at the configured rate.
    pub fn new(settings: &WeatherSettings) -> (s: Self)
        ensures
            s.polling_rate == settings.polling_rate as u64,
    {
        WeatherService { polling_rate: settings.polling_rate as u64 }
    }

    /// The name weather results are filed under.
    pub fn get_name() -> (r: String)
        ensures
            r@ == "Weather"@,
    {
        "Weather".to_owned()
    }
}

impl Service for WeatherService {
    fn get_service_name(&self) -> String {
        WeatherService::get_name()
    }

    fn get_polling_rate(&self) -> u64 {
        self.polling_rate
    }
}

} // verus!
