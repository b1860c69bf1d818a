//! Configuration.
//!
//! All tunable state is carried in explicit structs handed to each component
//! at construction.  Reading and writing wherever settings persist is the
//! embedder's concern; coordinates are carried in millionths of a degree.

use vstd::prelude::*;

use crate::news::{NewsSource, RssNewsSource};
use crate::weather::{TemperatureUnits, WeatherSource};

verus! {

/// The languages the voice pipeline can be configured for.
#[derive(Clone, Copy, Debug, PartialEq, Eq, Structural)]
pub enum Language {
    English,
}

/// Weather configuration.
#[derive(Clone, Debug)]
pub struct WeatherSettings {
    pub weather_source: WeatherSource,
    pub temp_units: TemperatureUnits,
    /// Seconds between provider queries.
    pub polling_rate: u32,
    pub api_key: String,
    /// Latitude in millionths of a degree.
    pub lat_micro_deg: i64,
    /// Longitude in millionths of a degree.
    pub lon_micro_deg: i64,
}

/// News configuration.  Each source should occur once.
#[derive(Clone, Debug)]
pub struct NewsSettings {
    pub news_sources: Vec<NewsSource>,
    /// Seconds between feed queries.
    pub polling_rate: u32,
}

/// Voice configuration: where the speech engine's model and scorer live.
#[derive(Clone, Debug)]
pub struct VoiceSettings {
    pub model_path: String,
    pub scorer_path: String,
}

/// All user-controlled settings.
#[derive(Clone, Debug)]
pub struct Settings {
    pub weather_settings: WeatherSettings,
    pub news_settings: NewsSettings,
    pub voice_settings: VoiceSettings,
    pub language: Language,
}

impl Default for Settings {
    /// The settings a fresh installation starts from: OpenWeather in
    /// Celsius at the origin with no key, the two built-in feeds, hourly
    /// polling, no model paths, English.
    fn default() -> (s: Self)
        ensures
            s.weather_settings.weather_source == WeatherSource::OpenWeather,
            s.weather_settings.temp_units == TemperatureUnits::Celsius,
            s.weather_settings.polling_rate == 3600,
            s.weather_settings.api_key@ == Seq::<char>::empty(),
            s.weather_settings.lat_micro_deg == 0,
            s.weather_settings.lon_micro_deg == 0,
            s.news_settings.news_sources@.len() == 2,
            s.news_settings.news_sources@[0] matches NewsSource::Rss(RssNewsSource::NPR),
            s.news_settings.news_sources@[1] matches NewsSource::Rss(RssNewsSource::BBC),
            s.news_settings.polling_rate == 3600,
            s.voice_settings.model_path@ == Seq::<char>::empty(),
            s.voice_settings.scorer_path@ == Seq::<char>::empty(),
            s.language == Language::English,
    {
        let mut news_sources: Vec<NewsSource> = Vec::new();
        news_sources.push(NewsSource::Rss(RssNewsSource::NPR));
        news_sources.push(NewsSource::Rss(RssNewsSource::BBC));
        Settings {
            weather_settings: WeatherSettings {
                weather_source: WeatherSource::OpenWeather,
                temp_units: TemperatureUnits::Celsius,
                polling_rate: 3600,
                api_key: String::new(),
                lat_micro_deg: 0,
                lon_micro_deg: 0,
            },
            news_settings: NewsSettings { news_sources, polling_rate: 3600 },
            voice_settings: VoiceSettings {
                model_path: String::new(),
                scorer_path: String::new(),
            },
            language: Language::English,
        }
    }
}

} // verus!
