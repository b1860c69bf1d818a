use homevoice::news::{NewsService, NewsSource, RssNewsSource};
use homevoice::service::Service;
use homevoice::settings::{Language, NewsSettings, Settings};
use homevoice::weather::{
    units_query, TemperatureUnits, WeatherService, WeatherSource,
};

#[test]
fn default_settings_match_a_fresh_installation() {
    let settings = Settings::default();
    assert!(matches!(
        settings.weather_settings.weather_source,
        WeatherSource::OpenWeather
    ));
    assert!(matches!(
        settings.weather_settings.temp_units,
        TemperatureUnits::Celsius
    ));
    assert_eq!(settings.weather_settings.polling_rate, 3600);
    assert_eq!(settings.weather_settings.api_key, "");
    assert_eq!(settings.weather_settings.lat_micro_deg, 0);
    assert_eq!(settings.weather_settings.lon_micro_deg, 0);
    assert_eq!(settings.news_settings.news_sources.len(), 2);
    assert!(matches!(
        settings.news_settings.news_sources[0],
        NewsSource::Rss(RssNewsSource::NPR)
    ));
    assert!(matches!(
        settings.news_settings.news_sources[1],
        NewsSource::Rss(RssNewsSource::BBC)
    ));
    assert_eq!(settings.news_settings.polling_rate, 3600);
    assert_eq!(settings.voice_settings.model_path, "");
    assert_eq!(settings.voice_settings.scorer_path, "");
    assert!(matches!(settings.language, Language::English));
}

#[test]
fn news_service_takes_its_configuration() {
    let settings = NewsSettings {
        news_sources: vec![NewsSource::Rss(RssNewsSource::BBC)],
        polling_rate: 120,
    };
    let service = NewsService::new(settings);
    assert_eq!(service.polling_rate, 120);
    assert_eq!(service.news_sources.len(), 1);
    assert_eq!(NewsService::get_name(), "News");
    assert_eq!(service.get_service_name(), "News");
    assert_eq!(service.get_polling_rate(), 120);
}

#[test]
fn weather_service_takes_its_configuration() {
    let settings = Settings::default().weather_settings;
    let service = WeatherService::new(&settings);
    assert_eq!(service.polling_rate, 3600);
    assert_eq!(WeatherService::get_name(), "Weather");
    assert_eq!(service.get_service_name(), "Weather");
    assert_eq!(service.get_polling_rate(), 3600);
}

#[test]
fn services_poll_through_the_capability_interface() {
    let news = NewsService::new(Settings::default().news_settings);
    let weather = WeatherService::new(&Settings::default().weather_settings);
    let services: Vec<Box<dyn Service>> = vec![Box::new(news), Box::new(weather)];
    let names: Vec<String> = services.iter().map(|s| s.get_service_name()).collect();
    assert_eq!(names, vec!["News".to_string(), "Weather".to_string()]);
}

#[test]
fn unit_systems_map_to_provider_query_values() {
    assert_eq!(units_query(&TemperatureUnits::Kelvin), "standard");
    assert_eq!(units_query(&TemperatureUnits::Celsius), "metric");
    assert_eq!(units_query(&TemperatureUnits::Fahrenheit), "imperial");
}
