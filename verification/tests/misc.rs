use ad_engine::ads::Targeting;
use ad_engine::config::{LevelFilter, LoggerConfig, RedisConfig};
use ad_engine::error::{RepoError, ServiceError};
use ad_engine::gpt::YandexGptService;
use ad_engine::location::{AddressField, AddressFields, LocationService};
use ad_engine::metrics::{Metric, PrometheusService};
use ad_engine::services::RedisService;
use ad_engine::text::decimal_string;

fn address(city: AddressField, town: AddressField, country: AddressField) -> AddressFields {
    AddressFields {
        city,
        town,
        village: AddressField::Missing,
        municipality: AddressField::Missing,
        country_code: country,
    }
}

#[test]
fn location_reads_city_and_country() {
    let service = LocationService::new();
    assert_eq!(service.base_url, "https://nominatim.openstreetmap.org/reverse");
    let a = address(
        AddressField::Missing,
        AddressField::Text("Tver".into()),
        AddressField::Text("ru".into()),
    );
    assert_eq!(service.city_and_country_code(&Some(a)), ("Tver".to_string(), "ru".to_string()));
    let b = address(AddressField::Other, AddressField::Text("Tver".into()), AddressField::Missing);
    assert_eq!(
        service.city_and_country_code(&Some(b)),
        ("Неизвестно".to_string(), "Неизвестно".to_string())
    );
    assert_eq!(
        service.city_and_country_code(&None),
        ("Неизвестно".to_string(), "Неизвестно".to_string())
    );
}

fn gpt() -> YandexGptService {
    YandexGptService::with_prompts("title prompt".into(), "Пиши для {target}; {target}".into())
}

#[test]
fn generation_plans_by_type() {
    let service = gpt();
    let text = "current text".to_string();
    let title = "current title".to_string();
    let all = service
        .plan_generation("ALL", None, Some("new title".into()), &text, &title)
        .unwrap_or_else(|_| panic!("expected a plan"));
    assert_eq!(all.body_from, Some("current text".to_string()));
    assert_eq!(all.title_from, Some("new title".to_string()));
    let only_title = service
        .plan_generation("TITLE", Some("x".into()), None, &text, &title)
        .unwrap_or_else(|_| panic!("expected a plan"));
    assert_eq!(only_title.body_from, None);
    assert_eq!(only_title.title_from, Some("current title".to_string()));
    let only_text = service
        .plan_generation("TEXT", Some("x".into()), None, &text, &title)
        .unwrap_or_else(|_| panic!("expected a plan"));
    assert_eq!(only_text.body_from, Some("x".to_string()));
    assert_eq!(only_text.title_from, None);
    match service.plan_generation("all", None, None, &text, &title) {
        Err(ServiceError::Validation(m)) => assert_eq!(m, "Invalid generate type"),
        _ => panic!("expected a validation error"),
    }
}

#[test]
fn body_prompt_describes_the_audience() {
    let service = gpt();
    let t = Targeting { gender: None, age_from: Some(18), age_to: None, location: Some("Москва".into()) };
    let description = "Возраст от 18 до 160, в локации Москва, для гендера любого";
    assert_eq!(service.target_description(&t), description);
    assert_eq!(service.body_system_prompt(&t), format!("Пиши для {}; {}", description, description));
    let none = Targeting { gender: Some("MALE".into()), age_from: None, age_to: Some(7), location: None };
    assert_eq!(
        service.target_description(&none),
        "Возраст от 0 до 7, в локации любой, для гендера MALE"
    );
}

#[test]
fn metric_updates_carry_labels() {
    let u = PrometheusService::increment_campaign_created(1234);
    assert_eq!(u.metric, Metric::CampaignsCreated);
    assert_eq!(u.labels, vec!["1234".to_string()]);
    assert_eq!(u.amount, 1);
    assert_eq!(PrometheusService::increment_campaign_deleted(0).labels, vec!["0".to_string()]);
    assert_eq!(PrometheusService::increment_campaign_updated(7).metric, Metric::CampaignsUpdated);
    assert_eq!(PrometheusService::increment_ads_visits(u32::MAX).labels, vec!["4294967295".to_string()]);
    assert_eq!(PrometheusService::increment_ads_clicks(10).metric, Metric::AdsClicks);
    let c = PrometheusService::add_total_clients(-3);
    assert_eq!((c.metric, c.amount, c.labels.len()), (Metric::TotalClients, -3, 0));
    let a = PrometheusService::add_total_advertisers(5);
    assert_eq!((a.metric, a.amount), (Metric::TotalAdvertisers, 5));
    let h = PrometheusService::increment_http_requests_total("GET", "/ads");
    assert_eq!(h.labels, vec!["GET".to_string(), "/ads".to_string()]);
}

#[test]
fn redis_url_and_log_names() {
    let config = RedisConfig { host: "localhost".into(), port: 6379, db: 0 };
    assert_eq!(config.url(), "redis://localhost:6379/0");
    let logger = LoggerConfig {
        max_level_cmd: LevelFilter::Info,
        max_level_file: LevelFilter::Debug,
        max_level_error_file: LevelFilter::Error,
        log_dir: "logs".into(),
    };
    assert_eq!(logger.log_file_name("all", 2025, 3, 7, 9, 5, 0), "all-2025-03-07-09-05-00.log");
}

#[test]
fn error_messages() {
    assert_eq!(ServiceError::Validation("bad".into()).message(), "Validation error - bad");
    assert_eq!(
        ServiceError::Repository(RepoError::ObjDoesNotExists("obj".into())).message(),
        "Database error - `obj` does not exists"
    );
    assert_eq!(
        ServiceError::Repository(RepoError::UniqueConstraint("k".into())).message(),
        "Database error - invalid unique constraint `k`"
    );
    assert_eq!(ServiceError::Repository(RepoError::Unknown).message(), "Database error - unknown error");
    assert_eq!(ServiceError::Cash("c".into()).message(), "Cash error - c");
    assert_eq!(ServiceError::GptNotResponse("g".into()).message(), "Gpt not response - g");
    assert_eq!(ServiceError::Censorship("w".into()).message(), "Not acceptable word - w");
    assert_eq!(ServiceError::PayloadError("p".into()).message(), "Payload error - p");
    assert_eq!(ServiceError::Unknown.message(), "Unknown error");
    match ServiceError::field_validation("age", "too old") {
        ServiceError::Validation(m) => assert_eq!(m, "error in age: too old"),
        _ => panic!("expected a validation error"),
    }
}

#[test]
fn text_helpers() {
    assert_eq!(decimal_string(0), "0");
    assert_eq!(decimal_string(1000500), "1000500");
    let redis = RedisService::new(&());
    assert_eq!(redis.advance_time_key(), "advance_time");
    assert_eq!(redis.initial_advance_time(), 0);
}

#[test]
fn words_split_at_unicode_white_space() {
    let text = "a\u{3000}b\u{A0}c\u{2028}d\u{85}e\tf  g";
    let split = ad_engine::text::split_words(&ad_engine::text::chars_of(text));
    let expected: Vec<Vec<char>> = text.split_whitespace().map(|w| w.chars().collect()).collect();
    assert_eq!(split, expected);
    assert_eq!(split.len(), 7);
}
