use ad_engine::error::ServiceError;
use ad_engine::people::{parse_client_id, AdvertiserProfile, AdvertiserService, ClientProfile, ClientService, UserService};
use ad_engine::services::AdvertiserReturningSchema;
use ad_engine::usecase::ClientProfileUsecase;

fn profile(id: u128, name: &str) -> AdvertiserProfile {
    AdvertiserProfile { advertiser_id: id, name: name.to_string() }
}

#[test]
fn test_register_bulk_advertisers() {
    let service = AdvertiserService;
    let input_data = vec![profile(1, "Advertiser 1"), profile(2, "Advertiser 2"), profile(1, "Advertiser 1 Duplicate")];

    let cols = service.unique_advertisers(&input_data);

    assert_eq!(cols.advertiser_ids.len(), 2);
    assert_eq!(cols.names.len(), 2);
    assert!(cols.advertiser_ids.contains(&1));
    assert!(cols.advertiser_ids.contains(&2));
    assert!(cols.names.contains(&"Advertiser 1 Duplicate".to_string()));
    assert!(cols.names.contains(&"Advertiser 2".to_string()));
    let at = cols.advertiser_ids.iter().position(|id| *id == 1).unwrap();
    assert_eq!(cols.names[at], "Advertiser 1 Duplicate");
}

#[test]
fn unique_advertisers_keep_first_appearance_order() {
    let service = AdvertiserService;
    let cols = service.unique_advertisers(&vec![profile(7, "a"), profile(3, "b"), profile(7, "c"), profile(3, "d")]);
    assert_eq!(cols.advertiser_ids, vec![7, 3]);
    assert_eq!(cols.names, vec!["c".to_string(), "d".to_string()]);
    assert!(service.unique_advertisers(&vec![]).advertiser_ids.is_empty());
}

#[test]
fn returned_advertiser_becomes_profile() {
    let p = AdvertiserReturningSchema { advertiser_id: 5, name: "Test Advertiser".to_string() }.into_profile();
    assert_eq!(p.advertiser_id, 5);
    assert_eq!(p.name, "Test Advertiser");
}

#[test]
fn client_profiles_become_columns() {
    let service = ClientService::new(&());
    let data = vec![
        ClientProfile { client_id: 1, login: "a".into(), location: "NY".into(), gender: "MALE".into(), age: 25 },
        ClientProfile { client_id: 2, login: "b".into(), location: "LA".into(), gender: "FEMALE".into(), age: 40 },
    ];
    let cols = service.client_columns(&data);
    assert_eq!(cols.client_ids, vec![1, 2]);
    assert_eq!(cols.logins, vec!["a".to_string(), "b".to_string()]);
    assert_eq!(cols.locations, vec!["NY".to_string(), "LA".to_string()]);
    assert_eq!(cols.genders, vec!["MALE".to_string(), "FEMALE".to_string()]);
    assert_eq!(cols.ages, vec![25, 40]);
}

#[test]
fn registration_needs_date_city_and_country() {
    let service = UserService;
    let ok = service
        .prepare_registration(42, "2001-02-03", Some("Moscow".into()), Some("RU".into()))
        .unwrap_or_else(|_| panic!("expected a registration"));
    assert_eq!(ok.telegram_id, 42);
    assert_eq!(ok.birth_day, (2001, 2, 3));
    assert_eq!(ok.city, "Moscow");
    assert_eq!(ok.country_code, "RU");

    assert!(matches!(
        service.prepare_registration(42, "2001-02-30", Some("Moscow".into()), Some("RU".into())),
        Err(ServiceError::Unknown)
    ));
    assert!(matches!(
        service.prepare_registration(42, "03.02.2001", Some("Moscow".into()), Some("RU".into())),
        Err(ServiceError::Unknown)
    ));
    assert!(matches!(
        service.prepare_registration(42, "2001-02-03", None, Some("RU".into())),
        Err(ServiceError::Unknown)
    ));
    assert!(matches!(
        service.prepare_registration(42, "2001-02-03", Some("Moscow".into()), None),
        Err(ServiceError::Unknown)
    ));
}

#[test]
fn telegram_identifiers_are_cut_to_i32() {
    let service = UserService;
    assert_eq!(service.telegram_key(7), 7);
    assert_eq!(service.telegram_key(0x1_0000_0005), 5);
}

#[test]
fn client_identifiers_are_read_from_text() {
    let id = parse_client_id("67e55044-10b1-426f-9247-bb680e5fe0c8").unwrap_or_else(|_| panic!("expected an id"));
    assert_eq!(id, 0x67e5504410b1426f9247bb680e5fe0c8);
    match parse_client_id("not-a-uuid") {
        Err(ServiceError::Validation(m)) => assert_eq!(m, "uuid not valid"),
        _ => panic!("expected a validation error"),
    }
    let usecase = ClientProfileUsecase::new(&());
    assert!(usecase.client_id("67e55044-10b1-426f-9247-bb680e5fe0c8").is_ok());
}
