use ad_engine::ads::{AdsService, CampaignAudience, Targeting};
use ad_engine::campaigns::{validate_campaign_data, CampaignLimits, CampaignService, UploadImageService};
use ad_engine::error::{RepoError, ServiceError};
use ad_engine::usecase::{AdsGetUsecase, CampaignDraft, CampaignsCreateUsecase, CampaignsUpdateUsecase, CampaignsUploadImageUsecase};
use ad_engine::moderation::ModerateTextService;

fn validation_message(r: Result<(), ServiceError>) -> String {
    match r {
        Err(ServiceError::Validation(m)) => m,
        _ => panic!("expected a validation error"),
    }
}

#[test]
fn campaign_data_checks_in_order() {
    assert!(validate_campaign_data(10, 20, Some(18), Some(30), 100, 10, 5).is_ok());
    assert_eq!(
        validation_message(validate_campaign_data(4, 2, None, None, 1, 2, 5)),
        "start_date must be more or equal to time_advance"
    );
    assert_eq!(
        validation_message(validate_campaign_data(10, 2, Some(40), Some(30), 1, 2, 5)),
        "start_date must be under or equal to end_date"
    );
    assert_eq!(
        validation_message(validate_campaign_data(10, 20, Some(40), Some(30), 1, 2, 5)),
        "age_from must be under or equal to age_to"
    );
    assert_eq!(
        validation_message(validate_campaign_data(10, 20, Some(40), None, 1, 2, 5)),
        "clicks_limit must be under or equal to impressions_limit"
    );
    assert!(validate_campaign_data(5, 5, Some(30), Some(30), 2, 2, 5).is_ok());
}

#[test]
fn frozen_fields_of_started_campaign() {
    let service = CampaignService;
    let old = CampaignLimits { impressions_limit: 10, clicks_limit: 5, start_date: 3, end_date: 9 };
    let changed = CampaignLimits { impressions_limit: 11, ..old };
    assert_eq!(
        validation_message(service.check_update_allowed(old, changed, 3)),
        "Fields impressions_limit, clicks_limit, end_date, start_date don't update before start compaign"
    );
    assert!(service.check_update_allowed(old, changed, 2).is_ok());
    assert!(service.check_update_allowed(old, old, 100).is_ok());
}

#[test]
fn activity_window_includes_both_ends() {
    let service = CampaignService;
    assert!(service.is_active_at(3, 9, 3));
    assert!(service.is_active_at(3, 9, 9));
    assert!(!service.is_active_at(3, 9, 10));
    assert!(!service.is_active_at(3, 9, 2));
}

#[test]
fn page_window_of_campaign_lists() {
    let service = CampaignService;
    assert_eq!(service.page_window(0, 3), None);
    assert_eq!(service.page_window(10, 0), None);
    assert_eq!(service.page_window(10, 1), Some((10, 0)));
    assert_eq!(service.page_window(10, 3), Some((10, 20)));
}

#[test]
fn too_many_files_are_refused() {
    let service = UploadImageService;
    assert!(service.check_file_count(5, 5).is_ok());
    assert_eq!(
        validation_message(service.check_file_count(6, 5)),
        "too many files, no more than 5 on campaign"
    );
    let usecase = CampaignsUploadImageUsecase::new(&(), 12);
    assert_eq!(
        validation_message(usecase.check_files(13)),
        "too many files, no more than 12 on campaign"
    );
}

#[test]
fn image_capacity_counts_stored_images() {
    let service = UploadImageService;
    assert!(service.check_image_capacity(3, 2, 5).is_ok());
    match service.check_image_capacity(4, 2, 5) {
        Err(RepoError::UniqueConstraint(m)) => assert_eq!(m, "maximum 5 images per campaign"),
        _ => panic!("expected a unique constraint error"),
    }
}

fn targeting(gender: Option<&str>, age_from: Option<u8>, age_to: Option<u8>, location: Option<&str>) -> Targeting {
    Targeting {
        gender: gender.map(|s| s.to_string()),
        age_from,
        age_to,
        location: location.map(|s| s.to_string()),
    }
}

fn audience(t: Targeting, impressions_limit: u32, views: usize) -> CampaignAudience {
    CampaignAudience { targeting: t, impressions_limit, viewers: (0..views as u128).map(|k| 1000 + k).collect() }
}

#[test]
fn targeting_filters_by_location_gender_and_age() {
    let ads = AdsService::new(0.4f64, 0.3f64, 0.2f64, 0.1f64);
    let campaigns = vec![
        audience(targeting(Some("Male"), Some(18), Some(35), Some("NY")), 100, 0),
        audience(targeting(Some("ALL"), None, None, None), 100, 0),
        audience(targeting(Some("Female"), None, None, None), 100, 0),
        audience(targeting(None, Some(30), None, Some("LA")), 100, 0),
        audience(targeting(None, None, Some(24), None), 100, 0),
    ];
    let male = "Male".to_string();
    let ny = "NY".to_string();
    assert_eq!(ads.filter_targeted_campaigns(&campaigns, 25, &male, &ny), vec![0, 1]);
    let female = "Female".to_string();
    let la = "LA".to_string();
    assert_eq!(ads.filter_targeted_campaigns(&campaigns, 40, &female, &la), vec![1, 2, 3]);
}

#[test]
fn suitable_campaigns_respect_view_allowance() {
    let ads = AdsService::new(1.0f64, 0.0f64, 0.0f64, 0.0f64);
    let campaigns = vec![
        audience(targeting(None, None, None, None), 100, 105),
        audience(targeting(None, None, None, None), 100, 106),
        audience(targeting(None, None, None, None), 19, 19),
        audience(targeting(None, None, None, None), 19, 20),
    ];
    let g = "Male".to_string();
    let l = "NY".to_string();
    match ads.get_suitable_campaigns(&campaigns, 1, 25, &g, &l) {
        Ok(v) => assert_eq!(v, vec![0, 2]),
        Err(_) => panic!("expected suitable campaigns"),
    }
}

#[test]
fn no_suitable_campaigns_error() {
    let ads = AdsService::new(0.4f64, 0.3f64, 0.2f64, 0.1f64);
    let campaigns = vec![audience(targeting(Some("Male"), Some(18), Some(35), Some("NY")), 100, 0)];
    let female = "Female".to_string();
    let la = "LA".to_string();
    assert!(matches!(
        ads.get_suitable_campaigns(&campaigns, 1, 40, &female, &la),
        Err(ServiceError::Repository(RepoError::ObjDoesNotExists(ref m))) if m == "Suitable campaigns"
    ));
}

#[test]
fn client_age_is_cut_to_a_byte() {
    let ads = AdsService::new((), (), (), ());
    assert_eq!(ads.client_age(25), 25);
    assert_eq!(ads.client_age(300), 44);
    assert_eq!(ads.client_age(-1), 255);
}

#[test]
fn views_are_registered_once() {
    let usecase = AdsGetUsecase::new(&(), &(), AdsService::new((), (), (), ()), ModerateTextService::new(()));
    let mut views = vec![1u128, 2];
    assert!(usecase.register_view(&mut views, 3));
    assert_eq!(views, vec![1, 2, 3]);
    assert!(!usecase.register_view(&mut views, 3));
    assert_eq!(views, vec![1, 2, 3]);
}

fn draft(start_date: u32, end_date: u32) -> CampaignDraft {
    CampaignDraft { start_date, end_date, age_from: None, age_to: None, impressions_limit: 10, clicks_limit: 1 }
}

#[test]
fn create_and_update_checks() {
    let create = CampaignsCreateUsecase::new(&(), &(), ModerateTextService::new(()));
    assert!(create.validate(&draft(5, 9), 5).is_ok());
    assert_eq!(
        validation_message(create.validate(&draft(4, 9), 5)),
        "start_date must be more or equal to time_advance"
    );
    let update = CampaignsUpdateUsecase::new(&(), &(), ModerateTextService::new(()));
    assert_eq!(validation_message(update.validate_update(&draft(5, 9), 5)), "campaign already start");
    assert!(update.validate_update(&draft(6, 9), 5).is_ok());
    assert_eq!(
        validation_message(update.validate_update(&draft(6, 2), 5)),
        "start_date must be under or equal to end_date"
    );
}

#[test]
fn stored_limits_are_cut_to_u32() {
    let limits = CampaignLimits::from_stored(10, 5, 3, 9);
    assert_eq!((limits.impressions_limit, limits.clicks_limit, limits.start_date, limits.end_date), (10, 5, 3, 9));
    let wrapped = CampaignLimits::from_stored(-1, (1i64 << 32) + 7, 1i64 << 33, -2);
    assert_eq!(wrapped.impressions_limit, u32::MAX);
    assert_eq!(wrapped.clicks_limit, 7);
    assert_eq!(wrapped.start_date, 0);
    assert_eq!(wrapped.end_date, u32::MAX - 1);
}

#[test]
fn recommendation_ads_success() {
    let ads = AdsService::new(0.4f64, 0.3f64, 0.2f64, 0.1f64);
    let campaigns = vec![audience(targeting(Some("Male"), Some(18), Some(35), Some("NY")), 100, 0)];
    let male = "Male".to_string();
    let ny = "NY".to_string();
    match ads.get_suitable_campaigns(&campaigns, 1, ads.client_age(25), &male, &ny) {
        Ok(v) => assert_eq!(v, vec![0]),
        Err(_) => panic!("expected the campaign to be suitable"),
    }
}

#[test]
fn campaigns_already_seen_are_not_offered() {
    let ads = AdsService::new(0.4f64, 0.3f64, 0.2f64, 0.1f64);
    let any = targeting(None, None, None, None);
    let seen = CampaignAudience { targeting: targeting(None, None, None, None), impressions_limit: 100, viewers: vec![7, 1, 9] };
    let campaigns = vec![seen, audience(any, 100, 3)];
    let g = "Male".to_string();
    let l = "NY".to_string();
    match ads.get_suitable_campaigns(&campaigns, 1, 25, &g, &l) {
        Ok(v) => assert_eq!(v, vec![1]),
        Err(_) => panic!("expected the unseen campaign"),
    }
    let only_seen = vec![CampaignAudience { targeting: targeting(None, None, None, None), impressions_limit: 100, viewers: vec![1] }];
    assert!(matches!(
        ads.get_suitable_campaigns(&only_seen, 1, 25, &g, &l),
        Err(ServiceError::Repository(RepoError::ObjDoesNotExists(ref m))) if m == "Suitable campaigns"
    ));
}
