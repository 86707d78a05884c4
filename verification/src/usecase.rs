//! Use cases: each business operation with the services and pools it works
//! through, and the decisions it takes between its storage and cache steps.

use vstd::prelude::*;
use vstd::string::StringExecFns;

use crate::ads::AdsService;
use crate::campaigns::{self, CampaignService, UploadImageService};
use crate::error::ServiceError;
use crate::gpt::YandexGptService;
use crate::moderation::ModerateTextService;
use crate::people::{self, AdvertiserService, ClientService, UserService};
use crate::services::{CampaignImageService, MlScoreService, ModerateListService, RedisService};
use crate::stats::{AggregateStatService, CampaignStatService};

verus! {

/// The dates, ages and limits of a campaign being created or changed.
#[derive(Clone, Copy)]
pub struct CampaignDraft {
    pub start_date: u32,
    pub end_date: u32,
    pub age_from: Option<u8>,
    pub age_to: Option<u8>,
    pub impressions_limit: u32,
    pub clicks_limit: u32,
}

/// The first rule a draft breaks at the time `time_advance`, if any.
pub open spec fn draft_problem(d: CampaignDraft, time_advance: u32) -> Option<Seq<char>> {
    campaigns::campaign_data_problem(
        d.start_date,
        d.end_date,
        d.age_from,
        d.age_to,
        d.impressions_limit,
        d.clicks_limit,
        time_advance,
    )
}

/// Shows an advertisement to a client and records the view.
pub struct AdsGetUsecase<'p, D, R, W, S> {
    pub ads_service: AdsService<W>,
    pub campaign_stat_service: CampaignStatService,
    pub redis_service: RedisService<'p, R>,
    pub db_pool: &'p D,
    pub redis_pool: &'p R,
    pub moderate_text_service: ModerateTextService<S>,
}

impl<'p, D, R, W, S> AdsGetUsecase<'p, D, R, W, S> {
    /// The use case over the database and cache pools, with the scoring and
    /// moderation services.
    pub fn new(db_pool: &'p D, redis_pool: &'p R, ads_service: AdsService<W>, moderate_text_service: ModerateTextService<S>) -> (u: Self)
        ensures
            u.db_pool == db_pool,
            u.redis_pool == redis_pool,
            u.redis_service.pool == redis_pool,
            u.ads_service == ads_service,
            u.moderate_text_service == moderate_text_service,
    {
        AdsGetUsecase {
            ads_service,
            campaign_stat_service: CampaignStatService,
            redis_service: RedisService::new(redis_pool),
            db_pool,
            redis_pool,
            moderate_text_service,
        }
    }

    /// Records that `client_id` has seen a campaign whose viewers are
    /// `view_clients_id`: a client is added once; the result tells whether
    /// the view is new.
    pub fn register_view(&self, view_clients_id: &mut Vec<u128>, client_id: u128) -> (is_new: bool)
        ensures
            is_new == !old(view_clients_id)@.contains(client_id),
            is_new ==> final(view_clients_id)@ == old(view_clients_id)@.push(client_id),
            !is_new ==> final(view_clients_id)@ == old(view_clients_id)@,
    {
        let mut k: usize = 0;
        while k < view_clients_id.len()
            invariant
                k <= view_clients_id.len(),
                forall|t: int| 0 <= t < k ==> view_clients_id@[t] != client_id,
            decreases view_clients_id.len() - k,
        {
            if view_clients_id[k] == client_id {
                return false;
            }
            k = k + 1;
        }
        view_clients_id.push(client_id);
        true
    }
}

/// Registers advertisers in bulk.
pub struct AdvertiserBulkRegisterUsecase<'p, D> {
    pub advertiser_service: AdvertiserService,
    pub db_pool: &'p D,
}

impl<'p, D> AdvertiserBulkRegisterUsecase<'p, D> {
    /// The use case over the database pool.
    pub fn new(db_pool: &'p D) -> (u: Self)
        ensures
            u.db_pool == db_pool,
    {
        AdvertiserBulkRegisterUsecase { advertiser_service: AdvertiserService, db_pool }
    }
}

/// Reads an advertiser's profile.
pub struct AdvertiserProfileUsecase<'p, D> {
    pub advertiser_service: AdvertiserService,
    pub db_pool: &'p D,
}

impl<'p, D> AdvertiserProfileUsecase<'p, D> {
    /// The use case over the database pool.
    pub fn new(db_pool: &'p D) -> (u: Self)
        ensures
            u.db_pool == db_pool,
    {
        AdvertiserProfileUsecase { advertiser_service: AdvertiserService, db_pool }
    }
}

/// Reads an image of a campaign.
pub struct CampaignsGetImageUsecase<'p, D> {
    pub campaign_image_service: CampaignImageService,
    pub campaign_service: CampaignService,
    pub db_pool: &'p D,
}

impl<'p, D> CampaignsGetImageUsecase<'p, D> {
    /// The use case over the database pool.
    pub fn new(db_pool: &'p D) -> (u: Self)
        ensures
            u.db_pool == db_pool,
    {
        CampaignsGetImageUsecase { campaign_image_service: CampaignImageService, campaign_service: CampaignService, db_pool }
    }
}

/// Generates the texts of a campaign with the language model.
pub struct CampaignsGeneratorTextUsecase<'p, D, R, S> {
    pub yandex_gpt_service: YandexGptService,
    pub campaign_service: CampaignService,
    pub moderate_text_service: ModerateTextService<S>,
    pub redis_service: RedisService<'p, R>,
    pub redis_pool: &'p R,
    pub db_pool: &'p D,
}

impl<'p, D, R, S> CampaignsGeneratorTextUsecase<'p, D, R, S> {
    /// The use case over the database and cache pools, with the model and
    /// moderation services.
    pub fn new(db_pool: &'p D, redis_pool: &'p R, yandex_gpt_service: YandexGptService, moderate_text_service: ModerateTextService<S>) -> (u: Self)
        ensures
            u.db_pool == db_pool,
            u.redis_pool == redis_pool,
            u.redis_service.pool == redis_pool,
            u.yandex_gpt_service == yandex_gpt_service,
            u.moderate_text_service == moderate_text_service,
    {
        CampaignsGeneratorTextUsecase {
            yandex_gpt_service,
            campaign_service: CampaignService,
            moderate_text_service,
            redis_service: RedisService::new(redis_pool),
            redis_pool,
            db_pool,
        }
    }
}

/// Uploads images of a campaign.
pub struct CampaignsUploadImageUsecase<'p, D> {
    pub upload_image_service: UploadImageService,
    pub campaign_service: CampaignService,
    pub db_pool: &'p D,
    pub media_max_image_on_campaign: usize,
}

impl<'p, D> CampaignsUploadImageUsecase<'p, D> {
    /// The use case over the database pool, with the number of images a
    /// campaign may hold.
    pub fn new(db_pool: &'p D, media_max_image_on_campaign: usize) -> (u: Self)
        ensures
            u.db_pool == db_pool,
            u.media_max_image_on_campaign == media_max_image_on_campaign,
    {
        CampaignsUploadImageUsecase {
            upload_image_service: UploadImageService,
            campaign_service: CampaignService,
            db_pool,
            media_max_image_on_campaign,
        }
    }

    /// Refuses an upload of more files than a campaign may hold.
    pub fn check_files(&self, files: usize) -> (r: Result<(), ServiceError>)
        ensures
            files > self.media_max_image_on_campaign ==> campaigns::is_validation(
                r,
                campaigns::too_many_files_message(self.media_max_image_on_campaign),
            ),
            files <= self.media_max_image_on_campaign ==> r is Ok,
    {
        self.upload_image_service.check_file_count(files, self.media_max_image_on_campaign)
    }
}

/// Creates a campaign.
pub struct CampaignsCreateUsecase<'p, D, R, S> {
    pub campaign_service: CampaignService,
    pub moderate_text_service: ModerateTextService<S>,
    pub redis_service: RedisService<'p, R>,
    pub db_pool: &'p D,
    pub redis_pool: &'p R,
}

impl<'p, D, R, S> CampaignsCreateUsecase<'p, D, R, S> {
    /// The use case over the database and cache pools, with the moderation
    /// service.
    pub fn new(db_pool: &'p D, redis_pool: &'p R, moderate_text_service: ModerateTextService<S>) -> (u: Self)
        ensures
            u.db_pool == db_pool,
            u.redis_pool == redis_pool,
            u.redis_service.pool == redis_pool,
            u.moderate_text_service == moderate_text_service,
    {
        CampaignsCreateUsecase {
            campaign_service: CampaignService,
            moderate_text_service,
            redis_service: RedisService::new(redis_pool),
            db_pool,
            redis_pool,
        }
    }

    /// Checks a new campaign's data at the time `time_advance`.
    pub fn validate(&self, draft: &CampaignDraft, time_advance: u32) -> (r: Result<(), ServiceError>)
        ensures
            r is Ok <==> draft_problem(*draft, time_advance) is None,
            r is Err ==> campaigns::is_validation(r, draft_problem(*draft, time_advance).unwrap()),
    {
        campaigns::validate_campaign_data(
            draft.start_date,
            draft.end_date,
            draft.age_from,
            draft.age_to,
            draft.impressions_limit,
            draft.clicks_limit,
            time_advance,
        )
    }
}

/// Deletes a campaign.
pub struct CampaignsDeleteUsecase<'p, D, R> {
    pub campaign_service: CampaignService,
    pub redis_service: RedisService<'p, R>,
    pub db_pool: &'p D,
}

impl<'p, D, R> CampaignsDeleteUsecase<'p, D, R> {
    /// The use case over the database and cache pools.
    pub fn new(db_pool: &'p D, redis_pool: &'p R) -> (u: Self)
        ensures
            u.db_pool == db_pool,
            u.redis_service.pool == redis_pool,
    {
        CampaignsDeleteUsecase { campaign_service: CampaignService, redis_service: RedisService::new(redis_pool), db_pool }
    }
}

/// Reads a campaign.
pub struct CampaignsGetByIdUsecase<'p, D> {
    pub campaign_service: CampaignService,
    pub db_pool: &'p D,
}

impl<'p, D> CampaignsGetByIdUsecase<'p, D> {
    /// The use case over the database pool.
    pub fn new(db_pool: &'p D) -> (u: Self)
        ensures
            u.db_pool == db_pool,
    {
        CampaignsGetByIdUsecase { campaign_service: CampaignService, db_pool }
    }
}

/// Reads a page of an advertiser's campaigns.
pub struct CampaignsGetListUsecase<'p, D> {
    pub campaign_service: CampaignService,
    pub db_pool: &'p D,
}

impl<'p, D> CampaignsGetListUsecase<'p, D> {
    /// The use case over the database pool.
    pub fn new(db_pool: &'p D) -> (u: Self)
        ensures
            u.db_pool == db_pool,
    {
        CampaignsGetListUsecase { campaign_service: CampaignService, db_pool }
    }
}

/// Changes a campaign.
pub struct CampaignsUpdateUsecase<'p, D, R, S> {
    pub campaign_service: CampaignService,
    pub campaign_stat_service: CampaignStatService,
    pub moderate_text_service: ModerateTextService<S>,
    pub redis_service: RedisService<'p, R>,
    pub db_pool: &'p D,
    pub redis_pool: &'p R,
}

impl<'p, D, R, S> CampaignsUpdateUsecase<'p, D, R, S> {
    /// The use case over the database and cache pools, with the moderation
    /// service.
    pub fn new(db_pool: &'p D, redis_pool: &'p R, moderate_text_service: ModerateTextService<S>) -> (u: Self)
        ensures
            u.db_pool == db_pool,
            u.redis_pool == redis_pool,
            u.redis_service.pool == redis_pool,
            u.moderate_text_service == moderate_text_service,
    {
        CampaignsUpdateUsecase {
            campaign_service: CampaignService,
            campaign_stat_service: CampaignStatService,
            moderate_text_service,
            redis_service: RedisService::new(redis_pool),
            db_pool,
            redis_pool,
        }
    }

    /// Checks changed campaign data at the time `time_advance`: the data must
    /// be valid, and the campaign must not have started by then.
    pub fn validate_update(&self, draft: &CampaignDraft, time_advance: u32) -> (r: Result<(), ServiceError>)
        ensures
            draft_problem(*draft, time_advance) is Some ==> campaigns::is_validation(
                r,
                draft_problem(*draft, time_advance).unwrap(),
            ),
            draft_problem(*draft, time_advance) is None && time_advance >= draft.start_date
                ==> campaigns::is_validation(r, "campaign already start"@),
            draft_problem(*draft, time_advance) is None && time_advance < draft.start_date ==> r is Ok,
    {
        campaigns::validate_campaign_data(
            draft.start_date,
            draft.end_date,
            draft.age_from,
            draft.age_to,
            draft.impressions_limit,
            draft.clicks_limit,
            time_advance,
        )?;
        if time_advance >= draft.start_date {
            return Err(ServiceError::Validation(String::from_str("campaign already start")));
        }
        Ok(())
    }
}

/// Registers clients in bulk.
pub struct ClientBulkRegisterUsecase<'p, D> {
    pub client_service: ClientService<'p, D>,
    pub db_pool: &'p D,
}

impl<'p, D> ClientBulkRegisterUsecase<'p, D> {
    /// The use case over the database pool.
    pub fn new(db_pool: &'p D) -> (u: Self)
        ensures
            u.db_pool == db_pool,
            u.client_service.db_pool == db_pool,
    {
        ClientBulkRegisterUsecase { client_service: ClientService::new(db_pool), db_pool }
    }
}

/// Reads a client's profile.
pub struct ClientProfileUsecase<'p, D> {
    pub client_service: ClientService<'p, D>,
}

impl<'p, D> ClientProfileUsecase<'p, D> {
    /// The use case over the database pool.
    pub fn new(db_pool: &'p D) -> (u: Self)
        ensures
            u.client_service.db_pool == db_pool,
    {
        ClientProfileUsecase { client_service: ClientService::new(db_pool) }
    }

    /// The client identifier given as text.
    pub fn client_id(&self, client_id: &str) -> (r: Result<u128, ServiceError>)
        ensures
            people::parsed_uuid(client_id@) matches Some(id) ==> r == Ok::<u128, ServiceError>(id),
            people::parsed_uuid(client_id@) is None ==> (r matches Err(ServiceError::Validation(m))
                && m@ == "uuid not valid"@),
    {
        people::parse_client_id(client_id)
    }
}

/// Stores a relevance score.
pub struct MlScoreUsecase<'p, D> {
    pub ml_score_service: MlScoreService,
    pub db_pool: &'p D,
}

impl<'p, D> MlScoreUsecase<'p, D> {
    /// The use case over the database pool.
    pub fn new(db_pool: &'p D) -> (u: Self)
        ensures
            u.db_pool == db_pool,
    {
        MlScoreUsecase { ml_score_service: MlScoreService, db_pool }
    }
}

/// Reads the list of abusive words.
pub struct ModerateGetListUsecase<'p, R, D> {
    pub moderate_list_service: ModerateListService,
    pub redis_pool: &'p R,
    pub db_pool: &'p D,
}

impl<'p, R, D> ModerateGetListUsecase<'p, R, D> {
    /// The use case over the cache and database pools.
    pub fn new(redis_pool: &'p R, db_pool: &'p D) -> (u: Self)
        ensures
            u.redis_pool == redis_pool,
            u.db_pool == db_pool,
    {
        ModerateGetListUsecase { moderate_list_service: ModerateListService, redis_pool, db_pool }
    }
}

/// Reads the statistics of a campaign or of an advertiser.
pub struct StatCampaignUsecase<'p, D> {
    pub campaign_stat_service: CampaignStatService,
    pub campaign_service: CampaignService,
    pub aggregate_stat_service: AggregateStatService,
    pub db_pool: &'p D,
}

impl<'p, D> StatCampaignUsecase<'p, D> {
    /// The use case over the database pool.
    pub fn new(db_pool: &'p D) -> (u: Self)
        ensures
            u.db_pool == db_pool,
    {
        StatCampaignUsecase {
            campaign_stat_service: CampaignStatService,
            campaign_service: CampaignService,
            aggregate_stat_service: AggregateStatService,
            db_pool,
        }
    }
}

/// Sets the current time.
pub struct TimeAdvanceUsecase<'p, R> {
    pub redis_service: RedisService<'p, R>,
}

impl<'p, R> TimeAdvanceUsecase<'p, R> {
    /// The use case over the cache pool.
    pub fn new(redis_pool: &'p R) -> (u: Self)
        ensures
            u.redis_service.pool == redis_pool,
    {
        TimeAdvanceUsecase { redis_service: RedisService::new(redis_pool) }
    }
}

/// Tells whether a user exists.
pub struct UserAreExistUsecase {
    pub user_service: UserService,
}

impl UserAreExistUsecase {
    /// The use case.
    pub fn new() -> (u: Self)
        ensures
            u.user_service == UserService,
    {
        UserAreExistUsecase { user_service: UserService }
    }
}

/// Registers a user.
pub struct UserRegisterUsecase {
    pub user_service: UserService,
}

impl UserRegisterUsecase {
    /// The use case.
    pub fn new() -> (u: Self)
        ensures
            u.user_service == UserService,
    {
        UserRegisterUsecase { user_service: UserService }
    }
}

} // verus!
