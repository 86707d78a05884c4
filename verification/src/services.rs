//! Services whose work is storage and cache access: they hold the pools
//! they work through, and the keys and records they use.

use vstd::prelude::*;
use vstd::string::StringExecFns;

use crate::people::AdvertiserProfile;

verus! {

/// The service that reads and deletes campaign images.
pub struct CampaignImageService;

/// The service that stores the relevance scores of advertisers for clients.
pub struct MlScoreService;

/// The service that maintains the list of abusive words.
pub struct ModerateListService;

/// The cache key under which the current time is kept.
pub open spec fn advance_time_key() -> Seq<char> {
    "advance_time"@
}

/// The service that keeps the current time and the active campaigns in the
/// cache, with the pool it reaches the cache through.
pub struct RedisService<'p, P> {
    pub pool: &'p P,
}

impl<'p, P> RedisService<'p, P> {
    /// A service that reaches the cache through `pool`.
    pub fn new(pool: &'p P) -> (s: Self)
        ensures
            s.pool == pool,
    {
        RedisService { pool }
    }

    /// The cache key of the current time.
    pub fn advance_time_key(&self) -> (k: String)
        ensures
            k@ == advance_time_key(),
    {
        String::from_str("advance_time")
    }

    /// The time to store when none is stored yet.
    pub fn initial_advance_time(&self) -> (t: u32)
        ensures
            t == 0,
    {
        0
    }
}

/// Reads, writes and deletes cache entries through a pool.
pub struct RedisExecutor<'p, P> {
    pub pool: &'p P,
}

impl<'p, P> RedisExecutor<'p, P> {
    /// An executor that works through `pool`.
    pub fn new(pool: &'p P) -> (s: Self)
        ensures
            s.pool == pool,
    {
        RedisExecutor { pool }
    }
}

/// An advertiser as the database returns it.
pub struct AdvertiserReturningSchema {
    pub advertiser_id: u128,
    pub name: String,
}

impl AdvertiserReturningSchema {
    /// The advertiser's profile.
    pub fn into_profile(self) -> (p: AdvertiserProfile)
        ensures
            p.advertiser_id == self.advertiser_id,
            p.name@ == self.name@,
    {
        AdvertiserProfile { advertiser_id: self.advertiser_id, name: self.name }
    }
}

} // verus!
