//! Choice of the campaigns that may be shown to a client: audience
//! targeting and impression limits.

use vstd::prelude::*;
use vstd::string::StringExecFns;

use crate::error::{RepoError, ServiceError};

verus! {

/// The audience a campaign is aimed at; an absent criterion admits everyone.
pub struct Targeting {
    pub gender: Option<String>,
    pub age_from: Option<u8>,
    pub age_to: Option<u8>,
    pub location: Option<String>,
}

/// What the choice of campaigns reads of an active campaign: its targeting,
/// its impression limit and the clients who have already seen it.
pub struct CampaignAudience {
    pub targeting: Targeting,
    pub impressions_limit: u32,
    pub viewers: Vec<u128>,
}

/// Whether a campaign's targeting admits a client.
pub open spec fn targets(t: Targeting, age: u8, gender: Seq<char>, location: Seq<char>) -> bool {
    &&& match t.location {
        Some(l) => l@ == location,
        None => true,
    }
    &&& match t.gender {
        Some(g) => g@ == gender || g@ == "ALL"@,
        None => true,
    }
    &&& match t.age_from {
        Some(a) => a <= age,
        None => true,
    }
    &&& match t.age_to {
        Some(a) => a >= age,
        None => true,
    }
}

/// The number of views up to which a campaign is still shown: its
/// impression limit raised by five percent, rounded down.
pub open spec fn view_allowance(impressions_limit: u32) -> int {
    (impressions_limit * 105) / 100
}

/// Whether a campaign may be shown to a client: it targets the client, its
/// views have not passed the allowance, and the client has not seen it yet.
pub open spec fn suitable(c: CampaignAudience, client_id: u128, age: u8, gender: Seq<char>, location: Seq<char>) -> bool {
    &&& targets(c.targeting, age, gender, location)
    &&& c.viewers.len() <= view_allowance(c.impressions_limit)
    &&& !c.viewers@.contains(client_id)
}

/// The positions, in increasing order, of the campaigns of `cs` that satisfy
/// `keep`.
pub open spec fn positions_where(cs: Seq<CampaignAudience>, keep: spec_fn(CampaignAudience) -> bool) -> Seq<usize>
    decreases cs.len(),
{
    if cs.len() == 0 {
        seq![]
    } else if keep(cs.last()) {
        positions_where(cs.drop_last(), keep).push((cs.len() - 1) as usize)
    } else {
        positions_where(cs.drop_last(), keep)
    }
}

/// Whether an optional text equals `s`.
fn option_equals(o: &Option<String>, s: &String) -> (b: bool)
    ensures
        b == (o matches Some(v) && v@ == s@),
{
    match o {
        Some(v) => *v == *s,
        None => false,
    }
}

/// Whether `id` is among `ids`.
fn contains_id(ids: &Vec<u128>, id: u128) -> (b: bool)
    ensures
        b == ids@.contains(id),
{
    let mut k: usize = 0;
    while k < ids.len()
        invariant
            k <= ids.len(),
            forall|t: int| 0 <= t < k ==> ids@[t] != id,
        decreases ids.len() - k,
    {
        if ids[k] == id {
            assert(ids@[k as int] == id);
            return true;
        }
        k = k + 1;
    }
    false
}

/// The service that picks the advertisement shown to a client; the weights
/// of its scoring factors are held as given.
pub struct AdsService<W> {
    pub weight_profit: W,
    pub weight_relevance: W,
    pub weight_fulfillment: W,
    pub weight_time_left: W,
}

impl<W> AdsService<W> {
    /// A service with the given weights for profit, relevance, fulfilment and
    /// remaining time.
    pub fn new(weight_profit: W, weight_relevance: W, weight_fulfillment: W, weight_time_left: W) -> (s: Self)
        ensures
            s.weight_profit == weight_profit,
            s.weight_relevance == weight_relevance,
            s.weight_fulfillment == weight_fulfillment,
            s.weight_time_left == weight_time_left,
    {
        AdsService { weight_profit, weight_relevance, weight_fulfillment, weight_time_left }
    }

    /// Whether a campaign's targeting admits the client.
    pub fn is_targeted(&self, targeting: &Targeting, age: u8, gender: &String, location: &String) -> (b: bool)
        ensures
            b == targets(*targeting, age, gender@, location@),
    {
        let all = String::from_str("ALL");
        (option_equals(&targeting.location, location) || targeting.location.is_none())
            && (option_equals(&targeting.gender, gender) || option_equals(&targeting.gender, &all)
            || targeting.gender.is_none()) && (match targeting.age_from {
            Some(a) => a <= age,
            None => true,
        }) && (match targeting.age_to {
            Some(a) => a >= age,
            None => true,
        })
    }

    /// The positions of the campaigns whose targeting admits the client.
    pub fn filter_targeted_campaigns(&self, active_campaigns: &Vec<CampaignAudience>, age: u8, gender: &String, location: &String) -> (r: Vec<usize>)
        ensures
            r@ == positions_where(
                active_campaigns@,
                |c: CampaignAudience| targets(c.targeting, age, gender@, location@),
            ),
    {
        let mut r: Vec<usize> = Vec::new();
        let mut i: usize = 0;
        while i < active_campaigns.len()
            invariant
                i <= active_campaigns.len(),
                r@ == positions_where(
                    active_campaigns@.take(i as int),
                    |c: CampaignAudience| targets(c.targeting, age, gender@, location@),
                ),
            decreases active_campaigns.len() - i,
        {
            assert(active_campaigns@.take(i + 1).drop_last() =~= active_campaigns@.take(i as int));
            assert(active_campaigns@.take(i + 1).last() == active_campaigns@[i as int]);
            if self.is_targeted(&active_campaigns[i].targeting, age, gender, location) {
                r.push(i);
            }
            i = i + 1;
        }
        assert(active_campaigns@.take(active_campaigns.len() as int) =~= active_campaigns@);
        r
    }

    /// The positions of the campaigns that may be shown to the client: those
    /// whose targeting admits the client, whose views have not passed their
    /// impression limit by more than five percent, and which the client has
    /// not seen yet. None such is an error.
    pub fn get_suitable_campaigns(&self, active_campaigns: &Vec<CampaignAudience>, client_id: u128, age: u8, gender: &String, location: &String) -> (r: Result<Vec<usize>, ServiceError>)
        ensures
            r matches Ok(v) ==> v@ == positions_where(
                active_campaigns@,
                |c: CampaignAudience| suitable(c, client_id, age, gender@, location@),
            ) && v.len() > 0,
            r is Err <==> positions_where(
                active_campaigns@,
                |c: CampaignAudience| suitable(c, client_id, age, gender@, location@),
            ).len() == 0,
            r matches Err(e) ==> (e matches ServiceError::Repository(RepoError::ObjDoesNotExists(s))
                && s@ == "Suitable campaigns"@),
    {
        let mut r: Vec<usize> = Vec::new();
        let mut i: usize = 0;
        while i < active_campaigns.len()
            invariant
                i <= active_campaigns.len(),
                r@ == positions_where(
                    active_campaigns@.take(i as int),
                    |c: CampaignAudience| suitable(c, client_id, age, gender@, location@),
                ),
            decreases active_campaigns.len() - i,
        {
            assert(active_campaigns@.take(i + 1).drop_last() =~= active_campaigns@.take(i as int));
            assert(active_campaigns@.take(i + 1).last() == active_campaigns@[i as int]);
            let c = &active_campaigns[i];
            let allowance: u64 = (c.impressions_limit as u64 * 105) / 100;
            if self.is_targeted(&c.targeting, age, gender, location) && (c.viewers.len() as u64) <= allowance
                && !contains_id(&c.viewers, client_id) {
                r.push(i);
            }
            i = i + 1;
        }
        assert(active_campaigns@.take(active_campaigns.len() as int) =~= active_campaigns@);
        if r.len() == 0 {
            return Err(
                ServiceError::Repository(RepoError::ObjDoesNotExists(String::from_str("Suitable campaigns"))),
            );
        }
        Ok(r)
    }

    /// A client's age as the targeting compares it: the stored age cut to
    /// eight bits, as `as u8` does.
    pub fn client_age(&self, age: i32) -> (r: u8)
        ensures
            r == age as u8,
    {
        age as u8
    }
}

} // verus!

verus! {

/// Every campaign that may be shown is one whose targeting admits the
/// client.
pub proof fn law_suitable_campaigns_are_targeted(cs: Seq<CampaignAudience>, client_id: u128, age: u8, gender: Seq<char>, location: Seq<char>, p: usize)
    requires
        positions_where(cs, |c: CampaignAudience| suitable(c, client_id, age, gender, location)).contains(p),
    ensures
        positions_where(cs, |c: CampaignAudience| targets(c.targeting, age, gender, location)).contains(p),
    decreases cs.len(),
{
    let s = |c: CampaignAudience| suitable(c, client_id, age, gender, location);
    let t = |c: CampaignAudience| targets(c.targeting, age, gender, location);
    if cs.len() > 0 {
        let last = (cs.len() - 1) as usize;
        if p == last && s(cs.last()) {
            assert(positions_where(cs, t) == positions_where(cs.drop_last(), t).push(last));
            assert(positions_where(cs, t).last() == p);
        } else {
            if s(cs.last()) {
                assert(positions_where(cs, s) == positions_where(cs.drop_last(), s).push(last));
                let i = choose|i: int| 0 <= i < positions_where(cs, s).len() && positions_where(cs, s)[i] == p;
                assert(positions_where(cs.drop_last(), s)[i] == p);
            }
            law_suitable_campaigns_are_targeted(cs.drop_last(), client_id, age, gender, location, p);
            let i = choose|i: int| 0 <= i < positions_where(cs.drop_last(), t).len() && positions_where(cs.drop_last(), t)[i] == p;
            if t(cs.last()) {
                assert(positions_where(cs, t)[i] == p);
            } else {
                assert(positions_where(cs, t)[i] == p);
            }
        }
    }
}

} // verus!

verus! {

/// Every position that `positions_where` keeps is that of a campaign
/// satisfying the filter.
proof fn lemma_kept_positions_satisfy(cs: Seq<CampaignAudience>, keep: spec_fn(CampaignAudience) -> bool, p: usize)
    requires
        cs.len() <= usize::MAX,
        positions_where(cs, keep).contains(p),
    ensures
        p < cs.len(),
        keep(cs[p as int]),
    decreases cs.len(),
{
    let last = (cs.len() - 1) as usize;
    if keep(cs.last()) && p == last {
    } else {
        if keep(cs.last()) {
            let i = choose|i: int| 0 <= i < positions_where(cs, keep).len() && positions_where(cs, keep)[i] == p;
            assert(positions_where(cs.drop_last(), keep)[i] == p);
        }
        lemma_kept_positions_satisfy(cs.drop_last(), keep, p);
        assert(cs.drop_last()[p as int] == cs[p as int]);
    }
}

/// A campaign that the client has already seen is never offered again.
pub proof fn law_seen_campaigns_are_not_offered(cs: Seq<CampaignAudience>, client_id: u128, age: u8, gender: Seq<char>, location: Seq<char>, p: usize)
    requires
        cs.len() <= usize::MAX,
        positions_where(cs, |c: CampaignAudience| suitable(c, client_id, age, gender, location)).contains(p),
    ensures
        p < cs.len(),
        !cs[p as int].viewers@.contains(client_id),
{
    lemma_kept_positions_satisfy(cs, |c: CampaignAudience| suitable(c, client_id, age, gender, location), p);
}

} // verus!

verus! {

/// A position satisfying the filter is kept by `positions_where`.
proof fn lemma_satisfying_positions_are_kept(cs: Seq<CampaignAudience>, keep: spec_fn(CampaignAudience) -> bool, p: usize)
    requires
        cs.len() <= usize::MAX,
        p < cs.len(),
        keep(cs[p as int]),
    ensures
        positions_where(cs, keep).contains(p),
    decreases cs.len(),
{
    let last = (cs.len() - 1) as usize;
    if p == last {
        assert(cs.last() == cs[p as int]);
        assert(positions_where(cs, keep).last() == p);
    } else {
        assert(cs.drop_last()[p as int] == cs[p as int]);
        lemma_satisfying_positions_are_kept(cs.drop_last(), keep, p);
        let i = choose|i: int|
            0 <= i < positions_where(cs.drop_last(), keep).len() && positions_where(cs.drop_last(), keep)[i] == p;
        assert(positions_where(cs, keep)[i] == p);
    }
}

/// A campaign offered to a client admits the client on every criterion:
/// the location and gender it names, the ages it bounds, the views it still
/// allows, and the client has not seen it.
pub proof fn law_offered_campaign_admits_client(cs: Seq<CampaignAudience>, client_id: u128, age: u8, gender: Seq<char>, location: Seq<char>, p: usize)
    requires
        cs.len() <= usize::MAX,
        positions_where(cs, |c: CampaignAudience| suitable(c, client_id, age, gender, location)).contains(p),
    ensures
        p < cs.len(),
        cs[p as int].targeting.location matches Some(l) ==> l@ == location,
        cs[p as int].targeting.gender matches Some(g) ==> g@ == gender || g@ == "ALL"@,
        cs[p as int].targeting.age_from matches Some(a) ==> a <= age,
        cs[p as int].targeting.age_to matches Some(a) ==> age <= a,
        cs[p as int].viewers.len() * 100 <= cs[p as int].impressions_limit * 105,
        !cs[p as int].viewers@.contains(client_id),
{
    lemma_kept_positions_satisfy(cs, |c: CampaignAudience| suitable(c, client_id, age, gender, location), p);
    let c = cs[p as int];
    assert(c.viewers.len() * 100 <= c.impressions_limit * 105) by (nonlinear_arith)
        requires
            c.viewers.len() <= (c.impressions_limit * 105) / 100,
    ;
}

/// A campaign that admits a client on every criterion is offered to the
/// client.
pub proof fn law_admitting_campaign_is_offered(cs: Seq<CampaignAudience>, client_id: u128, age: u8, gender: Seq<char>, location: Seq<char>, p: usize)
    requires
        cs.len() <= usize::MAX,
        p < cs.len(),
        cs[p as int].targeting.location matches Some(l) ==> l@ == location,
        cs[p as int].targeting.gender matches Some(g) ==> g@ == gender || g@ == "ALL"@,
        cs[p as int].targeting.age_from matches Some(a) ==> a <= age,
        cs[p as int].targeting.age_to matches Some(a) ==> age <= a,
        cs[p as int].viewers.len() * 100 <= cs[p as int].impressions_limit * 105,
        !cs[p as int].viewers@.contains(client_id),
    ensures
        positions_where(cs, |c: CampaignAudience| suitable(c, client_id, age, gender, location)).contains(p),
{
    let c = cs[p as int];
    assert(c.viewers.len() <= (c.impressions_limit * 105) / 100) by (nonlinear_arith)
        requires
            c.viewers.len() * 100 <= c.impressions_limit * 105,
    ;
    lemma_satisfying_positions_are_kept(cs, |c: CampaignAudience| suitable(c, client_id, age, gender, location), p);
}

/// A campaign that names a location is never offered to a client elsewhere.
pub proof fn law_location_restricts_offers(cs: Seq<CampaignAudience>, client_id: u128, age: u8, gender: Seq<char>, location: Seq<char>, p: usize)
    requires
        cs.len() <= usize::MAX,
        p < cs.len(),
        cs[p as int].targeting.location matches Some(l) && l@ != location,
    ensures
        !positions_where(cs, |c: CampaignAudience| suitable(c, client_id, age, gender, location)).contains(p),
        !positions_where(cs, |c: CampaignAudience| targets(c.targeting, age, gender, location)).contains(p),
{
    if positions_where(cs, |c: CampaignAudience| suitable(c, client_id, age, gender, location)).contains(p) {
        law_offered_campaign_admits_client(cs, client_id, age, gender, location, p);
    }
    if positions_where(cs, |c: CampaignAudience| targets(c.targeting, age, gender, location)).contains(p) {
        lemma_kept_positions_satisfy(cs, |c: CampaignAudience| targets(c.targeting, age, gender, location), p);
    }
}

} // verus!
