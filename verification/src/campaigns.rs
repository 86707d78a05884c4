//! Rules on campaigns: the checks on new and changed campaign data, the
//! fields that freeze once a campaign has started, the activity window, the
//! image limits and the paging of campaign lists.

use vstd::prelude::*;
use vstd::string::StringExecFns;

use crate::error::{RepoError, ServiceError};
use crate::text;
use crate::text::decimal_string;

verus! {

/// Whether `r` is the validation error with message `m`.
pub open spec fn is_validation(r: Result<(), ServiceError>, m: Seq<char>) -> bool {
    r matches Err(ServiceError::Validation(s)) && s@ == m
}

/// A validation error with a fixed message.
fn validation(m: &str) -> (e: ServiceError)
    ensures
        e matches ServiceError::Validation(s) && s@ == m@,
{
    ServiceError::Validation(String::from_str(m))
}

/// The start date lies at or after the current time.
pub fn validate_start_date(start_date: u32, time_advance: u32) -> (r: Result<(), ServiceError>)
    ensures
        start_date < time_advance ==> is_validation(r, "start_date must be more or equal to time_advance"@),
        start_date >= time_advance ==> r is Ok,
{
    if start_date < time_advance {
        return Err(validation("start_date must be more or equal to time_advance"));
    }
    Ok(())
}

/// The start date does not come after the end date.
pub fn validate_date_range(start_date: u32, end_date: u32) -> (r: Result<(), ServiceError>)
    ensures
        start_date > end_date ==> is_validation(r, "start_date must be under or equal to end_date"@),
        start_date <= end_date ==> r is Ok,
{
    if start_date > end_date {
        return Err(validation("start_date must be under or equal to end_date"));
    }
    Ok(())
}

/// Whether both age bounds are given and the lower one exceeds the upper.
pub open spec fn ages_inverted(age_from: Option<u8>, age_to: Option<u8>) -> bool {
    match (age_from, age_to) {
        (Some(from), Some(to)) => from > to,
        _ => false,
    }
}

/// When both age bounds are given, the lower one does not exceed the upper.
pub fn validate_age_range(age_from: Option<u8>, age_to: Option<u8>) -> (r: Result<(), ServiceError>)
    ensures
        ages_inverted(age_from, age_to) ==> is_validation(r, "age_from must be under or equal to age_to"@),
        !ages_inverted(age_from, age_to) ==> r is Ok,
{
    match (age_from, age_to) {
        (Some(from), Some(to)) => {
            if from > to {
                return Err(validation("age_from must be under or equal to age_to"));
            }
            Ok(())
        },
        _ => Ok(()),
    }
}

/// A campaign allows no more clicks than impressions.
pub fn validate_limits_range(impressions_limit: u32, clicks_limit: u32) -> (r: Result<(), ServiceError>)
    ensures
        clicks_limit > impressions_limit ==> is_validation(
            r,
            "clicks_limit must be under or equal to impressions_limit"@,
        ),
        clicks_limit <= impressions_limit ==> r is Ok,
{
    if clicks_limit > impressions_limit {
        return Err(validation("clicks_limit must be under or equal to impressions_limit"));
    }
    Ok(())
}

/// The first rule that campaign data breaks, by its message, in the order
/// in which the rules are checked.
pub open spec fn campaign_data_problem(
    start_date: u32,
    end_date: u32,
    age_from: Option<u8>,
    age_to: Option<u8>,
    impressions_limit: u32,
    clicks_limit: u32,
    time_advance: u32,
) -> Option<Seq<char>> {
    if start_date < time_advance {
        Some("start_date must be more or equal to time_advance"@)
    } else if start_date > end_date {
        Some("start_date must be under or equal to end_date"@)
    } else if ages_inverted(age_from, age_to) {
        Some("age_from must be under or equal to age_to"@)
    } else if clicks_limit > impressions_limit {
        Some("clicks_limit must be under or equal to impressions_limit"@)
    } else {
        None
    }
}

/// Checks the dates, age range and limits of a new or changed campaign.
pub fn validate_campaign_data(
    start_date: u32,
    end_date: u32,
    age_from: Option<u8>,
    age_to: Option<u8>,
    impressions_limit: u32,
    clicks_limit: u32,
    time_advance: u32,
) -> (r: Result<(), ServiceError>)
    ensures
        r is Ok <==> campaign_data_problem(
            start_date,
            end_date,
            age_from,
            age_to,
            impressions_limit,
            clicks_limit,
            time_advance,
        ) is None,
        r is Err ==> is_validation(
            r,
            campaign_data_problem(
                start_date,
                end_date,
                age_from,
                age_to,
                impressions_limit,
                clicks_limit,
                time_advance,
            ).unwrap(),
        ),
{
    validate_start_date(start_date, time_advance)?;
    validate_date_range(start_date, end_date)?;
    validate_age_range(age_from, age_to)?;
    validate_limits_range(impressions_limit, clicks_limit)
}

/// The fields of a campaign that may not change once it has started.
#[derive(Clone, Copy)]
pub struct CampaignLimits {
    pub impressions_limit: u32,
    pub clicks_limit: u32,
    pub start_date: u32,
    pub end_date: u32,
}

/// Whether a change would touch a frozen field of a started campaign.
pub open spec fn touches_frozen_fields(old: CampaignLimits, new: CampaignLimits, time_advance: u32) -> bool {
    time_advance >= old.start_date && (old.impressions_limit != new.impressions_limit
        || old.clicks_limit != new.clicks_limit || old.end_date != new.end_date || old.start_date
        != new.start_date)
}

/// Whether a campaign running from `start_date` to `end_date` is active at
/// `time`.
pub open spec fn active_at(start_date: u32, end_date: u32, time: u32) -> bool {
    start_date <= time && time <= end_date
}

/// The service that holds the rules on campaigns.
pub struct CampaignService;

impl CampaignService {
    /// Refuses a change that touches the limits or dates of a campaign that
    /// has already started.
    pub fn check_update_allowed(&self, old: CampaignLimits, new: CampaignLimits, time_advance: u32) -> (r: Result<(), ServiceError>)
        ensures
            touches_frozen_fields(old, new, time_advance) ==> is_validation(
                r,
                "Fields impressions_limit, clicks_limit, end_date, start_date don't update before start compaign"@,
            ),
            !touches_frozen_fields(old, new, time_advance) ==> r is Ok,
    {
        if time_advance >= old.start_date && (old.impressions_limit != new.impressions_limit
            || old.clicks_limit != new.clicks_limit || old.end_date != new.end_date
            || old.start_date != new.start_date) {
            return Err(
                validation(
                    "Fields impressions_limit, clicks_limit, end_date, start_date don't update before start compaign",
                ),
            );
        }
        Ok(())
    }

    /// Whether a campaign is active at `time`, start and end included.
    pub fn is_active_at(&self, start_date: u32, end_date: u32, time: u32) -> (b: bool)
        ensures
            b == active_at(start_date, end_date, time),
    {
        time <= end_date && time >= start_date
    }

    /// The limit and offset of a page of a campaign list, or none when the
    /// page size or number is zero and the page is empty.
    pub fn page_window(&self, size: u32, page: u32) -> (r: Option<(i32, i32)>)
        requires
            size > 0 && page > 0 ==> (page - 1) * size <= u32::MAX,
        ensures
            (size == 0 || page == 0) ==> r is None,
            (size > 0 && page > 0) ==> r == Some((size as i32, ((page - 1) * size) as u32 as i32)),
    {
        if size == 0 || page == 0 {
            None
        } else {
            let offset: u32 = (page - 1) * size;
            Some((size as i32, offset as i32))
        }
    }
}

/// The message that refuses too many files at once.
pub open spec fn too_many_files_message(max: usize) -> Seq<char> {
    "too many files, no more than "@ + text::decimal(max as nat) + " on campaign"@
}

/// The service that holds the rules on campaign images.
pub struct UploadImageService;

impl UploadImageService {
    /// Refuses an upload of more files than a campaign may hold.
    pub fn check_file_count(&self, files: usize, media_max_image_on_campaign: usize) -> (r: Result<(), ServiceError>)
        ensures
            files > media_max_image_on_campaign ==> is_validation(
                r,
                too_many_files_message(media_max_image_on_campaign),
            ),
            files <= media_max_image_on_campaign ==> r is Ok,
    {
        if files > media_max_image_on_campaign {
            let max = decimal_string(media_max_image_on_campaign as u64);
            let mut m = String::from_str("too many files, no more than ");
            m.append(max.as_str());
            m.append(" on campaign");
            return Err(ServiceError::Validation(m));
        }
        Ok(())
    }

    /// Refuses to store files beyond the images a campaign may hold, counting
    /// those it already has.
    pub fn check_image_capacity(&self, current_count: i64, files: usize, media_max_image_on_campaign: usize) -> (r: Result<(), RepoError>)
        requires
            current_count as usize + files <= usize::MAX,
        ensures
            current_count as usize + files > media_max_image_on_campaign ==> (r matches Err(
                RepoError::UniqueConstraint(s),
            ) && s@ == "maximum 5 images per campaign"@),
            current_count as usize + files <= media_max_image_on_campaign ==> r is Ok,
    {
        if current_count as usize + files > media_max_image_on_campaign {
            return Err(RepoError::UniqueConstraint(String::from_str("maximum 5 images per campaign")));
        }
        Ok(())
    }
}

} // verus!

verus! {

impl CampaignLimits {
    /// The limits and dates of a stored campaign, converted to unsigned as
    /// `as u32` does.
    pub fn from_stored(impressions_limit: i64, clicks_limit: i64, start_date: i64, end_date: i64) -> (r: CampaignLimits)
        ensures
            r.impressions_limit == impressions_limit as u32,
            r.clicks_limit == clicks_limit as u32,
            r.start_date == start_date as u32,
            r.end_date == end_date as u32,
    {
        CampaignLimits {
            impressions_limit: impressions_limit as u32,
            clicks_limit: clicks_limit as u32,
            start_date: start_date as u32,
            end_date: end_date as u32,
        }
    }
}

} // verus!

verus! {

/// Once a campaign has started, no change to its limits or dates is
/// allowed, whichever of them it touches; before its start any change is.
pub proof fn law_started_campaign_keeps_limits_and_dates(old: CampaignLimits, new: CampaignLimits, time_advance: u32)
    ensures
        touches_frozen_fields(old, new, time_advance) <==> (time_advance >= old.start_date && old != new),
        time_advance >= old.start_date && old.impressions_limit != new.impressions_limit ==> touches_frozen_fields(
            old,
            new,
            time_advance,
        ),
        time_advance >= old.start_date && old.clicks_limit != new.clicks_limit ==> touches_frozen_fields(
            old,
            new,
            time_advance,
        ),
        time_advance >= old.start_date && old.start_date != new.start_date ==> touches_frozen_fields(
            old,
            new,
            time_advance,
        ),
        time_advance >= old.start_date && old.end_date != new.end_date ==> touches_frozen_fields(
            old,
            new,
            time_advance,
        ),
{
}

} // verus!

verus! {

/// Campaign data is accepted exactly when it starts no earlier than now,
/// ends no earlier than it starts, bounds ages in order when it bounds both,
/// and allows no more clicks than impressions; a start in the past is
/// reported first, whatever else is wrong.
pub proof fn law_campaign_data_accepted_exactly_when_consistent(
    start_date: u32,
    end_date: u32,
    age_from: Option<u8>,
    age_to: Option<u8>,
    impressions_limit: u32,
    clicks_limit: u32,
    time_advance: u32,
)
    ensures
        campaign_data_problem(start_date, end_date, age_from, age_to, impressions_limit, clicks_limit, time_advance)
            is None <==> (time_advance <= start_date && start_date <= end_date && (match (age_from, age_to) {
            (Some(f), Some(t)) => f <= t,
            _ => true,
        }) && clicks_limit <= impressions_limit),
        start_date < time_advance ==> campaign_data_problem(
            start_date,
            end_date,
            age_from,
            age_to,
            impressions_limit,
            clicks_limit,
            time_advance,
        ) == Some("start_date must be more or equal to time_advance"@),
{
}

/// A campaign is active from its start date to its end date, both
/// included, and at no other time.
pub proof fn law_active_between_start_and_end(start_date: u32, end_date: u32, time: u32)
    ensures
        active_at(start_date, end_date, time) <==> (start_date <= time && time <= end_date),
{
}

} // verus!
