//! Application metrics: the updates that the service's events make to the
//! counters and gauges.

use vstd::prelude::*;
use vstd::string::StringExecFns;

use crate::text;
use crate::text::decimal_string;

verus! {

/// The metrics of the application.
#[derive(PartialEq, Eq, Structural, Clone, Copy, Debug)]
pub enum Metric {
    CampaignsCreated,
    CampaignsDeleted,
    CampaignsUpdated,
    AdsVisits,
    AdsClicks,
    TotalClients,
    TotalAdvertisers,
    HttpRequestsTotal,
}

/// An update of one metric: the label values that select the series, and
/// the amount added to it.
pub struct MetricUpdate {
    pub metric: Metric,
    pub labels: Vec<String>,
    pub amount: i64,
}

/// Whether `u` adds one to the series of `metric` labelled by the decimal
/// time `time_advance`.
pub open spec fn counts_at_time(u: MetricUpdate, metric: Metric, time_advance: u32) -> bool {
    &&& u.metric == metric
    &&& u.amount == 1
    &&& u.labels.len() == 1
    &&& u.labels@[0]@ == text::decimal(time_advance as nat)
}

fn at_time(metric: Metric, time_advance: u32) -> (u: MetricUpdate)
    ensures
        counts_at_time(u, metric, time_advance),
{
    let mut labels: Vec<String> = Vec::new();
    labels.push(decimal_string(time_advance as u64));
    MetricUpdate { metric, labels, amount: 1 }
}

/// The service that turns the application's events into metric updates.
pub struct PrometheusService;

impl PrometheusService {
    /// A campaign was created at the time `time_advance`.
    pub fn increment_campaign_created(time_advance: u32) -> (u: MetricUpdate)
        ensures
            counts_at_time(u, Metric::CampaignsCreated, time_advance),
    {
        at_time(Metric::CampaignsCreated, time_advance)
    }

    /// A campaign was deleted at the time `time_advance`.
    pub fn increment_campaign_deleted(time_advance: u32) -> (u: MetricUpdate)
        ensures
            counts_at_time(u, Metric::CampaignsDeleted, time_advance),
    {
        at_time(Metric::CampaignsDeleted, time_advance)
    }

    /// A campaign was updated at the time `time_advance`.
    pub fn increment_campaign_updated(time_advance: u32) -> (u: MetricUpdate)
        ensures
            counts_at_time(u, Metric::CampaignsUpdated, time_advance),
    {
        at_time(Metric::CampaignsUpdated, time_advance)
    }

    /// An advertisement was shown at the time `time_advance`.
    pub fn increment_ads_visits(time_advance: u32) -> (u: MetricUpdate)
        ensures
            counts_at_time(u, Metric::AdsVisits, time_advance),
    {
        at_time(Metric::AdsVisits, time_advance)
    }

    /// An advertisement was clicked at the time `time_advance`.
    pub fn increment_ads_clicks(time_advance: u32) -> (u: MetricUpdate)
        ensures
            counts_at_time(u, Metric::AdsClicks, time_advance),
    {
        at_time(Metric::AdsClicks, time_advance)
    }

    /// `value` clients were registered.
    pub fn add_total_clients(value: i64) -> (u: MetricUpdate)
        ensures
            u.metric == Metric::TotalClients,
            u.labels.len() == 0,
            u.amount == value,
    {
        MetricUpdate { metric: Metric::TotalClients, labels: Vec::new(), amount: value }
    }

    /// `value` advertisers were registered.
    pub fn add_total_advertisers(value: i64) -> (u: MetricUpdate)
        ensures
            u.metric == Metric::TotalAdvertisers,
            u.labels.len() == 0,
            u.amount == value,
    {
        MetricUpdate { metric: Metric::TotalAdvertisers, labels: Vec::new(), amount: value }
    }

    /// An HTTP request with the given method and path was served.
    pub fn increment_http_requests_total(request_method: &str, request_path: &str) -> (u: MetricUpdate)
        ensures
            u.metric == Metric::HttpRequestsTotal,
            u.amount == 1,
            u.labels.len() == 2,
            u.labels@[0]@ == request_method@,
            u.labels@[1]@ == request_path@,
    {
        let mut labels: Vec<String> = Vec::new();
        labels.push(String::from_str(request_method));
        labels.push(String::from_str(request_path));
        MetricUpdate { metric: Metric::HttpRequestsTotal, labels, amount: 1 }
    }
}

} // verus!
