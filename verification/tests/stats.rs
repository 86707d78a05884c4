use ad_engine::stats::{AggregateStatService, CampaignStatService, DailyCounts};

fn day(impressions_count: u32, clicks_count: u32, date: u32) -> DailyCounts {
    DailyCounts { date, impressions_count, clicks_count }
}

#[test]
fn test_aggregate_daily_stats() {
    let service = AggregateStatService;

    let stats_vec = vec![vec![day(100, 10, 1)], vec![day(300, 20, 2), day(100, 15, 1)]];

    let aggregated_stats = service.aggregate_daily_stats(&stats_vec);

    assert_eq!(aggregated_stats.len(), 2);
    assert_eq!(aggregated_stats[0].date, 2);
    assert_eq!(aggregated_stats[0].impressions_count, 300);
    assert_eq!(aggregated_stats[0].clicks_count, 20);

    assert_eq!(aggregated_stats[1].date, 1);
    assert_eq!(aggregated_stats[1].impressions_count, 200);
    assert_eq!(aggregated_stats[1].clicks_count, 25);
}

#[test]
fn aggregate_records_the_rows_of_each_day() {
    let service = AggregateStatService;
    let stats_vec = vec![vec![day(100, 10, 1)], vec![day(300, 20, 2), day(100, 15, 1)]];
    let aggregated = service.aggregate_daily_stats(&stats_vec);
    assert_eq!(aggregated[0].sources, vec![1]);
    assert_eq!(aggregated[1].sources, vec![0, 2]);
}

#[test]
fn aggregate_sums_every_row_of_a_day() {
    let service = AggregateStatService;
    let stats_vec = vec![vec![day(5, 1, 7)], vec![day(5, 1, 7)], vec![day(5, 2, 7)]];
    let aggregated = service.aggregate_daily_stats(&stats_vec);
    assert_eq!(aggregated.len(), 1);
    assert_eq!(aggregated[0].impressions_count, 15);
    assert_eq!(aggregated[0].clicks_count, 4);
    assert_eq!(aggregated[0].sources, vec![0, 1, 2]);
}

#[test]
fn aggregate_combines_equal_rows_of_two_campaigns() {
    let service = AggregateStatService;
    let stats_vec = vec![vec![day(100, 10, 1)], vec![day(100, 10, 1)]];
    let aggregated = service.aggregate_daily_stats(&stats_vec);
    assert_eq!(aggregated.len(), 1);
    assert_eq!(aggregated[0].impressions_count, 200);
    assert_eq!(aggregated[0].clicks_count, 20);
    assert_eq!(aggregated[0].sources, vec![0, 1]);
}

#[test]
fn aggregate_of_distinct_days_keeps_each_row() {
    let service = AggregateStatService;
    let stats_vec = vec![vec![day(1, 0, 3), day(2, 1, 9), day(4, 2, 5)]];
    let aggregated = service.aggregate_daily_stats(&stats_vec);
    let dates: Vec<u32> = aggregated.iter().map(|d| d.date).collect();
    assert_eq!(dates, vec![9, 5, 3]);
    assert_eq!(aggregated[0].impressions_count, 2);
    assert_eq!(aggregated[1].impressions_count, 4);
    assert_eq!(aggregated[2].impressions_count, 1);
}

#[test]
fn aggregate_of_nothing_is_empty() {
    let service = AggregateStatService;
    assert!(service.aggregate_daily_stats(&vec![]).is_empty());
    assert!(service.aggregate_daily_stats(&vec![vec![], vec![]]).is_empty());
}

#[test]
fn calculate_total_counts_sums_counters() {
    let service = AggregateStatService;
    let stats = vec![day(100, 10, 1), day(200, 20, 2)];
    assert_eq!(service.calculate_total_counts(&stats), (300, 30));
    assert_eq!(service.calculate_total_counts(&vec![]), (0, 0));
}

#[test]
fn fill_missing_days_covers_the_range() {
    let service = CampaignStatService;
    let rows = vec![day(1, 0, 3), day(2, 0, 5), day(3, 0, 5)];
    let series = service.fill_missing_days(&rows);
    let dates: Vec<u32> = series.iter().map(|d| d.date).collect();
    let sources: Vec<Option<usize>> = series.iter().map(|d| d.source).collect();
    assert_eq!(dates, vec![3, 4, 5]);
    assert_eq!(sources, vec![Some(0), None, Some(1)]);
}

#[test]
fn fill_missing_days_of_nothing_or_reversed_range_is_empty() {
    let service = CampaignStatService;
    assert!(service.fill_missing_days(&vec![]).is_empty());
    assert!(service.fill_missing_days(&vec![day(1, 1, 9), day(1, 1, 2)]).is_empty());
}

#[test]
fn fill_missing_days_reaches_the_largest_date() {
    let service = CampaignStatService;
    let rows = vec![day(1, 0, u32::MAX - 1), day(1, 0, u32::MAX)];
    let series = service.fill_missing_days(&rows);
    assert_eq!(series.len(), 2);
    assert_eq!(series[1].date, u32::MAX);
    assert_eq!(series[1].source, Some(1));
}

#[test]
fn daily_counts_from_row_defaults_to_zero() {
    let d = DailyCounts::from_row(None, Some(4), None);
    assert_eq!((d.impressions_count, d.clicks_count, d.date), (0, 4, 0));
    let e = DailyCounts::from_row(Some(-1), Some(7), Some(12));
    assert_eq!((e.impressions_count, e.clicks_count, e.date), (u32::MAX, 7, 12));
}

#[test]
fn try_aggregate_refuses_a_day_that_overflows() {
    let service = AggregateStatService;
    let stats_vec = vec![vec![day(u32::MAX, 1, 3)], vec![day(1, 1, 3)]];
    assert!(service.try_aggregate_daily_stats(&stats_vec).is_none());
    let spread = vec![vec![day(u32::MAX, 1, 3)], vec![day(1, 1, 4)]];
    let days = service.try_aggregate_daily_stats(&spread).unwrap();
    assert_eq!(days.len(), 2);
    assert_eq!(days[0].date, 4);
    assert_eq!(days[1].impressions_count, u32::MAX);
}

#[test]
fn try_aggregate_agrees_with_aggregate() {
    let service = AggregateStatService;
    let stats_vec = vec![vec![day(100, 10, 1)], vec![day(300, 20, 2), day(100, 15, 1)]];
    let tried = service.try_aggregate_daily_stats(&stats_vec).unwrap();
    let plain = service.aggregate_daily_stats(&stats_vec);
    assert_eq!(tried.len(), plain.len());
    for (a, b) in tried.iter().zip(plain.iter()) {
        assert_eq!((a.date, a.impressions_count, a.clicks_count), (b.date, b.impressions_count, b.clicks_count));
        assert_eq!(a.sources, b.sources);
    }
}

#[test]
fn test_calculate_total_stats() {
    let service = AggregateStatService;
    let stats = vec![day(100, 10, 1), day(200, 20, 2)];
    let (total_imp, total_clk) = service.calculate_total_counts(&stats);
    assert_eq!(total_imp, 300);
    assert_eq!(total_clk, 30);
}

#[test]
fn test_get_by_day_success() {
    let service = CampaignStatService;
    let rows = vec![DailyCounts::from_row(None, None, Some(1))];
    let series = service.fill_missing_days(&rows);
    assert_eq!(series.len(), 1);
    assert_eq!(series[0].date, 1);
    assert_eq!(series[0].source, Some(0));
}

#[test]
fn test_get_by_day_empty() {
    let service = CampaignStatService;
    let series = service.fill_missing_days(&vec![]);
    assert_eq!(series.len(), 0);
}
