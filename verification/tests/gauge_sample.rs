use api::gauge_sample::{
    build_row, metric_points, metric_value, ClusterStats, GaugeMetric, MempoolGaugeSampleRow,
};

#[test]
fn build_row_carries_snapshot_values() {
    let stats = ClusterStats { cluster_count: 2, tx_count: 3, total_vsize: 300, total_fee: 1200 };
    let sampled_at = 1_700_000_000_000_000_000i128;
    let row = build_row(&stats, 4, sampled_at);
    assert_eq!(row.sampled_at, sampled_at);
    assert_eq!(row.cluster_count, 2);
    assert_eq!(row.clustered_tx_count, 3);
    assert_eq!(row.mempool_tx_count, 4);
    assert_eq!(row.total_vsize, 300);
    assert_eq!(row.total_fee, 1200);
}

fn row() -> MempoolGaugeSampleRow {
    MempoolGaugeSampleRow {
        sampled_at: 1_700_000_000_000_000_000,
        cluster_count: 11,
        clustered_tx_count: 22,
        mempool_tx_count: 33,
        total_vsize: 44,
        total_fee: 55,
    }
}

#[test]
fn metric_value_maps_each_variant_to_its_own_column() {
    let row = row();
    assert_eq!(metric_value(GaugeMetric::ClusterCount, &row), 11);
    assert_eq!(metric_value(GaugeMetric::ClusteredTxCount, &row), 22);
    assert_eq!(metric_value(GaugeMetric::MempoolTxCount, &row), 33);
    assert_eq!(metric_value(GaugeMetric::TotalVsize, &row), 44);
    assert_eq!(metric_value(GaugeMetric::TotalFee, &row), 55);
}

#[test]
fn a_series_projects_every_row_onto_one_column() {
    let mut later = row();
    later.sampled_at += 60;
    later.total_fee = 66;
    let points = metric_points(GaugeMetric::TotalFee, &vec![row(), later]);
    assert_eq!(points.len(), 2);
    assert_eq!(points[0].value, 55);
    assert_eq!(points[1].value, 66);
    assert_eq!(points[1].sampled_at, 1_700_000_000_000_000_060);
}

#[test]
fn a_row_built_now_is_stamped_by_the_clock() {
    let before = time::OffsetDateTime::now_utc().unix_timestamp_nanos();
    let stats = ClusterStats { cluster_count: 1, tx_count: 2, total_vsize: 3, total_fee: 4 };
    let row = api::gauge_sample::build_row_now(&stats, 5);
    assert!(row.sampled_at >= before);
    assert_eq!((row.cluster_count, row.mempool_tx_count, row.total_fee), (1, 5, 4));
}
