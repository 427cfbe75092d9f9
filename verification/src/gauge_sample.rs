//! Gauge samples: one wide row of the mempool and cluster state per minute, and
//! the single-metric projection of it that charts read.
use crate::clock::now_unix_nanos;
use vstd::prelude::*;

verus! {

/// One column of the gauge sample table.
#[derive(Debug, Clone, Copy, PartialEq, Eq)]
pub enum GaugeMetric {
    ClusterCount,
    ClusteredTxCount,
    MempoolTxCount,
    TotalVsize,
    TotalFee,
}

/// One stored gauge sample. `sampled_at` is unix nanoseconds.
#[derive(Debug, Clone, Copy, PartialEq, Eq)]
pub struct MempoolGaugeSampleRow {
    pub sampled_at: i128,
    pub cluster_count: i32,
    pub clustered_tx_count: i32,
    pub mempool_tx_count: i32,
    pub total_vsize: i64,
    pub total_fee: i64,
}

/// Totals of the active clusters.
#[derive(Debug, Clone, Copy, PartialEq, Eq)]
pub struct ClusterStats {
    pub cluster_count: usize,
    pub tx_count: usize,
    pub total_vsize: i64,
    pub total_fee: i64,
}

/// One point of a single-metric series.
#[derive(Debug, Clone, Copy, PartialEq, Eq)]
pub struct GaugePoint {
    pub sampled_at: i128,
    pub value: i64,
}

/// The value of `metric` in `row`.
pub open spec fn metric_value_spec(metric: GaugeMetric, row: MempoolGaugeSampleRow) -> i64 {
    match metric {
        GaugeMetric::ClusterCount => row.cluster_count as i64,
        GaugeMetric::ClusteredTxCount => row.clustered_tx_count as i64,
        GaugeMetric::MempoolTxCount => row.mempool_tx_count as i64,
        GaugeMetric::TotalVsize => row.total_vsize,
        GaugeMetric::TotalFee => row.total_fee,
    }
}

/// The value of `metric` in `row`: each metric reads its own column.
pub fn metric_value(metric: GaugeMetric, row: &MempoolGaugeSampleRow) -> (value: i64)
    ensures
        value == metric_value_spec(metric, *row),
{
    match metric {
        GaugeMetric::ClusterCount => row.cluster_count as i64,
        GaugeMetric::ClusteredTxCount => row.clustered_tx_count as i64,
        GaugeMetric::MempoolTxCount => row.mempool_tx_count as i64,
        GaugeMetric::TotalVsize => row.total_vsize,
        GaugeMetric::TotalFee => row.total_fee,
    }
}

/// The series of `metric` over `rows`, in row order.
pub fn metric_points(metric: GaugeMetric, rows: &Vec<MempoolGaugeSampleRow>) -> (points: Vec<
    GaugePoint,
>)
    ensures
        points@.len() == rows@.len(),
        forall|i: int|
            0 <= i < rows@.len() ==> #[trigger] points@[i] == (GaugePoint {
                sampled_at: rows@[i].sampled_at,
                value: metric_value_spec(metric, rows@[i]),
            }),
{
    let mut points: Vec<GaugePoint> = Vec::new();
    let mut i: usize = 0;
    while i < rows.len()
        invariant
            i <= rows@.len(),
            points@.len() == i,
            forall|j: int|
                0 <= j < i ==> #[trigger] points@[j] == (GaugePoint {
                    sampled_at: rows@[j].sampled_at,
                    value: metric_value_spec(metric, rows@[j]),
                }),
        decreases rows@.len() - i,
    {
        let row = &rows[i];
        points.push(GaugePoint { sampled_at: row.sampled_at, value: metric_value(metric, row) });
        i = i + 1;
    }
    points
}

/// Builds one gauge sample row from the active clusters' totals and the live
/// mempool size; counts are stored as `i32`, truncating as `as` does.
pub fn build_row(stats: &ClusterStats, mempool_tx_count: usize, sampled_at: i128) -> (row:
    MempoolGaugeSampleRow)
    ensures
        row == (MempoolGaugeSampleRow {
            sampled_at,
            cluster_count: stats.cluster_count as i32,
            clustered_tx_count: stats.tx_count as i32,
            mempool_tx_count: mempool_tx_count as i32,
            total_vsize: stats.total_vsize,
            total_fee: stats.total_fee,
        }),
{
    MempoolGaugeSampleRow {
        sampled_at,
        cluster_count: stats.cluster_count as i32,
        clustered_tx_count: stats.tx_count as i32,
        mempool_tx_count: mempool_tx_count as i32,
        total_vsize: stats.total_vsize,
        total_fee: stats.total_fee,
    }
}

/// Builds one gauge sample row stamped now, by our clock.
pub fn build_row_now(stats: &ClusterStats, mempool_tx_count: usize) -> (row: MempoolGaugeSampleRow)
    ensures
        row == (MempoolGaugeSampleRow {
            sampled_at: row.sampled_at,
            cluster_count: stats.cluster_count as i32,
            clustered_tx_count: stats.tx_count as i32,
            mempool_tx_count: mempool_tx_count as i32,
            total_vsize: stats.total_vsize,
            total_fee: stats.total_fee,
        }),
{
    build_row(stats, mempool_tx_count, now_unix_nanos())
}

} // verus!
