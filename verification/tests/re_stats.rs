use buck2_bits::re_stats::BackendStats;
use buck2_bits::re_stats::LocalCacheRemoteExecutionClientStats;
use buck2_bits::re_stats::LocalCacheStats;
use buck2_bits::re_stats::OpStats;
use buck2_bits::re_stats::PerBackendRemoteExecutionClientStats;
use buck2_bits::re_stats::RemoteExecutionClientOpStats;
use buck2_bits::re_stats::RemoteExecutionClientStats;
use buck2_bits::re_stats::TCacheFunnelStats;
use buck2_bits::re_stats::TLocalCacheStats;
use buck2_bits::re_stats::TStorageBackendStats;
use buck2_bits::re_stats::TStorageBackendType;
use buck2_bits::re_stats::TStorageStats;

#[test]
fn op_stats_count_starts_and_finishes() {
    let mut s = OpStats::new();
    s.record_start();
    s.record_start();
    s.record_start();
    s.record_finish(true);
    s.record_finish(false);
    let r = RemoteExecutionClientOpStats::from(&s);
    assert_eq!(r.started, 3);
    assert_eq!(r.finished_successfully, 1);
    assert_eq!(r.finished_with_error, 1);
}

#[test]
fn op_stats_default_is_zero() {
    let d = RemoteExecutionClientOpStats::default();
    assert_eq!(d.started, 0);
    let d = OpStats::default();
    assert_eq!(RemoteExecutionClientOpStats::from(&d), RemoteExecutionClientOpStats::default());
}

fn report(n: i64) -> TLocalCacheStats {
    TLocalCacheStats {
        hits_files: n,
        hits_bytes: 2 * n,
        misses_files: 3 * n,
        misses_bytes: 4 * n,
        cache_funnel_stats: TCacheFunnelStats {
            digests_served_from_memory: 5 * n,
            digests_served_from_fs: 6 * n,
        },
        total_cache_lookup_attempts: 7 * n,
        cache_lookup_latency_microseconds: 8 * n,
    }
}

#[test]
fn local_cache_stats_add_reports() {
    let mut s = LocalCacheStats::new();
    s.update(&report(1));
    s.update(&report(10));
    let r = LocalCacheRemoteExecutionClientStats::from(&s);
    assert_eq!(r.hits_files, 11);
    assert_eq!(r.hits_bytes, 22);
    assert_eq!(r.misses_files, 33);
    assert_eq!(r.misses_bytes, 44);
    assert_eq!(r.hits_from_memory, 55);
    assert_eq!(r.hits_from_fs, 66);
    assert_eq!(r.cache_lookups, 77);
    assert_eq!(r.cache_lookup_latency_microseconds, 88);
}

#[test]
fn local_cache_stats_wrap_around() {
    let mut s = LocalCacheStats::default();
    let mut big = report(0);
    big.hits_files = i64::MAX;
    s.update(&big);
    s.update(&report(1));
    let r = LocalCacheRemoteExecutionClientStats::from(&s);
    assert_eq!(r.hits_files, i64::MIN);
    assert_eq!(r.hits_bytes, 2);
}

#[test]
fn fill_takes_known_backends() {
    let mut s = PerBackendRemoteExecutionClientStats::default();
    let metrics = TStorageStats {
        per_backend_stats: vec![
            (TStorageBackendType::ZDB, TStorageBackendStats { queries_count: 3, bytes: 100 }),
            (TStorageBackendType::Other(42), TStorageBackendStats { queries_count: 9, bytes: 9 }),
            (TStorageBackendType::HEDWIG, TStorageBackendStats { queries_count: 1, bytes: 7 }),
            (TStorageBackendType::MANIFOLD, TStorageBackendStats { queries_count: -1, bytes: 5 }),
        ],
    };
    s.fill_from_re_client_metrics(&metrics);
    assert_eq!(s.zdb, BackendStats { queries: 3, bytes: 100 });
    assert_eq!(s.zgateway, BackendStats { queries: 0, bytes: 0 });
    assert_eq!(s.hedwig, BackendStats { queries: 1, bytes: 7 });
    assert_eq!(s.manifold, BackendStats { queries: u64::MAX, bytes: 5 });
}

#[test]
fn fill_replaces_earlier_figures() {
    let mut s = PerBackendRemoteExecutionClientStats::default();
    s.zgateway = BackendStats { queries: 50, bytes: 50 };
    let metrics = TStorageStats {
        per_backend_stats: vec![
            (TStorageBackendType::ZGATEWAY, TStorageBackendStats { queries_count: 2, bytes: 20 }),
        ],
    };
    s.fill_from_re_client_metrics(&metrics);
    assert_eq!(s.zgateway, BackendStats { queries: 2, bytes: 20 });
    let empty = TStorageStats { per_backend_stats: vec![] };
    let before = s;
    s.fill_from_re_client_metrics(&empty);
    assert_eq!(s, before);
}

#[test]
fn client_stats_default_is_zero() {
    let s = RemoteExecutionClientStats::default();
    assert_eq!(s.uploaded, 0);
    assert_eq!(s.downloaded, 0);
    assert_eq!(s.upload_stats, PerBackendRemoteExecutionClientStats::default());
    assert_eq!(s.executes, RemoteExecutionClientOpStats::default());
    assert_eq!(s.local_cache, LocalCacheRemoteExecutionClientStats::default());
    assert_eq!(s.local_cache.hits_files, 0);
}

#[test]
fn counters_after_a_run_of_operations() {
    let mut s = OpStats::default();
    s.record_start();
    s.record_start();
    s.record_finish(false);
    s.record_start();
    s.record_finish(true);
    s.record_finish(true);
    let r = RemoteExecutionClientOpStats::from(&s);
    assert_eq!((r.started, r.finished_successfully, r.finished_with_error), (3, 2, 1));
    assert!(r.finished_successfully + r.finished_with_error <= r.started);
}
