use std::collections::HashSet;
use std::time::Duration;
use std::time::Instant;

use buck2_bits::aggregated_metrics::state::DeferredHolder;
use buck2_bits::aggregated_metrics::state::DeferredHolderKey;
use buck2_bits::aggregated_metrics::state::DetailedAggregatedMetricsEvent;
use buck2_bits::aggregated_metrics::state::DetailedAggregatedMetricsStateTracker;
use buck2_bits::aggregated_metrics::state::PerBuildEvents;
use buck2_bits::aggregated_metrics::state::TopLevelTargetSpec;
use buck2_bits::aggregated_metrics::state::TopLevelTraversal;
use buck2_bits::aggregated_metrics::types::ActionExecutionMetrics;
use buck2_bits::aggregated_metrics::types::AggregatedBuildMetrics;
use buck2_bits::error::Buck2Error;

fn execution(key: u64, time: u64, size: u64, peak: Option<u64>) -> ActionExecutionMetrics {
    ActionExecutionMetrics {
        key,
        execution_time_us: time,
        output_size_bytes: size,
        memory_peak: peak,
    }
}

fn analysis(declared: u64, memory: u64) -> DeferredHolder {
    DeferredHolder {
        declared_actions: declared,
        retained_memory: Some(memory),
    }
}

fn tracker() -> DetailedAggregatedMetricsStateTracker {
    let mut t = DetailedAggregatedMetricsStateTracker::new();
    let events = vec![
        DetailedAggregatedMetricsEvent::AnalysisComplete(DeferredHolderKey::for_analysis(1), analysis(10, 1000)),
        DetailedAggregatedMetricsEvent::AnalysisComplete(DeferredHolderKey::for_analysis(2), analysis(4, 400)),
        DetailedAggregatedMetricsEvent::AnalysisComplete(DeferredHolderKey::for_analysis(3), analysis(6, 600)),
        DetailedAggregatedMetricsEvent::ActionExecuted(execution(100, 90, 30, Some(5))),
        DetailedAggregatedMetricsEvent::ActionExecuted(execution(101, 10, 10, Some(9))),
    ];
    for e in events {
        assert!(t.event(e).is_none());
    }
    t
}

fn traversals(first_complete: bool, second_complete: bool) -> Vec<TopLevelTraversal> {
    vec![
        TopLevelTraversal {
            label: 1000,
            target_graph: vec![1, 2],
            action_graph: Ok((first_complete, vec![100, 101])),
        },
        TopLevelTraversal {
            label: 1001,
            target_graph: vec![2, 3],
            action_graph: Ok((second_complete, vec![100, 102])),
        },
    ]
}

fn executed() -> HashSet<u64> {
    let mut s = HashSet::new();
    s.insert(100);
    s
}

#[test]
fn events_record_latest_results() {
    let mut t = tracker();
    assert_eq!(t.holder(&DeferredHolderKey::Analysis(1)), Some(&analysis(10, 1000)));
    assert_eq!(t.holder(&DeferredHolderKey::DynamicLambda(1)), None);
    t.event(DetailedAggregatedMetricsEvent::AnalysisComplete(
        DeferredHolderKey::Analysis(1),
        analysis(11, 1100),
    ));
    assert_eq!(t.holder(&DeferredHolderKey::Analysis(1)), Some(&analysis(11, 1100)));
    t.event(DetailedAggregatedMetricsEvent::AnalysisStarted(DeferredHolderKey::Analysis(1)));
    assert_eq!(t.holder(&DeferredHolderKey::Analysis(1)), None);
    assert_eq!(t.holder(&DeferredHolderKey::Analysis(2)), Some(&analysis(4, 400)));
    t.event(DetailedAggregatedMetricsEvent::AnalysisComplete(
        DeferredHolderKey::DynamicLambda(1),
        analysis(1, 1),
    ));
    assert_eq!(t.holder(&DeferredHolderKey::DynamicLambda(1)), Some(&analysis(1, 1)));
    assert_eq!(t.holder(&DeferredHolderKey::Analysis(1)), None);
    t.event(DetailedAggregatedMetricsEvent::ActionExecuted(execution(100, 1, 2, None)));
    assert_eq!(t.observed_execution(100), Some(&execution(100, 1, 2, None)));
    assert_eq!(t.observed_execution(101), Some(&execution(101, 10, 10, Some(9))));
    assert_eq!(t.observed_execution(102), None);
}

#[test]
fn compute_request_is_handed_back() {
    let mut t = tracker();
    let events = PerBuildEvents {
        top_level_targets: vec![],
        executed_actions: executed(),
    };
    let back = t.event(DetailedAggregatedMetricsEvent::ComputeMetrics(events));
    let back = back.unwrap();
    assert!(back.executed_actions.contains(&100));
    assert_eq!(t.observed_execution(100), Some(&execution(100, 90, 30, Some(5))));
}

#[test]
fn aggregate_counts_shared_actions_amortized() {
    let t = tracker();
    let m = t
        .aggregate_metrics(&executed(), traversals(true, false), Duration::from_millis(7))
        .unwrap();
    let all = &m.all_targets_build_metrics;
    assert_eq!(all.action_graph_size, None);
    assert_eq!(all.compute_time, Duration::from_millis(7));
    assert_eq!(
        all.metrics,
        AggregatedBuildMetrics {
            execution_time_us: 100,
            output_size_bytes: 40,
            this_build_execution_time_us: 90,
            this_build_output_size_bytes: 30,
            declared_actions: 20,
            retained_analysis_memory_bytes: 2000,
        }
    );
    assert_eq!(m.top_level_target_metrics.len(), 2);
    let first = &m.top_level_target_metrics[0];
    assert_eq!(first.label, 1000);
    assert_eq!(first.action_graph_size, Some(2));
    assert_eq!(first.max_memory_peak, Some(9));
    assert_eq!(
        first.metrics,
        AggregatedBuildMetrics {
            execution_time_us: 100,
            output_size_bytes: 40,
            this_build_execution_time_us: 90,
            this_build_output_size_bytes: 30,
            declared_actions: 14,
            retained_analysis_memory_bytes: 1400,
        }
    );
    assert_eq!(
        first.amortized_metrics,
        AggregatedBuildMetrics {
            execution_time_us: 55,
            output_size_bytes: 25,
            this_build_execution_time_us: 45,
            this_build_output_size_bytes: 15,
            declared_actions: 12,
            retained_analysis_memory_bytes: 1200,
        }
    );
    let second = &m.top_level_target_metrics[1];
    assert_eq!(second.label, 1001);
    assert_eq!(second.action_graph_size, None);
    assert_eq!(second.max_memory_peak, Some(5));
    assert_eq!(
        second.metrics,
        AggregatedBuildMetrics {
            execution_time_us: 90,
            output_size_bytes: 30,
            this_build_execution_time_us: 90,
            this_build_output_size_bytes: 30,
            declared_actions: 10,
            retained_analysis_memory_bytes: 1000,
        }
    );
    assert_eq!(
        second.amortized_metrics,
        AggregatedBuildMetrics {
            execution_time_us: 45,
            output_size_bytes: 15,
            this_build_execution_time_us: 45,
            this_build_output_size_bytes: 15,
            declared_actions: 8,
            retained_analysis_memory_bytes: 800,
        }
    );
}

#[test]
fn complete_graphs_give_distinct_action_count() {
    let t = tracker();
    let m = t
        .aggregate_metrics(&executed(), traversals(true, true), Duration::from_millis(0))
        .unwrap();
    assert_eq!(m.all_targets_build_metrics.action_graph_size, Some(3));
    assert_eq!(m.top_level_target_metrics[1].action_graph_size, Some(2));
}

#[test]
fn previously_built_actions_count_only_in_whole() {
    let t = tracker();
    let m = t
        .aggregate_metrics(&HashSet::new(), traversals(true, true), Duration::from_millis(0))
        .unwrap();
    let all = &m.all_targets_build_metrics.metrics;
    assert_eq!(all.execution_time_us, 100);
    assert_eq!(all.this_build_execution_time_us, 0);
    assert_eq!(all.this_build_output_size_bytes, 0);
}

#[test]
fn no_top_level_targets_gives_empty_metrics() {
    let t = tracker();
    let m = t
        .aggregate_metrics(&executed(), vec![], Duration::from_millis(0))
        .unwrap();
    assert_eq!(m.all_targets_build_metrics.action_graph_size, Some(0));
    assert_eq!(m.all_targets_build_metrics.metrics, AggregatedBuildMetrics::default());
    assert!(m.top_level_target_metrics.is_empty());
}

#[test]
fn first_failed_action_graph_is_the_error() {
    let t = tracker();
    let mut tr = traversals(true, true);
    tr[1].action_graph = Err(Buck2Error::Internal("first".to_owned()));
    tr.push(TopLevelTraversal {
        label: 1002,
        target_graph: vec![],
        action_graph: Err(Buck2Error::Internal("second".to_owned())),
    });
    match t.aggregate_metrics(&executed(), tr, Duration::from_millis(0)) {
        Err(Buck2Error::Internal(m)) => assert_eq!(m, "first"),
        other => panic!("unexpected {:?}", other),
    }
}

#[test]
fn missing_analysis_is_an_error() {
    let mut t = tracker();
    t.event(DetailedAggregatedMetricsEvent::AnalysisStarted(DeferredHolderKey::for_analysis(3)));
    let r = t.aggregate_metrics(&executed(), traversals(true, true), Duration::from_millis(0));
    assert!(matches!(r, Err(Buck2Error::AnalysisMissingForOutput)));
}

#[test]
fn graph_error_comes_before_missing_analysis() {
    let mut t = tracker();
    t.event(DetailedAggregatedMetricsEvent::AnalysisStarted(DeferredHolderKey::for_analysis(3)));
    let mut tr = traversals(true, true);
    tr[0].action_graph = Err(Buck2Error::Internal("graph".to_owned()));
    let r = t.aggregate_metrics(&executed(), tr, Duration::from_millis(0));
    assert!(matches!(r, Err(Buck2Error::Internal(_))));
}

#[test]
fn compute_metrics_measures_its_time() {
    let t = tracker();
    let events = PerBuildEvents {
        top_level_targets: vec![
            TopLevelTargetSpec { label: 1000, target: 1, outputs: vec![] },
            TopLevelTargetSpec { label: 1001, target: 2, outputs: vec![] },
        ],
        executed_actions: executed(),
    };
    let started = Instant::now();
    let m = t.compute_metrics(&events, traversals(true, true), &started).unwrap();
    assert!(m.all_targets_build_metrics.compute_time < Duration::from_secs(3600));
    assert_eq!(m.all_targets_build_metrics.metrics.this_build_execution_time_us, 90);
}

#[test]
fn saturating_sums() {
    let mut t = DetailedAggregatedMetricsStateTracker::new();
    t.event(DetailedAggregatedMetricsEvent::AnalysisComplete(DeferredHolderKey::Analysis(1), analysis(1, 1)));
    t.event(DetailedAggregatedMetricsEvent::ActionExecuted(execution(1, u64::MAX, 1, None)));
    t.event(DetailedAggregatedMetricsEvent::ActionExecuted(execution(2, 5, 1, None)));
    let tr = vec![TopLevelTraversal {
        label: 0,
        target_graph: vec![1],
        action_graph: Ok((true, vec![1, 2])),
    }];
    let m = t.aggregate_metrics(&HashSet::new(), tr, Duration::from_millis(0)).unwrap();
    assert_eq!(m.all_targets_build_metrics.metrics.execution_time_us, u64::MAX);
    assert_eq!(m.all_targets_build_metrics.metrics.output_size_bytes, 2);
    assert_eq!(m.top_level_target_metrics[0].max_memory_peak, None);
}

#[test]
fn amortized_shares_add_up_to_at_most_the_whole() {
    let t = tracker();
    let m = t
        .aggregate_metrics(&executed(), traversals(true, true), Duration::from_millis(0))
        .unwrap();
    let total_time: u64 = m
        .top_level_target_metrics
        .iter()
        .map(|d| d.amortized_metrics.execution_time_us)
        .sum();
    let total_size: u64 = m
        .top_level_target_metrics
        .iter()
        .map(|d| d.amortized_metrics.output_size_bytes)
        .sum();
    assert_eq!(total_time, 100);
    assert!(total_time <= m.all_targets_build_metrics.metrics.execution_time_us);
    assert!(total_size <= m.all_targets_build_metrics.metrics.output_size_bytes);
    for d in &m.top_level_target_metrics {
        assert!(d.amortized_metrics.execution_time_us <= d.metrics.execution_time_us);
        assert!(d.metrics.this_build_execution_time_us <= d.metrics.execution_time_us);
    }
}

#[test]
fn graph_error_comes_before_unmeasured_memory() {
    let mut t = tracker();
    t.event(DetailedAggregatedMetricsEvent::AnalysisComplete(
        DeferredHolderKey::for_analysis(3),
        DeferredHolder { declared_actions: 1, retained_memory: None },
    ));
    let mut tr = traversals(true, true);
    tr[1].action_graph = Err(Buck2Error::Internal("graph".to_owned()));
    let r = t.aggregate_metrics(&executed(), tr, Duration::from_millis(0));
    assert!(matches!(r, Err(Buck2Error::Internal(_))));
}
