//! What holds of the state tracker over several events, and of every
//! metrics computation.

use vstd::prelude::*;

use vstd::multiset::Multiset;

use crate::aggregated_metrics::state::all_actions;
use crate::aggregated_metrics::state::all_targets;
use crate::aggregated_metrics::state::analysis_metrics_of;
use crate::aggregated_metrics::state::built_when;
use crate::aggregated_metrics::state::executions_after;
use crate::aggregated_metrics::state::graph_actions;
use crate::aggregated_metrics::state::graph_complete;
use crate::aggregated_metrics::state::holders_after;
use crate::aggregated_metrics::state::lemma_all_actions_contains;
use crate::aggregated_metrics::state::overall_after_actions;
use crate::aggregated_metrics::state::overall_after_targets;
use crate::aggregated_metrics::state::overall_graph_size;
use crate::aggregated_metrics::state::overall_metrics;
use crate::aggregated_metrics::state::requested_computation;
use crate::aggregated_metrics::state::top_level_after_actions;
use crate::aggregated_metrics::state::top_level_after_targets;
use crate::aggregated_metrics::state::top_level_data;
use crate::aggregated_metrics::state::DeferredHolder;
use crate::aggregated_metrics::state::DeferredHolderKey;
use crate::aggregated_metrics::state::DetailedAggregatedMetricsEvent;
use crate::aggregated_metrics::state::PerBuildEvents;
use crate::aggregated_metrics::state::TopLevelTraversal;
use crate::aggregated_metrics::types::ActionExecutionMetrics;
use crate::aggregated_metrics::types::AggregatedBuildMetrics;
use crate::aggregated_metrics::types::AnalysisMetrics;
use crate::aggregated_metrics::types::BuiltWhen;
use crate::aggregated_metrics::types::TopLevelTargetAggregatedData;
use crate::aggregated_metrics::types::saturated;

verus! {

broadcast use {vstd::seq_lib::group_to_multiset_ensures, vstd::seq_lib::group_seq_properties};

/// After two completed analyses of one key, the key holds the later result.
pub proof fn law_latest_analysis_wins(
    holders: Map<DeferredHolderKey, DeferredHolder>,
    key: DeferredHolderKey,
    first: DeferredHolder,
    second: DeferredHolder,
)
    ensures
        ({
            let h = holders_after(
                holders_after(
                    holders,
                    DetailedAggregatedMetricsEvent::AnalysisComplete(key, first),
                ),
                DetailedAggregatedMetricsEvent::AnalysisComplete(key, second),
            );
            h.contains_key(key) && h[key] == second
        }),
{
}

/// An analysis that starts forgets the key's result, whatever was recorded
/// before it.
pub proof fn law_started_analysis_forgets(
    holders: Map<DeferredHolderKey, DeferredHolder>,
    key: DeferredHolderKey,
    data: DeferredHolder,
)
    ensures
        !holders_after(
            holders_after(holders, DetailedAggregatedMetricsEvent::AnalysisComplete(key, data)),
            DetailedAggregatedMetricsEvent::AnalysisStarted(key),
        ).contains_key(key),
{
}

/// An analysis event of one key leaves the result of every other key as it was.
pub proof fn law_other_keys_unchanged(
    holders: Map<DeferredHolderKey, DeferredHolder>,
    key: DeferredHolderKey,
    data: DeferredHolder,
    other: DeferredHolderKey,
)
    requires
        key != other,
    ensures
        holders_after(holders, DetailedAggregatedMetricsEvent::AnalysisStarted(key)).contains_key(
            other,
        ) == holders.contains_key(other),
        holders_after(
            holders,
            DetailedAggregatedMetricsEvent::AnalysisComplete(key, data),
        ).contains_key(other) == holders.contains_key(other),
        holders.contains_key(other) ==> holders_after(
            holders,
            DetailedAggregatedMetricsEvent::AnalysisStarted(key),
        )[other] == holders[other] && holders_after(
            holders,
            DetailedAggregatedMetricsEvent::AnalysisComplete(key, data),
        )[other] == holders[other],
{
}

/// After two executions of one action, the action holds the later one.
pub proof fn law_latest_execution_wins(
    executions: Map<u64, ActionExecutionMetrics>,
    first: ActionExecutionMetrics,
    second: ActionExecutionMetrics,
)
    requires
        first.key == second.key,
    ensures
        ({
            let e = executions_after(
                executions_after(executions, DetailedAggregatedMetricsEvent::ActionExecuted(first)),
                DetailedAggregatedMetricsEvent::ActionExecuted(second),
            );
            e.contains_key(second.key) && e[second.key] == second
        }),
{
}

/// A request for metrics leaves the state as it was, and is handed back.
pub proof fn law_compute_request_changes_nothing(
    holders: Map<DeferredHolderKey, DeferredHolder>,
    executions: Map<u64, ActionExecutionMetrics>,
    events: PerBuildEvents,
)
    ensures
        holders_after(holders, DetailedAggregatedMetricsEvent::ComputeMetrics(events)) == holders,
        executions_after(executions, DetailedAggregatedMetricsEvent::ComputeMetrics(events))
            == executions,
        requested_computation(DetailedAggregatedMetricsEvent::ComputeMetrics(events)) == Some(
            events,
        ),
{
}

/// Each figure of `a` is at most the same figure of `b`.
pub open spec fn metrics_le(a: AggregatedBuildMetrics, b: AggregatedBuildMetrics) -> bool {
    &&& a.execution_time_us <= b.execution_time_us
    &&& a.output_size_bytes <= b.output_size_bytes
    &&& a.this_build_execution_time_us <= b.this_build_execution_time_us
    &&& a.this_build_output_size_bytes <= b.this_build_output_size_bytes
    &&& a.declared_actions <= b.declared_actions
    &&& a.retained_analysis_memory_bytes <= b.retained_analysis_memory_bytes
}

/// The part of the figures that this build contributed is at most the whole.
pub open spec fn this_build_within(m: AggregatedBuildMetrics) -> bool {
    &&& m.this_build_execution_time_us <= m.execution_time_us
    &&& m.this_build_output_size_bytes <= m.output_size_bytes
}

proof fn lemma_div_le(x: u64, f: nat)
    requires
        f >= 1,
    ensures
        x as int / f as int <= x,
        x as int / f as int >= 0,
{
    assert(x as int / f as int <= x) by (nonlinear_arith)
        requires
            f >= 1,
            x >= 0,
    ;
    assert(x as int / f as int >= 0) by (nonlinear_arith)
        requires
            f >= 1,
            x >= 0,
    ;
}

proof fn lemma_execution_le(
    a: AggregatedBuildMetrics,
    b: AggregatedBuildMetrics,
    ev: ActionExecutionMetrics,
    built: BuiltWhen,
    f: nat,
)
    requires
        metrics_le(a, b),
        f >= 1,
    ensures
        metrics_le(a.after_execution(ev, built, f), b.after_execution(ev, built, 1)),
{
    lemma_div_le(ev.execution_time_us, f);
    lemma_div_le(ev.output_size_bytes, f);
}

proof fn lemma_analysis_le(
    a: AggregatedBuildMetrics,
    b: AggregatedBuildMetrics,
    m: AnalysisMetrics,
    f: nat,
)
    requires
        metrics_le(a, b),
        f >= 1,
    ensures
        metrics_le(a.after_analysis(m, f), b.after_analysis(m, 1)),
{
    lemma_div_le(m.actions, f);
    lemma_div_le(m.retained_memory, f);
}

proof fn lemma_actions_amortized_le(
    d: TopLevelTargetAggregatedData,
    actions: Seq<u64>,
    executions: Map<u64, ActionExecutionMetrics>,
    executed: Set<u64>,
    owners: Multiset<u64>,
)
    requires
        metrics_le(d.amortized_metrics, d.metrics),
        forall|a: u64| #[trigger] actions.contains(a) ==> owners.count(a) >= 1,
    ensures
        ({
            let e = top_level_after_actions(d, actions, executions, executed, owners);
            metrics_le(e.amortized_metrics, e.metrics)
        }),
    decreases actions.len(),
{
    if actions.len() > 0 {
        assert forall|a: u64| #[trigger] actions.drop_last().contains(a) implies owners.count(a)
            >= 1 by {
            let j = choose|j: int| 0 <= j < actions.drop_last().len() && #[trigger] actions.drop_last()[j] == a;
            assert(actions[j] == a);
            assert(actions.contains(a));
        }
        lemma_actions_amortized_le(d, actions.drop_last(), executions, executed, owners);
        let prev = top_level_after_actions(d, actions.drop_last(), executions, executed, owners);
        let a = actions.last();
        assert(actions.contains(a));
        if executions.contains_key(a) {
            lemma_execution_le(
                prev.amortized_metrics,
                prev.metrics,
                executions[a],
                built_when(executed, a),
                owners.count(a),
            );
        }
    }
}

proof fn lemma_targets_amortized_le(
    d: TopLevelTargetAggregatedData,
    targets: Seq<u64>,
    analysis: Map<u64, DeferredHolder>,
    owners: Multiset<u64>,
)
    requires
        metrics_le(d.amortized_metrics, d.metrics),
        forall|t: u64| #[trigger] targets.contains(t) ==> owners.count(t) >= 1,
    ensures
        ({
            let e = top_level_after_targets(d, targets, analysis, owners);
            metrics_le(e.amortized_metrics, e.metrics)
        }),
    decreases targets.len(),
{
    if targets.len() > 0 {
        assert forall|t: u64| #[trigger] targets.drop_last().contains(t) implies owners.count(t)
            >= 1 by {
            let j = choose|j: int| 0 <= j < targets.drop_last().len() && #[trigger] targets.drop_last()[j] == t;
            assert(targets[j] == t);
            assert(targets.contains(t));
        }
        lemma_targets_amortized_le(d, targets.drop_last(), analysis, owners);
        let prev = top_level_after_targets(d, targets.drop_last(), analysis, owners);
        let t = targets.last();
        assert(targets.contains(t));
        lemma_analysis_le(
            prev.amortized_metrics,
            prev.metrics,
            analysis_metrics_of(analysis[t]),
            owners.count(t),
        );
    }
}

/// For every top-level target, each amortized figure is at most the same
/// figure counted in full.
pub proof fn law_amortized_at_most_full(
    r: Seq<TopLevelTraversal>,
    i: int,
    executions: Map<u64, ActionExecutionMetrics>,
    executed: Set<u64>,
    analysis: Map<u64, DeferredHolder>,
)
    requires
        0 <= i < r.len(),
    ensures
        ({
            let d = top_level_data(r, i, executions, executed, analysis);
            metrics_le(d.amortized_metrics, d.metrics)
        }),
{
    let t = r[i];
    assert forall|a: u64| #[trigger] graph_actions(t).contains(a) implies all_actions(
        r,
    ).to_multiset().count(a) >= 1 by {
        lemma_all_actions_contains(r, i, a);
    }
    assert forall|x: u64| #[trigger] t.target_graph@.contains(x) implies all_targets(
        r,
    ).to_multiset().count(x) >= 1 by {
        lemma_all_actions_contains(r, i, x);
    }
    let size = if graph_complete(t) {
        Some(graph_actions(t).len() as usize)
    } else {
        None
    };
    let d0 = TopLevelTargetAggregatedData::initial(t.label, size);
    lemma_actions_amortized_le(
        d0,
        graph_actions(t),
        executions,
        executed,
        all_actions(r).to_multiset(),
    );
    lemma_targets_amortized_le(
        top_level_after_actions(
            d0,
            graph_actions(t),
            executions,
            executed,
            all_actions(r).to_multiset(),
        ),
        t.target_graph@,
        analysis,
        all_targets(r).to_multiset(),
    );
}

proof fn lemma_execution_within(
    m: AggregatedBuildMetrics,
    ev: ActionExecutionMetrics,
    built: BuiltWhen,
    f: nat,
)
    requires
        this_build_within(m),
        f >= 1,
    ensures
        this_build_within(m.after_execution(ev, built, f)),
{
    lemma_div_le(ev.execution_time_us, f);
    lemma_div_le(ev.output_size_bytes, f);
    let time = ev.execution_time_us as int / f as int;
    let size = ev.output_size_bytes as int / f as int;
    assert(m.after_execution(ev, built, f).execution_time_us == saturated(m.execution_time_us, time));
    assert(m.after_execution(ev, built, f).output_size_bytes == saturated(m.output_size_bytes, size));
}

proof fn lemma_overall_actions_within(
    m: AggregatedBuildMetrics,
    actions: Seq<u64>,
    executions: Map<u64, ActionExecutionMetrics>,
    executed: Set<u64>,
)
    requires
        this_build_within(m),
    ensures
        this_build_within(overall_after_actions(m, actions, executions, executed)),
    decreases actions.len(),
{
    if actions.len() > 0 {
        lemma_overall_actions_within(m, actions.drop_last(), executions, executed);
    }
}

proof fn lemma_overall_targets_within(
    m: AggregatedBuildMetrics,
    targets: Seq<u64>,
    analysis: Map<u64, DeferredHolder>,
)
    requires
        this_build_within(m),
    ensures
        this_build_within(overall_after_targets(m, targets, analysis)),
    decreases targets.len(),
{
    if targets.len() > 0 {
        lemma_overall_targets_within(m, targets.drop_last(), analysis);
    }
}

proof fn lemma_top_level_actions_within(
    d: TopLevelTargetAggregatedData,
    actions: Seq<u64>,
    executions: Map<u64, ActionExecutionMetrics>,
    executed: Set<u64>,
    owners: Multiset<u64>,
)
    requires
        this_build_within(d.metrics),
        this_build_within(d.amortized_metrics),
        forall|a: u64| #[trigger] actions.contains(a) ==> owners.count(a) >= 1,
    ensures
        ({
            let e = top_level_after_actions(d, actions, executions, executed, owners);
            this_build_within(e.metrics) && this_build_within(e.amortized_metrics)
        }),
    decreases actions.len(),
{
    if actions.len() > 0 {
        assert forall|a: u64| #[trigger] actions.drop_last().contains(a) implies owners.count(a)
            >= 1 by {
            let j = choose|j: int| 0 <= j < actions.drop_last().len() && #[trigger] actions.drop_last()[j] == a;
            assert(actions[j] == a);
            assert(actions.contains(a));
        }
        assert(actions.contains(actions.last()));
        lemma_top_level_actions_within(d, actions.drop_last(), executions, executed, owners);
        let prev = top_level_after_actions(d, actions.drop_last(), executions, executed, owners);
        let a = actions.last();
        if executions.contains_key(a) {
            let ev = executions[a];
            let built = built_when(executed, a);
            lemma_execution_within(prev.metrics, ev, built, 1);
            lemma_execution_within(prev.amortized_metrics, ev, built, owners.count(a));
        }
    }
}

proof fn lemma_top_level_targets_within(
    d: TopLevelTargetAggregatedData,
    targets: Seq<u64>,
    analysis: Map<u64, DeferredHolder>,
    owners: Multiset<u64>,
)
    requires
        this_build_within(d.metrics),
        this_build_within(d.amortized_metrics),
    ensures
        ({
            let e = top_level_after_targets(d, targets, analysis, owners);
            this_build_within(e.metrics) && this_build_within(e.amortized_metrics)
        }),
    decreases targets.len(),
{
    if targets.len() > 0 {
        lemma_top_level_targets_within(d, targets.drop_last(), analysis, owners);
    }
}

/// Over all targets, what this build contributed to the execution time
/// and the output size is at most the whole.
pub proof fn law_overall_this_build_within_whole(
    r: Seq<TopLevelTraversal>,
    executions: Map<u64, ActionExecutionMetrics>,
    executed: Set<u64>,
    analysis: Map<u64, DeferredHolder>,
)
    ensures
        this_build_within(overall_metrics(r, executions, executed, analysis)),
{
    lemma_overall_actions_within(AggregatedBuildMetrics::zero(), all_actions(r), executions, executed);
    lemma_overall_targets_within(
        overall_after_actions(AggregatedBuildMetrics::zero(), all_actions(r), executions, executed),
        all_targets(r),
        analysis,
    );
}

/// For every top-level target, what this build contributed to the
/// execution time and the output size is at most the whole, in full and
/// amortized.
pub proof fn law_top_level_this_build_within_whole(
    r: Seq<TopLevelTraversal>,
    i: int,
    executions: Map<u64, ActionExecutionMetrics>,
    executed: Set<u64>,
    analysis: Map<u64, DeferredHolder>,
)
    requires
        0 <= i < r.len(),
    ensures
        this_build_within(top_level_data(r, i, executions, executed, analysis).metrics),
        this_build_within(top_level_data(r, i, executions, executed, analysis).amortized_metrics),
{
    let t = r[i];
    let size = if graph_complete(t) {
        Some(graph_actions(t).len() as usize)
    } else {
        None
    };
    let d0 = TopLevelTargetAggregatedData::initial(t.label, size);
    assert forall|a: u64| #[trigger] graph_actions(t).contains(a) implies all_actions(
        r,
    ).to_multiset().count(a) >= 1 by {
        lemma_all_actions_contains(r, i, a);
    }
    lemma_top_level_actions_within(
        d0,
        graph_actions(t),
        executions,
        executed,
        all_actions(r).to_multiset(),
    );
    lemma_top_level_targets_within(
        top_level_after_actions(
            d0,
            graph_actions(t),
            executions,
            executed,
            all_actions(r).to_multiset(),
        ),
        t.target_graph@,
        analysis,
        all_targets(r).to_multiset(),
    );
}

/// The overall action graph size is known only when every top-level
/// target's action graph is complete: one incomplete graph makes it `None`,
/// and when all are complete it is the number of distinct actions reached.
pub proof fn law_overall_size_needs_every_graph_complete(r: Seq<TopLevelTraversal>)
    ensures
        forall|i: int|
            0 <= i < r.len() && !graph_complete(#[trigger] r[i]) ==> overall_graph_size(r) is None,
        (forall|i: int| 0 <= i < r.len() ==> graph_complete(#[trigger] r[i])) ==> overall_graph_size(
            r,
        ) == Some(all_actions(r).to_set().len() as usize),
{
}

/// Whether executed action `a` reports memory peak `p`.
pub open spec fn reports_peak(executions: Map<u64, ActionExecutionMetrics>, a: u64, p: u64) -> bool {
    executions.contains_key(a) && executions[a].memory_peak == Some(p)
}

proof fn lemma_peak_after_actions(
    d: TopLevelTargetAggregatedData,
    actions: Seq<u64>,
    executions: Map<u64, ActionExecutionMetrics>,
    executed: Set<u64>,
    owners: Multiset<u64>,
)
    ensures
        ({
            let e = top_level_after_actions(d, actions, executions, executed, owners).max_memory_peak;
            &&& (d.max_memory_peak matches Some(c) ==> (e matches Some(m) && c <= m))
            &&& forall|a: u64, p: u64|
                actions.contains(a) && #[trigger] reports_peak(executions, a, p) ==> (e matches Some(
                    m,
                ) && p <= m)
            &&& (e matches Some(m) ==> (d.max_memory_peak == Some(m) || exists|a: u64|
                actions.contains(a) && #[trigger] reports_peak(executions, a, m)))
            &&& (e is None ==> d.max_memory_peak is None && forall|a: u64, p: u64|
                actions.contains(a) ==> !#[trigger] reports_peak(executions, a, p))
        }),
    decreases actions.len(),
{
    if actions.len() > 0 {
        let prev_actions = actions.drop_last();
        lemma_peak_after_actions(d, prev_actions, executions, executed, owners);
        let prev = top_level_after_actions(d, prev_actions, executions, executed, owners);
        let last = actions.last();
        let e = top_level_after_actions(d, actions, executions, executed, owners).max_memory_peak;
        assert(actions.contains(last));
        assert forall|a: u64| #[trigger] prev_actions.contains(a) implies actions.contains(a) by {
            let j = choose|j: int| 0 <= j < prev_actions.len() && #[trigger] prev_actions[j] == a;
            assert(actions[j] == a);
        }
        assert forall|a: u64| actions.contains(a) && a != last implies #[trigger] prev_actions.contains(a) by {
            let j = choose|j: int| 0 <= j < actions.len() && #[trigger] actions[j] == a;
            assert(prev_actions[j] == a);
        }
        if executions.contains_key(last) {
            assert(e == crate::aggregated_metrics::types::max_peak(
                prev.max_memory_peak,
                executions[last].memory_peak,
            ));
        } else {
            assert(e == prev.max_memory_peak);
        }
        assert forall|a: u64, p: u64|
            actions.contains(a) && #[trigger] reports_peak(executions, a, p) implies (e matches Some(
                m,
            ) && p <= m) by {
            if a != last {
                assert(prev_actions.contains(a));
            }
        }
        if e is Some {
            let m = e->0;
            if d.max_memory_peak != Some(m) {
                if prev.max_memory_peak == Some(m) {
                    let a = choose|a: u64| prev_actions.contains(a) && #[trigger] reports_peak(executions, a, m);
                    assert(actions.contains(a) && reports_peak(executions, a, m));
                } else {
                    assert(reports_peak(executions, last, m));
                }
            }
        }
        if e is None {
            assert forall|a: u64, p: u64| actions.contains(a) implies !#[trigger] reports_peak(executions, a, p) by {
                if a != last {
                    assert(prev_actions.contains(a));
                }
            }
        }
    }
}

proof fn lemma_peak_after_targets(
    d: TopLevelTargetAggregatedData,
    targets: Seq<u64>,
    analysis: Map<u64, DeferredHolder>,
    owners: Multiset<u64>,
)
    ensures
        top_level_after_targets(d, targets, analysis, owners).max_memory_peak == d.max_memory_peak,
    decreases targets.len(),
{
    if targets.len() > 0 {
        lemma_peak_after_targets(d, targets.drop_last(), analysis, owners);
    }
}

/// A top-level target's max memory peak is the largest peak that one of
/// its executed actions reports: it is at least every reported peak, it is
/// one of them, and it is `None` only when no executed action of the target
/// reports one.
pub proof fn law_max_memory_peak(
    r: Seq<TopLevelTraversal>,
    i: int,
    executions: Map<u64, ActionExecutionMetrics>,
    executed: Set<u64>,
    analysis: Map<u64, DeferredHolder>,
)
    requires
        0 <= i < r.len(),
    ensures
        ({
            let peak = top_level_data(r, i, executions, executed, analysis).max_memory_peak;
            &&& forall|a: u64, p: u64|
                graph_actions(r[i]).contains(a) && #[trigger] reports_peak(executions, a, p) ==> (
                peak matches Some(m) && p <= m)
            &&& (peak matches Some(m) ==> exists|a: u64|
                graph_actions(r[i]).contains(a) && #[trigger] reports_peak(executions, a, m))
            &&& (peak is None ==> forall|a: u64, p: u64|
                graph_actions(r[i]).contains(a) ==> !#[trigger] reports_peak(executions, a, p))
        }),
{
    let t = r[i];
    let size = if graph_complete(t) {
        Some(graph_actions(t).len() as usize)
    } else {
        None
    };
    let d0 = TopLevelTargetAggregatedData::initial(t.label, size);
    let owners = all_actions(r).to_multiset();
    lemma_peak_after_actions(d0, graph_actions(t), executions, executed, owners);
    lemma_peak_after_targets(
        top_level_after_actions(d0, graph_actions(t), executions, executed, owners),
        t.target_graph@,
        analysis,
        all_targets(r).to_multiset(),
    );
}

proof fn lemma_folds_keep_label_and_size(
    d: TopLevelTargetAggregatedData,
    actions: Seq<u64>,
    targets: Seq<u64>,
    executions: Map<u64, ActionExecutionMetrics>,
    executed: Set<u64>,
    analysis: Map<u64, DeferredHolder>,
    action_owners: Multiset<u64>,
    target_owners: Multiset<u64>,
)
    ensures
        top_level_after_actions(d, actions, executions, executed, action_owners).label == d.label,
        top_level_after_actions(d, actions, executions, executed, action_owners).action_graph_size
            == d.action_graph_size,
        top_level_after_targets(d, targets, analysis, target_owners).label == d.label,
        top_level_after_targets(d, targets, analysis, target_owners).action_graph_size
            == d.action_graph_size,
    decreases actions.len() + targets.len(),
{
    if actions.len() > 0 {
        lemma_folds_keep_label_and_size(
            d,
            actions.drop_last(),
            targets,
            executions,
            executed,
            analysis,
            action_owners,
            target_owners,
        );
    }
    if targets.len() > 0 {
        lemma_folds_keep_label_and_size(
            d,
            actions,
            targets.drop_last(),
            executions,
            executed,
            analysis,
            action_owners,
            target_owners,
        );
    }
}

/// Each top-level target's data carries the traversal's label, and its
/// action graph size is the number of actions of its graph when that graph
/// is complete, `None` otherwise.
pub proof fn law_top_level_label_and_size(
    r: Seq<TopLevelTraversal>,
    i: int,
    executions: Map<u64, ActionExecutionMetrics>,
    executed: Set<u64>,
    analysis: Map<u64, DeferredHolder>,
)
    requires
        0 <= i < r.len(),
    ensures
        top_level_data(r, i, executions, executed, analysis).label == r[i].label,
        graph_complete(r[i]) ==> top_level_data(r, i, executions, executed, analysis).action_graph_size
            == Some(graph_actions(r[i]).len() as usize),
        !graph_complete(r[i]) ==> top_level_data(
            r,
            i,
            executions,
            executed,
            analysis,
        ).action_graph_size is None,
{
    let t = r[i];
    let size = if graph_complete(t) {
        Some(graph_actions(t).len() as usize)
    } else {
        None
    };
    let d0 = TopLevelTargetAggregatedData::initial(t.label, size);
    let owners = all_actions(r).to_multiset();
    let towners = all_targets(r).to_multiset();
    lemma_folds_keep_label_and_size(d0, graph_actions(t), t.target_graph@, executions, executed, analysis, owners, towners);
    let d1 = top_level_after_actions(d0, graph_actions(t), executions, executed, owners);
    lemma_folds_keep_label_and_size(d1, Seq::empty(), t.target_graph@, executions, executed, analysis, owners, towners);
}

/// An execution of one action leaves the entries of every other action as
/// they were; analysis events leave every execution as it was, and an
/// execution leaves every analysis result as it was.
pub proof fn law_events_touch_only_their_entry(
    executions: Map<u64, ActionExecutionMetrics>,
    holders: Map<DeferredHolderKey, DeferredHolder>,
    metrics: ActionExecutionMetrics,
    other: u64,
    key: DeferredHolderKey,
    data: DeferredHolder,
)
    requires
        metrics.key != other,
    ensures
        executions_after(executions, DetailedAggregatedMetricsEvent::ActionExecuted(metrics)).contains_key(
            other,
        ) == executions.contains_key(other),
        executions.contains_key(other) ==> executions_after(
            executions,
            DetailedAggregatedMetricsEvent::ActionExecuted(metrics),
        )[other] == executions[other],
        executions_after(executions, DetailedAggregatedMetricsEvent::AnalysisStarted(key))
            == executions,
        executions_after(executions, DetailedAggregatedMetricsEvent::AnalysisComplete(key, data))
            == executions,
        holders_after(holders, DetailedAggregatedMetricsEvent::ActionExecuted(metrics)) == holders,
{
}

} // verus!
