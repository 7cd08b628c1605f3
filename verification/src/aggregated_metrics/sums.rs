//! The figures of a metrics computation are sums: over the distinct actions
//! and targets reached for the overall metrics, and over a top-level
//! target's own actions and targets for its metrics, divided by the number
//! of top-level targets that share each one for its amortized metrics;
//! exact while no sum reaches `u64::MAX`.

use vstd::prelude::*;

use crate::aggregated_metrics::amortization::amortized_share;
use crate::aggregated_metrics::amortization::distinct_sum;
use crate::aggregated_metrics::amortization::figure_follows;
use crate::aggregated_metrics::amortization::lemma_overall_actions_exact;
use crate::aggregated_metrics::amortization::lemma_overall_targets_keep;
use crate::aggregated_metrics::amortization::lemma_top_level_actions_exact;
use crate::aggregated_metrics::amortization::lemma_top_level_actions_full_exact;
use crate::aggregated_metrics::amortization::lemma_top_level_targets_keep;
use crate::aggregated_metrics::amortization::seq_sum;
use crate::aggregated_metrics::amortization::whole_figure;
use crate::aggregated_metrics::state::all_actions;
use crate::aggregated_metrics::state::all_targets;
use crate::aggregated_metrics::state::graph_actions;
use crate::aggregated_metrics::state::graph_complete;
use crate::aggregated_metrics::state::lemma_all_actions_contains;
use crate::aggregated_metrics::state::analysis_metrics_of;
use crate::aggregated_metrics::state::overall_after_actions;
use crate::aggregated_metrics::state::overall_after_targets;
use crate::aggregated_metrics::state::top_level_after_targets;
use crate::aggregated_metrics::types::saturated;
use vstd::multiset::Multiset;
use crate::aggregated_metrics::state::overall_metrics;
use crate::aggregated_metrics::state::top_level_after_actions;
use crate::aggregated_metrics::state::top_level_data;
use crate::aggregated_metrics::state::DeferredHolder;
use crate::aggregated_metrics::state::TopLevelTraversal;
use crate::aggregated_metrics::types::ActionExecutionMetrics;
use crate::aggregated_metrics::types::AggregatedBuildMetrics;
use crate::aggregated_metrics::types::TopLevelTargetAggregatedData;

verus! {

broadcast use {vstd::seq_lib::group_to_multiset_ensures, vstd::seq_lib::group_seq_properties};

/// Where no sum reaches `u64::MAX`, figure `sel` of the overall metrics is
/// the sum of `val` over the distinct actions reached that have an
/// execution; figure `sel` of the `i`-th top-level target's metrics is the
/// sum over its actions; and of its amortized metrics, the sum over its
/// actions of `val` divided by the number of times the action occurs over
/// all top-level targets.
pub open spec fn execution_figure_sums(
    r: Seq<TopLevelTraversal>,
    i: int,
    executions: Map<u64, ActionExecutionMetrics>,
    executed: Set<u64>,
    analysis: Map<u64, DeferredHolder>,
    sel: spec_fn(AggregatedBuildMetrics) -> u64,
    val: spec_fn(u64, ActionExecutionMetrics) -> u64,
) -> bool {
    let d = top_level_data(r, i, executions, executed, analysis);
    let whole = whole_figure(executions, val);
    let share = amortized_share(executions, all_actions(r).to_multiset(), val);
    &&& distinct_sum(all_actions(r), whole) <= u64::MAX ==> sel(
        overall_metrics(r, executions, executed, analysis),
    ) == distinct_sum(all_actions(r), whole)
    &&& seq_sum(graph_actions(r[i]), whole) <= u64::MAX ==> sel(d.metrics) == seq_sum(
        graph_actions(r[i]),
        whole,
    )
    &&& seq_sum(graph_actions(r[i]), share) <= u64::MAX ==> sel(d.amortized_metrics) == seq_sum(
        graph_actions(r[i]),
        share,
    )
}

proof fn lemma_execution_figure_sums(
    r: Seq<TopLevelTraversal>,
    i: int,
    executions: Map<u64, ActionExecutionMetrics>,
    executed: Set<u64>,
    analysis: Map<u64, DeferredHolder>,
    sel: spec_fn(AggregatedBuildMetrics) -> u64,
    val: spec_fn(u64, ActionExecutionMetrics) -> u64,
)
    requires
        0 <= i < r.len(),
        figure_follows(sel, val, executed),
        sel(AggregatedBuildMetrics::zero()) == 0,
    ensures
        execution_figure_sums(r, i, executions, executed, analysis, sel, val),
{
    let s = all_actions(r);
    let whole = whole_figure(executions, val);
    if distinct_sum(s, whole) <= u64::MAX {
        lemma_overall_actions_exact(AggregatedBuildMetrics::zero(), s, executions, executed, sel, val);
        lemma_overall_targets_keep(
            executed,
            overall_after_actions(AggregatedBuildMetrics::zero(), s, executions, executed),
            all_targets(r),
            analysis,
            sel,
            val,
        );
    }
    let t = r[i];
    let owners = s.to_multiset();
    assert forall|a: u64| #[trigger] graph_actions(t).contains(a) implies owners.count(a) >= 1 by {
        lemma_all_actions_contains(r, i, a);
    }
    let size = if graph_complete(t) {
        Some(graph_actions(t).len() as usize)
    } else {
        None
    };
    let d0 = TopLevelTargetAggregatedData::initial(t.label, size);
    let d1 = top_level_after_actions(d0, graph_actions(t), executions, executed, owners);
    lemma_top_level_targets_keep(
        executed,
        d1,
        t.target_graph@,
        analysis,
        all_targets(r).to_multiset(),
        sel,
        val,
    );
    if seq_sum(graph_actions(t), whole) <= u64::MAX {
        lemma_top_level_actions_full_exact(d0, graph_actions(t), executions, executed, owners, sel, val);
    }
    if seq_sum(graph_actions(t), amortized_share(executions, owners, val)) <= u64::MAX {
        lemma_top_level_actions_exact(d0, graph_actions(t), executions, executed, owners, sel, val);
    }
}

/// Execution time and output size, overall and for each top-level target,
/// are sums over the actions with an execution (see
/// `execution_figure_sums`); the parts contributed by this build are the
/// same sums over the actions that ran in this build.
pub proof fn law_execution_figures_are_sums(
    r: Seq<TopLevelTraversal>,
    i: int,
    executions: Map<u64, ActionExecutionMetrics>,
    executed: Set<u64>,
    analysis: Map<u64, DeferredHolder>,
)
    requires
        0 <= i < r.len(),
    ensures
        execution_figure_sums(
            r,
            i,
            executions,
            executed,
            analysis,
            |m: AggregatedBuildMetrics| m.execution_time_us,
            |a: u64, ev: ActionExecutionMetrics| ev.execution_time_us,
        ),
        execution_figure_sums(
            r,
            i,
            executions,
            executed,
            analysis,
            |m: AggregatedBuildMetrics| m.output_size_bytes,
            |a: u64, ev: ActionExecutionMetrics| ev.output_size_bytes,
        ),
        execution_figure_sums(
            r,
            i,
            executions,
            executed,
            analysis,
            |m: AggregatedBuildMetrics| m.this_build_execution_time_us,
            |a: u64, ev: ActionExecutionMetrics|
                if executed.contains(a) {
                    ev.execution_time_us
                } else {
                    0
                },
        ),
        execution_figure_sums(
            r,
            i,
            executions,
            executed,
            analysis,
            |m: AggregatedBuildMetrics| m.this_build_output_size_bytes,
            |a: u64, ev: ActionExecutionMetrics|
                if executed.contains(a) {
                    ev.output_size_bytes
                } else {
                    0
                },
        ),
{
    let sel1 = |m: AggregatedBuildMetrics| m.execution_time_us;
    let val1 = |a: u64, ev: ActionExecutionMetrics| ev.execution_time_us;
    let sel2 = |m: AggregatedBuildMetrics| m.output_size_bytes;
    let val2 = |a: u64, ev: ActionExecutionMetrics| ev.output_size_bytes;
    let sel3 = |m: AggregatedBuildMetrics| m.this_build_execution_time_us;
    let val3 = |a: u64, ev: ActionExecutionMetrics|
        if executed.contains(a) {
            ev.execution_time_us
        } else {
            0
        };
    let sel4 = |m: AggregatedBuildMetrics| m.this_build_output_size_bytes;
    let val4 = |a: u64, ev: ActionExecutionMetrics|
        if executed.contains(a) {
            ev.output_size_bytes
        } else {
            0
        };
    assert(figure_follows(sel1, val1, executed));
    assert(figure_follows(sel2, val2, executed));
    assert forall|m: AggregatedBuildMetrics, a: u64, ev: ActionExecutionMetrics, f: nat|
        f >= 1 implies sel3(m.after_execution(ev, crate::aggregated_metrics::state::built_when(executed, a), f))
        == crate::aggregated_metrics::types::saturated(sel3(m), val3(a, ev) as int / f as int) by {
        if !executed.contains(a) {
            assert(0int / (f as int) == 0) by (nonlinear_arith)
                requires
                    f >= 1,
            ;
        }
    }
    assert(figure_follows(sel3, val3, executed));
    assert forall|m: AggregatedBuildMetrics, a: u64, ev: ActionExecutionMetrics, f: nat|
        f >= 1 implies sel4(m.after_execution(ev, crate::aggregated_metrics::state::built_when(executed, a), f))
        == crate::aggregated_metrics::types::saturated(sel4(m), val4(a, ev) as int / f as int) by {
        if !executed.contains(a) {
            assert(0int / (f as int) == 0) by (nonlinear_arith)
                requires
                    f >= 1,
            ;
        }
    }
    assert(figure_follows(sel4, val4, executed));
    lemma_execution_figure_sums(r, i, executions, executed, analysis, sel1, val1);
    lemma_execution_figure_sums(r, i, executions, executed, analysis, sel2, val2);
    lemma_execution_figure_sums(r, i, executions, executed, analysis, sel3, val3);
    lemma_execution_figure_sums(r, i, executions, executed, analysis, sel4, val4);
}

/// How a figure of the metrics grows with the analysis of a target, whose
/// result `node` gives the figure `hval(node)`, and stays with executions.
pub open spec fn analysis_figure_follows(
    sel: spec_fn(AggregatedBuildMetrics) -> u64,
    hval: spec_fn(DeferredHolder) -> u64,
) -> bool {
    &&& forall|m: AggregatedBuildMetrics, node: DeferredHolder, f: nat|
        #![trigger m.after_analysis(analysis_metrics_of(node), f), hval(node)]
        f >= 1 ==> sel(m.after_analysis(analysis_metrics_of(node), f)) == saturated(
            sel(m),
            hval(node) as int / f as int,
        )
    &&& forall|m: AggregatedBuildMetrics, ev: ActionExecutionMetrics, b, f: nat|
        #![trigger m.after_execution(ev, b, f)]
        sel(m.after_execution(ev, b, f)) == sel(m)
}

/// A target's whole figure.
pub open spec fn target_figure(
    analysis: Map<u64, DeferredHolder>,
    hval: spec_fn(DeferredHolder) -> u64,
) -> spec_fn(u64) -> int {
    |t: u64| hval(analysis[t]) as int
}

/// A target's amortized share of its figure.
pub open spec fn target_share(
    analysis: Map<u64, DeferredHolder>,
    owners: Multiset<u64>,
    hval: spec_fn(DeferredHolder) -> u64,
) -> spec_fn(u64) -> int {
    |t: u64|
        if owners.count(t) > 0 {
            hval(analysis[t]) as int / owners.count(t) as int
        } else {
            0
        }
}

proof fn lemma_overall_actions_keep(
    m: AggregatedBuildMetrics,
    actions: Seq<u64>,
    executions: Map<u64, ActionExecutionMetrics>,
    executed: Set<u64>,
    sel: spec_fn(AggregatedBuildMetrics) -> u64,
    hval: spec_fn(DeferredHolder) -> u64,
)
    requires
        analysis_figure_follows(sel, hval),
    ensures
        sel(overall_after_actions(m, actions, executions, executed)) == sel(m),
    decreases actions.len(),
{
    if actions.len() > 0 {
        lemma_overall_actions_keep(m, actions.drop_last(), executions, executed, sel, hval);
    }
}

proof fn lemma_overall_targets_exact(
    m: AggregatedBuildMetrics,
    targets: Seq<u64>,
    analysis: Map<u64, DeferredHolder>,
    sel: spec_fn(AggregatedBuildMetrics) -> u64,
    hval: spec_fn(DeferredHolder) -> u64,
)
    requires
        analysis_figure_follows(sel, hval),
        sel(m) + distinct_sum(targets, target_figure(analysis, hval)) <= u64::MAX,
    ensures
        sel(overall_after_targets(m, targets, analysis)) == sel(m) + distinct_sum(
            targets,
            target_figure(analysis, hval),
        ),
    decreases targets.len(),
{
    if targets.len() > 0 {
        let t = targets.last();
        assert(hval(analysis[t]) as int / 1int == hval(analysis[t]) as int);
        lemma_overall_targets_exact(m, targets.drop_last(), analysis, sel, hval);
    }
}

proof fn lemma_top_level_actions_keep(
    d: TopLevelTargetAggregatedData,
    actions: Seq<u64>,
    executions: Map<u64, ActionExecutionMetrics>,
    executed: Set<u64>,
    owners: Multiset<u64>,
    sel: spec_fn(AggregatedBuildMetrics) -> u64,
    hval: spec_fn(DeferredHolder) -> u64,
)
    requires
        analysis_figure_follows(sel, hval),
    ensures
        sel(top_level_after_actions(d, actions, executions, executed, owners).metrics) == sel(
            d.metrics,
        ),
        sel(top_level_after_actions(d, actions, executions, executed, owners).amortized_metrics)
            == sel(d.amortized_metrics),
    decreases actions.len(),
{
    if actions.len() > 0 {
        lemma_top_level_actions_keep(d, actions.drop_last(), executions, executed, owners, sel, hval);
    }
}

proof fn lemma_top_level_targets_exact(
    d: TopLevelTargetAggregatedData,
    targets: Seq<u64>,
    analysis: Map<u64, DeferredHolder>,
    owners: Multiset<u64>,
    sel: spec_fn(AggregatedBuildMetrics) -> u64,
    hval: spec_fn(DeferredHolder) -> u64,
)
    requires
        analysis_figure_follows(sel, hval),
        forall|t: u64| #[trigger] targets.contains(t) ==> owners.count(t) >= 1,
    ensures
        sel(d.metrics) + seq_sum(targets, target_figure(analysis, hval)) <= u64::MAX ==> sel(
            top_level_after_targets(d, targets, analysis, owners).metrics,
        ) == sel(d.metrics) + seq_sum(targets, target_figure(analysis, hval)),
        sel(d.amortized_metrics) + seq_sum(targets, target_share(analysis, owners, hval))
            <= u64::MAX ==> sel(
            top_level_after_targets(d, targets, analysis, owners).amortized_metrics,
        ) == sel(d.amortized_metrics) + seq_sum(targets, target_share(analysis, owners, hval)),
    decreases targets.len(),
{
    if targets.len() > 0 {
        let t = targets.last();
        assert(targets.contains(t));
        assert forall|x: u64| #[trigger] targets.drop_last().contains(x) implies owners.count(x)
            >= 1 by {
            let j = choose|j: int| 0 <= j < targets.drop_last().len() && #[trigger] targets.drop_last()[j] == x;
            assert(targets[j] == x);
            assert(targets.contains(x));
        }
        let v = hval(analysis[t]) as int;
        let c = owners.count(t) as int;
        assert(v / 1int == v);
        assert(v / c >= 0) by (nonlinear_arith)
            requires
                v >= 0,
                c >= 1,
        ;
        lemma_top_level_targets_exact(d, targets.drop_last(), analysis, owners, sel, hval);
    }
}

/// Where no sum reaches `u64::MAX`, figure `sel` of the overall metrics is
/// the sum of `hval` over the analyses of the distinct targets reached;
/// figure `sel` of the `i`-th top-level target's metrics is the sum over
/// its targets; and of its amortized metrics, the sum over its targets of
/// `hval` divided by the number of times the target occurs over all
/// top-level targets.
pub open spec fn analysis_figure_sums(
    r: Seq<TopLevelTraversal>,
    i: int,
    executions: Map<u64, ActionExecutionMetrics>,
    executed: Set<u64>,
    analysis: Map<u64, DeferredHolder>,
    sel: spec_fn(AggregatedBuildMetrics) -> u64,
    hval: spec_fn(DeferredHolder) -> u64,
) -> bool {
    let d = top_level_data(r, i, executions, executed, analysis);
    let whole = target_figure(analysis, hval);
    let share = target_share(analysis, all_targets(r).to_multiset(), hval);
    &&& distinct_sum(all_targets(r), whole) <= u64::MAX ==> sel(
        overall_metrics(r, executions, executed, analysis),
    ) == distinct_sum(all_targets(r), whole)
    &&& seq_sum(r[i].target_graph@, whole) <= u64::MAX ==> sel(d.metrics) == seq_sum(
        r[i].target_graph@,
        whole,
    )
    &&& seq_sum(r[i].target_graph@, share) <= u64::MAX ==> sel(d.amortized_metrics) == seq_sum(
        r[i].target_graph@,
        share,
    )
}

proof fn lemma_analysis_figure_sums(
    r: Seq<TopLevelTraversal>,
    i: int,
    executions: Map<u64, ActionExecutionMetrics>,
    executed: Set<u64>,
    analysis: Map<u64, DeferredHolder>,
    sel: spec_fn(AggregatedBuildMetrics) -> u64,
    hval: spec_fn(DeferredHolder) -> u64,
)
    requires
        0 <= i < r.len(),
        analysis_figure_follows(sel, hval),
        sel(AggregatedBuildMetrics::zero()) == 0,
    ensures
        analysis_figure_sums(r, i, executions, executed, analysis, sel, hval),
{
    let s = all_actions(r);
    let m1 = overall_after_actions(AggregatedBuildMetrics::zero(), s, executions, executed);
    lemma_overall_actions_keep(AggregatedBuildMetrics::zero(), s, executions, executed, sel, hval);
    if distinct_sum(all_targets(r), target_figure(analysis, hval)) <= u64::MAX {
        lemma_overall_targets_exact(m1, all_targets(r), analysis, sel, hval);
    }
    let t = r[i];
    let owners = all_targets(r).to_multiset();
    assert forall|x: u64| #[trigger] t.target_graph@.contains(x) implies owners.count(x) >= 1 by {
        lemma_all_actions_contains(r, i, x);
    }
    let size = if graph_complete(t) {
        Some(graph_actions(t).len() as usize)
    } else {
        None
    };
    let d0 = TopLevelTargetAggregatedData::initial(t.label, size);
    let d1 = top_level_after_actions(d0, graph_actions(t), executions, executed, s.to_multiset());
    lemma_top_level_actions_keep(d0, graph_actions(t), executions, executed, s.to_multiset(), sel, hval);
    lemma_top_level_targets_exact(d1, t.target_graph@, analysis, owners, sel, hval);
}

/// Declared actions and retained analysis memory, overall and for each
/// top-level target, are sums over the analyses of the targets reached (see
/// `analysis_figure_sums`).
pub proof fn law_analysis_figures_are_sums(
    r: Seq<TopLevelTraversal>,
    i: int,
    executions: Map<u64, ActionExecutionMetrics>,
    executed: Set<u64>,
    analysis: Map<u64, DeferredHolder>,
)
    requires
        0 <= i < r.len(),
    ensures
        analysis_figure_sums(
            r,
            i,
            executions,
            executed,
            analysis,
            |m: AggregatedBuildMetrics| m.declared_actions,
            |node: DeferredHolder| node.declared_actions,
        ),
        analysis_figure_sums(
            r,
            i,
            executions,
            executed,
            analysis,
            |m: AggregatedBuildMetrics| m.retained_analysis_memory_bytes,
            |node: DeferredHolder| node.retained_memory->0,
        ),
{
    let sel1 = |m: AggregatedBuildMetrics| m.declared_actions;
    let val1 = |node: DeferredHolder| node.declared_actions;
    let sel2 = |m: AggregatedBuildMetrics| m.retained_analysis_memory_bytes;
    let val2 = |node: DeferredHolder| node.retained_memory->0;
    assert(analysis_figure_follows(sel1, val1));
    assert(analysis_figure_follows(sel2, val2));
    lemma_analysis_figure_sums(r, i, executions, executed, analysis, sel1, val1);
    lemma_analysis_figure_sums(r, i, executions, executed, analysis, sel2, val2);
}

} // verus!
