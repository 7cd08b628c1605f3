//! Amortization shares out each action among the top-level targets that
//! reach it: summed over all top-level targets, the amortized figures never
//! exceed the figures counted once per action over all targets.

use vstd::prelude::*;
use vstd::multiset::Multiset;

use crate::aggregated_metrics::state::all_actions;
use crate::aggregated_metrics::state::all_targets;
use crate::aggregated_metrics::state::built_when;
use crate::aggregated_metrics::state::graph_actions;
use crate::aggregated_metrics::state::graph_complete;
use crate::aggregated_metrics::state::lemma_all_actions_contains;
use crate::aggregated_metrics::state::overall_after_actions;
use crate::aggregated_metrics::state::overall_after_targets;
use crate::aggregated_metrics::state::overall_metrics;
use crate::aggregated_metrics::state::top_level_after_actions;
use crate::aggregated_metrics::state::top_level_after_targets;
use crate::aggregated_metrics::state::top_level_data;
use crate::aggregated_metrics::state::DeferredHolder;
use crate::aggregated_metrics::state::TopLevelTraversal;
use crate::aggregated_metrics::types::saturated;
use crate::aggregated_metrics::types::ActionExecutionMetrics;
use crate::aggregated_metrics::types::AggregatedBuildMetrics;
use crate::aggregated_metrics::types::TopLevelTargetAggregatedData;

verus! {

broadcast use {vstd::seq_lib::group_to_multiset_ensures, vstd::seq_lib::group_seq_properties};

/// The sum of `g` over the elements of `s`, repetitions included.
pub open spec fn seq_sum(s: Seq<u64>, g: spec_fn(u64) -> int) -> int
    decreases s.len(),
{
    if s.len() == 0 {
        0
    } else {
        seq_sum(s.drop_last(), g) + g(s.last())
    }
}

/// The sum of `g` over the distinct elements of `s`.
pub open spec fn distinct_sum(s: Seq<u64>, g: spec_fn(u64) -> int) -> int
    decreases s.len(),
{
    if s.len() == 0 {
        0
    } else {
        distinct_sum(s.drop_last(), g) + if s.drop_last().contains(s.last()) {
            0
        } else {
            g(s.last())
        }
    }
}

pub(crate) proof fn lemma_seq_sum_concat(x: Seq<u64>, y: Seq<u64>, g: spec_fn(u64) -> int)
    ensures
        seq_sum(x + y, g) == seq_sum(x, g) + seq_sum(y, g),
    decreases y.len(),
{
    if y.len() > 0 {
        assert((x + y).drop_last() =~= x + y.drop_last());
        lemma_seq_sum_concat(x, y.drop_last(), g);
    } else {
        assert(x + y =~= x);
    }
}

pub(crate) proof fn lemma_seq_sum_nonneg(s: Seq<u64>, g: spec_fn(u64) -> int)
    requires
        forall|a: u64| #[trigger] g(a) >= 0,
    ensures
        seq_sum(s, g) >= 0,
    decreases s.len(),
{
    if s.len() > 0 {
        lemma_seq_sum_nonneg(s.drop_last(), g);
    }
}

/// Changing `g` at one point changes the distinct sum by the change there,
/// if the point occurs.
proof fn lemma_distinct_sum_point(
    t: Seq<u64>,
    f1: spec_fn(u64) -> int,
    f2: spec_fn(u64) -> int,
    x: u64,
)
    requires
        forall|a: u64| a != x ==> #[trigger] f1(a) == f2(a),
    ensures
        distinct_sum(t, f2) == distinct_sum(t, f1) + if t.contains(x) {
            f2(x) - f1(x)
        } else {
            0
        },
    decreases t.len(),
{
    if t.len() > 0 {
        let u = t.drop_last();
        lemma_distinct_sum_point(u, f1, f2, x);
        if t.contains(x) && !u.contains(x) {
            assert(t.last() == x) by {
                let j = choose|j: int| 0 <= j < t.len() && #[trigger] t[j] == x;
                if j < t.len() - 1 {
                    assert(u[j] == x);
                }
            }
        }
        if u.contains(x) {
            let j = choose|j: int| 0 <= j < u.len() && #[trigger] u[j] == x;
            assert(t[j] == x);
        }
    }
}

/// A sum over all elements is the sum over distinct elements of each
/// element's number of occurrences times its value.
proof fn lemma_seq_sum_grouped(s: Seq<u64>, g: spec_fn(u64) -> int)
    ensures
        seq_sum(s, g) == distinct_sum(s, |a: u64| s.to_multiset().count(a) * g(a)),
    decreases s.len(),
{
    if s.len() > 0 {
        let t = s.drop_last();
        let x = s.last();
        lemma_seq_sum_grouped(t, g);
        assert(s =~= t.push(x));
        assert(s.to_multiset() =~= t.to_multiset().insert(x));
        let f1 = |a: u64| t.to_multiset().count(a) * g(a);
        let f2 = |a: u64| s.to_multiset().count(a) * g(a);
        assert forall|a: u64| a != x implies #[trigger] f1(a) == f2(a) by {}
        lemma_distinct_sum_point(t, f1, f2, x);
        assert(f2(x) - f1(x) == g(x)) by (nonlinear_arith)
            requires
                f2(x) == s.to_multiset().count(x) * g(x),
                f1(x) == t.to_multiset().count(x) * g(x),
                s.to_multiset().count(x) == t.to_multiset().count(x) + 1,
        ;
        if !t.contains(x) {
            assert(t.to_multiset().count(x) == 0);
        }
    }
}

proof fn lemma_distinct_sum_mono(s: Seq<u64>, f: spec_fn(u64) -> int, h: spec_fn(u64) -> int)
    requires
        forall|a: u64| #[trigger] s.contains(a) ==> f(a) <= h(a),
    ensures
        distinct_sum(s, f) <= distinct_sum(s, h),
    decreases s.len(),
{
    if s.len() > 0 {
        assert forall|a: u64| #[trigger] s.drop_last().contains(a) implies f(a) <= h(a) by {
            let j = choose|j: int| 0 <= j < s.drop_last().len() && #[trigger] s.drop_last()[j] == a;
            assert(s[j] == a);
            assert(s.contains(a));
        }
        lemma_distinct_sum_mono(s.drop_last(), f, h);
        assert(s.contains(s.last()));
    }
}

/// How a figure of the metrics grows with an execution of an action, where
/// `executed` holds the actions that ran in this build, and with an
/// analysis.
pub open spec fn figure_follows(
    sel: spec_fn(AggregatedBuildMetrics) -> u64,
    val: spec_fn(u64, ActionExecutionMetrics) -> u64,
    executed: Set<u64>,
) -> bool {
    &&& forall|m: AggregatedBuildMetrics, a: u64, ev: ActionExecutionMetrics, f: nat|
        #![trigger m.after_execution(ev, built_when(executed, a), f), val(a, ev)]
        f >= 1 ==> sel(m.after_execution(ev, built_when(executed, a), f)) == saturated(
            sel(m),
            val(a, ev) as int / f as int,
        )
    &&& forall|m: AggregatedBuildMetrics, am, f: nat|
        #![trigger m.after_analysis(am, f)]
        sel(m.after_analysis(am, f)) == sel(m)
}

/// The amortized share of an action's figure.
pub open spec fn amortized_share(
    executions: Map<u64, ActionExecutionMetrics>,
    owners: Multiset<u64>,
    val: spec_fn(u64, ActionExecutionMetrics) -> u64,
) -> spec_fn(u64) -> int {
    |a: u64|
        if executions.contains_key(a) && owners.count(a) > 0 {
            val(a, executions[a]) as int / owners.count(a) as int
        } else {
            0
        }
}

/// An action's whole figure.
pub open spec fn whole_figure(
    executions: Map<u64, ActionExecutionMetrics>,
    val: spec_fn(u64, ActionExecutionMetrics) -> u64,
) -> spec_fn(u64) -> int {
    |a: u64|
        if executions.contains_key(a) {
            val(a, executions[a]) as int
        } else {
            0
        }
}

pub(crate) proof fn lemma_top_level_actions_exact(
    d: TopLevelTargetAggregatedData,
    actions: Seq<u64>,
    executions: Map<u64, ActionExecutionMetrics>,
    executed: Set<u64>,
    owners: Multiset<u64>,
    sel: spec_fn(AggregatedBuildMetrics) -> u64,
    val: spec_fn(u64, ActionExecutionMetrics) -> u64,
)
    requires
        figure_follows(sel, val, executed),
        forall|a: u64| #[trigger] actions.contains(a) ==> owners.count(a) >= 1,
        sel(d.amortized_metrics) + seq_sum(actions, amortized_share(executions, owners, val))
            <= u64::MAX,
    ensures
        sel(top_level_after_actions(d, actions, executions, executed, owners).amortized_metrics)
            == sel(d.amortized_metrics) + seq_sum(
            actions,
            amortized_share(executions, owners, val),
        ),
    decreases actions.len(),
{
    if actions.len() > 0 {
        let g = amortized_share(executions, owners, val);
        let a = actions.last();
        assert(actions.contains(a));
        assert forall|b: u64| #[trigger] actions.drop_last().contains(b) implies owners.count(b)
            >= 1 by {
            let j = choose|j: int| 0 <= j < actions.drop_last().len() && #[trigger] actions.drop_last()[j] == b;
            assert(actions[j] == b);
            assert(actions.contains(b));
        }
        assert(g(a) >= 0) by {
            if executions.contains_key(a) {
                let v = val(a, executions[a]) as int;
                let c = owners.count(a) as int;
                assert(v / c >= 0) by (nonlinear_arith)
                    requires
                        v >= 0,
                        c >= 1,
                ;
            }
        }
        lemma_top_level_actions_exact(d, actions.drop_last(), executions, executed, owners, sel, val);
    }
}

pub(crate) proof fn lemma_top_level_actions_full_exact(
    d: TopLevelTargetAggregatedData,
    actions: Seq<u64>,
    executions: Map<u64, ActionExecutionMetrics>,
    executed: Set<u64>,
    owners: Multiset<u64>,
    sel: spec_fn(AggregatedBuildMetrics) -> u64,
    val: spec_fn(u64, ActionExecutionMetrics) -> u64,
)
    requires
        figure_follows(sel, val, executed),
        sel(d.metrics) + seq_sum(actions, whole_figure(executions, val)) <= u64::MAX,
    ensures
        sel(top_level_after_actions(d, actions, executions, executed, owners).metrics) == sel(
            d.metrics,
        ) + seq_sum(actions, whole_figure(executions, val)),
    decreases actions.len(),
{
    if actions.len() > 0 {
        let a = actions.last();
        if executions.contains_key(a) {
            assert(val(a, executions[a]) as int / 1int == val(a, executions[a]) as int);
        }
        lemma_top_level_actions_full_exact(d, actions.drop_last(), executions, executed, owners, sel, val);
    }
}

pub(crate) proof fn lemma_top_level_targets_keep(
    executed: Set<u64>,
    d: TopLevelTargetAggregatedData,
    targets: Seq<u64>,
    analysis: Map<u64, DeferredHolder>,
    owners: Multiset<u64>,
    sel: spec_fn(AggregatedBuildMetrics) -> u64,
    val: spec_fn(u64, ActionExecutionMetrics) -> u64,
)
    requires
        figure_follows(sel, val, executed),
    ensures
        sel(top_level_after_targets(d, targets, analysis, owners).amortized_metrics) == sel(
            d.amortized_metrics,
        ),
        sel(top_level_after_targets(d, targets, analysis, owners).metrics) == sel(d.metrics),
    decreases targets.len(),
{
    if targets.len() > 0 {
        lemma_top_level_targets_keep(executed, d, targets.drop_last(), analysis, owners, sel, val);
    }
}

pub(crate) proof fn lemma_overall_actions_exact(
    m: AggregatedBuildMetrics,
    actions: Seq<u64>,
    executions: Map<u64, ActionExecutionMetrics>,
    executed: Set<u64>,
    sel: spec_fn(AggregatedBuildMetrics) -> u64,
    val: spec_fn(u64, ActionExecutionMetrics) -> u64,
)
    requires
        figure_follows(sel, val, executed),
        sel(m) + distinct_sum(actions, whole_figure(executions, val)) <= u64::MAX,
    ensures
        sel(overall_after_actions(m, actions, executions, executed)) == sel(m) + distinct_sum(
            actions,
            whole_figure(executions, val),
        ),
    decreases actions.len(),
{
    if actions.len() > 0 {
        let a = actions.last();
        if executions.contains_key(a) {
            assert(val(a, executions[a]) as int / 1int == val(a, executions[a]) as int);
        }
        lemma_overall_actions_exact(m, actions.drop_last(), executions, executed, sel, val);
    }
}

pub(crate) proof fn lemma_overall_targets_keep(
    executed: Set<u64>,
    m: AggregatedBuildMetrics,
    targets: Seq<u64>,
    analysis: Map<u64, DeferredHolder>,
    sel: spec_fn(AggregatedBuildMetrics) -> u64,
    val: spec_fn(u64, ActionExecutionMetrics) -> u64,
)
    requires
        figure_follows(sel, val, executed),
    ensures
        sel(overall_after_targets(m, targets, analysis)) == sel(m),
    decreases targets.len(),
{
    if targets.len() > 0 {
        lemma_overall_targets_keep(executed, m, targets.drop_last(), analysis, sel, val);
    }
}

/// The sum over the first `n` top-level targets of a figure of their
/// amortized metrics.
pub open spec fn amortized_total(
    r: Seq<TopLevelTraversal>,
    n: int,
    executions: Map<u64, ActionExecutionMetrics>,
    executed: Set<u64>,
    analysis: Map<u64, DeferredHolder>,
    sel: spec_fn(AggregatedBuildMetrics) -> u64,
) -> int
    decreases n,
{
    if n <= 0 {
        0
    } else {
        amortized_total(r, n - 1, executions, executed, analysis, sel) + sel(
            top_level_data(r, n - 1, executions, executed, analysis).amortized_metrics,
        ) as int
    }
}

/// The sum over traversals of their actions' shares equals the sum over
/// all their actions together.
proof fn lemma_shares_over_traversals(r: Seq<TopLevelTraversal>, n: int, g: spec_fn(u64) -> int)
    requires
        0 <= n <= r.len(),
    ensures
        seq_sum(all_actions(r.take(n)), g) == shares_upto(r, n, g),
    decreases n,
{
    if n > 0 {
        lemma_shares_over_traversals(r, n - 1, g);
        assert(r.take(n).drop_last() =~= r.take(n - 1));
        lemma_seq_sum_concat(all_actions(r.take(n - 1)), graph_actions(r[n - 1]), g);
    }
}

/// The sum of the shares of the actions of the first `n` traversals, one
/// traversal at a time.
pub open spec fn shares_upto(r: Seq<TopLevelTraversal>, n: int, g: spec_fn(u64) -> int) -> int
    decreases n,
{
    if n <= 0 {
        0
    } else {
        shares_upto(r, n - 1, g) + seq_sum(graph_actions(r[n - 1]), g)
    }
}

proof fn lemma_shares_upto_parts(r: Seq<TopLevelTraversal>, n: int, g: spec_fn(u64) -> int)
    requires
        0 <= n <= r.len(),
        forall|a: u64| #[trigger] g(a) >= 0,
    ensures
        forall|i: int| 0 <= i < n ==> seq_sum(graph_actions(#[trigger] r[i]), g) <= shares_upto(r, n, g),
        shares_upto(r, n, g) >= 0,
    decreases n,
{
    if n > 0 {
        lemma_shares_upto_parts(r, n - 1, g);
        lemma_seq_sum_nonneg(graph_actions(r[n - 1]), g);
    }
}

proof fn lemma_amortized_total_is_shares(
    r: Seq<TopLevelTraversal>,
    n: int,
    executions: Map<u64, ActionExecutionMetrics>,
    executed: Set<u64>,
    analysis: Map<u64, DeferredHolder>,
    sel: spec_fn(AggregatedBuildMetrics) -> u64,
    val: spec_fn(u64, ActionExecutionMetrics) -> u64,
)
    requires
        0 <= n <= r.len(),
        figure_follows(sel, val, executed),
        sel(AggregatedBuildMetrics::zero()) == 0,
        forall|i: int|
            0 <= i < r.len() ==> seq_sum(
                graph_actions(#[trigger] r[i]),
                amortized_share(executions, all_actions(r).to_multiset(), val),
            ) <= u64::MAX,
    ensures
        amortized_total(r, n, executions, executed, analysis, sel) == shares_upto(
            r,
            n,
            amortized_share(executions, all_actions(r).to_multiset(), val),
        ),
    decreases n,
{
    if n > 0 {
        lemma_amortized_total_is_shares(r, n - 1, executions, executed, analysis, sel, val);
        let i = n - 1;
        let t = r[i];
        let owners = all_actions(r).to_multiset();
        assert forall|a: u64| #[trigger] graph_actions(t).contains(a) implies owners.count(a)
            >= 1 by {
            lemma_all_actions_contains(r, i, a);
        }
        let size = if graph_complete(t) {
            Some(graph_actions(t).len() as usize)
        } else {
            None
        };
        let d0 = TopLevelTargetAggregatedData::initial(t.label, size);
        lemma_top_level_actions_exact(d0, graph_actions(t), executions, executed, owners, sel, val);
        lemma_top_level_targets_keep(
            executed,
            top_level_after_actions(d0, graph_actions(t), executions, executed, owners),
            t.target_graph@,
            analysis,
            all_targets(r).to_multiset(),
            sel,
            val,
        );
    }
}

proof fn lemma_amortized_at_most_whole(
    r: Seq<TopLevelTraversal>,
    executions: Map<u64, ActionExecutionMetrics>,
    executed: Set<u64>,
    analysis: Map<u64, DeferredHolder>,
    sel: spec_fn(AggregatedBuildMetrics) -> u64,
    val: spec_fn(u64, ActionExecutionMetrics) -> u64,
)
    requires
        figure_follows(sel, val, executed),
        sel(AggregatedBuildMetrics::zero()) == 0,
        distinct_sum(all_actions(r), whole_figure(executions, val)) <= u64::MAX,
    ensures
        amortized_total(r, r.len() as int, executions, executed, analysis, sel) <= sel(
            overall_metrics(r, executions, executed, analysis),
        ),
{
    let s = all_actions(r);
    let owners = s.to_multiset();
    let g = amortized_share(executions, owners, val);
    let h = whole_figure(executions, val);
    assert forall|a: u64| #[trigger] g(a) >= 0 by {
        if executions.contains_key(a) && owners.count(a) > 0 {
            let v = val(a, executions[a]) as int;
            let c = owners.count(a) as int;
            assert(v / c >= 0) by (nonlinear_arith)
                requires
                    v >= 0,
                    c >= 1,
            ;
        }
    }
    // Summed over the targets, the shares are the shares of all actions.
    assert(r.take(r.len() as int) =~= r);
    lemma_shares_over_traversals(r, r.len() as int, g);
    // Grouped by action, each action's shares add up to at most its figure.
    lemma_seq_sum_grouped(s, g);
    let grouped = |a: u64| owners.count(a) * g(a);
    assert forall|a: u64| #[trigger] s.contains(a) implies grouped(a) <= h(a) by {
        assert(owners.count(a) > 0);
        if executions.contains_key(a) {
            let v = val(a, executions[a]) as int;
            let c = owners.count(a) as int;
            assert(c * (v / c) <= v) by (nonlinear_arith)
                requires
                    v >= 0,
                    c >= 1,
            ;
        }
    }
    lemma_distinct_sum_mono(s, grouped, h);
    // So no per-target sum saturates, and each is exact.
    lemma_shares_upto_parts(r, r.len() as int, g);
    lemma_amortized_total_is_shares(r, r.len() as int, executions, executed, analysis, sel, val);
    // And the whole is exact too.
    lemma_overall_actions_exact(AggregatedBuildMetrics::zero(), s, executions, executed, sel, val);
    lemma_overall_targets_keep(
        executed,
        overall_after_actions(AggregatedBuildMetrics::zero(), s, executions, executed),
        all_targets(r),
        analysis,
        sel,
        val,
    );
}

/// Summed over all top-level targets, the amortized execution time and
/// output size are at most the overall ones, where the overall sums do not
/// reach `u64::MAX`.
pub proof fn law_amortized_shares_add_up(
    r: Seq<TopLevelTraversal>,
    executions: Map<u64, ActionExecutionMetrics>,
    executed: Set<u64>,
    analysis: Map<u64, DeferredHolder>,
)
    requires
        distinct_sum(
            all_actions(r),
            whole_figure(executions, |a: u64, ev: ActionExecutionMetrics| ev.execution_time_us),
        ) <= u64::MAX,
        distinct_sum(
            all_actions(r),
            whole_figure(executions, |a: u64, ev: ActionExecutionMetrics| ev.output_size_bytes),
        ) <= u64::MAX,
    ensures
        amortized_total(
            r,
            r.len() as int,
            executions,
            executed,
            analysis,
            |m: AggregatedBuildMetrics| m.execution_time_us,
        ) <= overall_metrics(r, executions, executed, analysis).execution_time_us,
        amortized_total(
            r,
            r.len() as int,
            executions,
            executed,
            analysis,
            |m: AggregatedBuildMetrics| m.output_size_bytes,
        ) <= overall_metrics(r, executions, executed, analysis).output_size_bytes,
{
    let sel_time = |m: AggregatedBuildMetrics| m.execution_time_us;
    let val_time = |a: u64, ev: ActionExecutionMetrics| ev.execution_time_us;
    let sel_size = |m: AggregatedBuildMetrics| m.output_size_bytes;
    let val_size = |a: u64, ev: ActionExecutionMetrics| ev.output_size_bytes;
    assert(figure_follows(sel_time, val_time, executed));
    assert(figure_follows(sel_size, val_size, executed));
    lemma_amortized_at_most_whole(r, executions, executed, analysis, sel_time, val_time);
    lemma_amortized_at_most_whole(r, executions, executed, analysis, sel_size, val_size);
}

} // verus!
