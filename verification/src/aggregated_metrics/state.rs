use vstd::prelude::*;
use vstd::multiset::Multiset;

use core::time::Duration;
use std::collections::HashMap;
use std::collections::HashSet;
use std::time::Instant;

use crate::aggregated_metrics::types::ActionExecutionMetrics;
use crate::aggregated_metrics::types::AggregatedBuildMetrics;
use crate::aggregated_metrics::types::AllTargetsAggregatedData;
use crate::aggregated_metrics::types::AnalysisMetrics;
use crate::aggregated_metrics::types::BuiltWhen;
use crate::aggregated_metrics::types::DetailedAggregatedMetrics;
use crate::aggregated_metrics::types::TopLevelTargetAggregatedData;
use crate::error::Buck2Error;

verus! {

broadcast use {
    vstd::std_specs::hash::group_hash_axioms,
    vstd::seq_lib::group_to_multiset_ensures,
    vstd::seq_lib::group_seq_properties,
};

#[verifier::external_type_specification]
#[verifier::external_body]
pub struct ExInstant(Instant);

/// Calls `std::time::Instant::elapsed`: the time since `start`. Nothing is
/// stated of the result, which depends on the clock.
#[verifier::external_body]
fn instant_elapsed(start: &Instant) -> (res: Duration) {
    start.elapsed()
}

/// Key of a deferred computation's result: the analysis of a configured
/// target, or a dynamic lambda.
#[derive(Clone, Copy, Debug, PartialEq, Eq, Structural)]
pub enum DeferredHolderKey {
    Analysis(u64),
    DynamicLambda(u64),
}

impl DeferredHolderKey {
    /// The key of the analysis of configured target `target`.
    pub fn for_analysis(target: u64) -> (res: Self)
        ensures
            res == DeferredHolderKey::Analysis(target),
    {
        DeferredHolderKey::Analysis(target)
    }
}

/// The result of a deferred computation, as far as metrics read it.
#[derive(Clone, Copy, Debug, PartialEq, Eq, Structural)]
pub struct DeferredHolder {
    /// Number of actions the computation declared.
    pub declared_actions: u64,
    /// Memory retained by the result, when it was measured.
    pub retained_memory: Option<u64>,
}

/// A top-level target of a build: its label, the configured target, and
/// the artifacts it asked for.
#[derive(Clone, Debug)]
pub struct TopLevelTargetSpec {
    pub label: u64,
    pub target: u64,
    pub outputs: Vec<u64>,
}

/// What a build reports when it asks for its metrics.
#[derive(Debug)]
pub struct PerBuildEvents {
    pub top_level_targets: Vec<TopLevelTargetSpec>,
    /// The actions that ran in this build.
    pub executed_actions: HashSet<u64>,
}

/// The graphs reached from one top-level target.
#[derive(Debug)]
pub struct TopLevelTraversal {
    pub label: u64,
    /// Configured targets in the target's dependency graph.
    pub target_graph: Vec<u64>,
    /// Whether the action graph is complete, and its actions; or the
    /// error that stopped its traversal.
    pub action_graph: Result<(bool, Vec<u64>), Buck2Error>,
}

/// An event that the state tracker handles.
#[derive(Debug)]
pub enum DetailedAggregatedMetricsEvent {
    AnalysisStarted(DeferredHolderKey),
    AnalysisComplete(DeferredHolderKey, DeferredHolder),
    ComputeMetrics(PerBuildEvents),
    ActionExecuted(ActionExecutionMetrics),
}

/// Tracks the state required to compute aggregated metrics: the most
/// recently seen analysis result of each deferred key and the most recent
/// execution of each action, whichever build they occurred in.
pub struct DetailedAggregatedMetricsStateTracker {
    observed_executions: HashMap<u64, ActionExecutionMetrics>,
    analysis_nodes: HashMap<u64, DeferredHolder>,
    dynamic_lambda_nodes: HashMap<u64, DeferredHolder>,
}

// ---------------------------------------------------------------------------
// The meaning of a metrics computation.

/// The actions of a traversal's action graph (none if it failed).
pub open spec fn graph_actions(t: TopLevelTraversal) -> Seq<u64> {
    match t.action_graph {
        Ok((_, actions)) => actions@,
        Err(_) => Seq::empty(),
    }
}

/// Whether a traversal's action graph is complete.
pub open spec fn graph_complete(t: TopLevelTraversal) -> bool {
    match t.action_graph {
        Ok((complete, _)) => complete,
        Err(_) => false,
    }
}

pub open spec fn graph_ok(t: TopLevelTraversal) -> bool {
    t.action_graph is Ok
}

/// The actions of all traversals, in order, with repetitions.
pub open spec fn all_actions(r: Seq<TopLevelTraversal>) -> Seq<u64>
    decreases r.len(),
{
    if r.len() == 0 {
        Seq::empty()
    } else {
        all_actions(r.drop_last()) + graph_actions(r.last())
    }
}

/// The targets of all traversals, in order, with repetitions.
pub open spec fn all_targets(r: Seq<TopLevelTraversal>) -> Seq<u64>
    decreases r.len(),
{
    if r.len() == 0 {
        Seq::empty()
    } else {
        all_targets(r.drop_last()) + r.last().target_graph@
    }
}

pub open spec fn built_when(executed: Set<u64>, action: u64) -> BuiltWhen {
    if executed.contains(action) {
        BuiltWhen::ThisBuild
    } else {
        BuiltWhen::Previously
    }
}

/// What metrics read of an analysis result.
pub open spec fn analysis_metrics_of(node: DeferredHolder) -> AnalysisMetrics {
    AnalysisMetrics { actions: node.declared_actions, retained_memory: node.retained_memory->0 }
}

/// Counts the executions of `actions` into one top-level target's data;
/// `owners` holds how often each action occurs over all top-level targets.
pub open spec fn top_level_after_actions(
    d: TopLevelTargetAggregatedData,
    actions: Seq<u64>,
    executions: Map<u64, ActionExecutionMetrics>,
    executed: Set<u64>,
    owners: Multiset<u64>,
) -> TopLevelTargetAggregatedData
    decreases actions.len(),
{
    if actions.len() == 0 {
        d
    } else {
        let prev = top_level_after_actions(d, actions.drop_last(), executions, executed, owners);
        let a = actions.last();
        if executions.contains_key(a) {
            prev.after_execution(owners.count(a), executions[a], built_when(executed, a)).after_max_memory(
                executions[a],
            )
        } else {
            prev
        }
    }
}

/// Counts the analyses of `targets` into one top-level target's data;
/// `owners` holds how often each target occurs over all top-level targets.
pub open spec fn top_level_after_targets(
    d: TopLevelTargetAggregatedData,
    targets: Seq<u64>,
    analysis: Map<u64, DeferredHolder>,
    owners: Multiset<u64>,
) -> TopLevelTargetAggregatedData
    decreases targets.len(),
{
    if targets.len() == 0 {
        d
    } else {
        let prev = top_level_after_targets(d, targets.drop_last(), analysis, owners);
        let t = targets.last();
        prev.after_analysis(owners.count(t), analysis_metrics_of(analysis[t]))
    }
}

/// The data of the `i`-th top-level target.
pub open spec fn top_level_data(
    r: Seq<TopLevelTraversal>,
    i: int,
    executions: Map<u64, ActionExecutionMetrics>,
    executed: Set<u64>,
    analysis: Map<u64, DeferredHolder>,
) -> TopLevelTargetAggregatedData {
    let t = r[i];
    let size = if graph_complete(t) {
        Some(graph_actions(t).len() as usize)
    } else {
        None
    };
    top_level_after_targets(
        top_level_after_actions(
            TopLevelTargetAggregatedData::initial(t.label, size),
            graph_actions(t),
            executions,
            executed,
            all_actions(r).to_multiset(),
        ),
        t.target_graph@,
        analysis,
        all_targets(r).to_multiset(),
    )
}

/// Counts the execution of each distinct action of `actions` once.
pub open spec fn overall_after_actions(
    m: AggregatedBuildMetrics,
    actions: Seq<u64>,
    executions: Map<u64, ActionExecutionMetrics>,
    executed: Set<u64>,
) -> AggregatedBuildMetrics
    decreases actions.len(),
{
    if actions.len() == 0 {
        m
    } else {
        let prev = overall_after_actions(m, actions.drop_last(), executions, executed);
        let a = actions.last();
        if !actions.drop_last().contains(a) && executions.contains_key(a) {
            prev.after_execution(executions[a], built_when(executed, a), 1)
        } else {
            prev
        }
    }
}

/// Counts the analysis of each distinct target of `targets` once.
pub open spec fn overall_after_targets(
    m: AggregatedBuildMetrics,
    targets: Seq<u64>,
    analysis: Map<u64, DeferredHolder>,
) -> AggregatedBuildMetrics
    decreases targets.len(),
{
    if targets.len() == 0 {
        m
    } else {
        let prev = overall_after_targets(m, targets.drop_last(), analysis);
        let t = targets.last();
        if !targets.drop_last().contains(t) {
            prev.after_analysis(analysis_metrics_of(analysis[t]), 1)
        } else {
            prev
        }
    }
}

/// Whether every action graph is complete.
pub open spec fn all_complete(r: Seq<TopLevelTraversal>) -> bool {
    forall|i: int| 0 <= i < r.len() ==> graph_complete(#[trigger] r[i])
}

/// The metrics over all targets: sizes and sums over distinct actions and targets.
pub open spec fn overall_metrics(
    r: Seq<TopLevelTraversal>,
    executions: Map<u64, ActionExecutionMetrics>,
    executed: Set<u64>,
    analysis: Map<u64, DeferredHolder>,
) -> AggregatedBuildMetrics {
    overall_after_targets(
        overall_after_actions(AggregatedBuildMetrics::zero(), all_actions(r), executions, executed),
        all_targets(r),
        analysis,
    )
}

pub open spec fn overall_graph_size(r: Seq<TopLevelTraversal>) -> Option<usize> {
    if all_complete(r) {
        Some(all_actions(r).to_set().len() as usize)
    } else {
        None
    }
}

/// Whether every target reached has an analysis result.
pub open spec fn all_analysed(r: Seq<TopLevelTraversal>, analysis: Map<u64, DeferredHolder>) -> bool {
    forall|t: u64| #[trigger] all_targets(r).contains(t) ==> analysis.contains_key(t)
}

/// Whether every target reached that has an analysis result has its
/// retained memory measured.
pub open spec fn analysis_measured(
    r: Seq<TopLevelTraversal>,
    analysis: Map<u64, DeferredHolder>,
) -> bool {
    forall|t: u64|
        #[trigger] all_targets(r).contains(t) && analysis.contains_key(t)
            ==> analysis[t].retained_memory is Some
}

/// The held results after an event.
pub open spec fn holders_after(
    holders: Map<DeferredHolderKey, DeferredHolder>,
    ev: DetailedAggregatedMetricsEvent,
) -> Map<DeferredHolderKey, DeferredHolder> {
    match ev {
        DetailedAggregatedMetricsEvent::AnalysisStarted(key) => holders.remove(key),
        DetailedAggregatedMetricsEvent::AnalysisComplete(key, data) => holders.insert(key, data),
        _ => holders,
    }
}

/// The observed executions after an event.
pub open spec fn executions_after(
    executions: Map<u64, ActionExecutionMetrics>,
    ev: DetailedAggregatedMetricsEvent,
) -> Map<u64, ActionExecutionMetrics> {
    match ev {
        DetailedAggregatedMetricsEvent::ActionExecuted(metrics) => executions.insert(
            metrics.key,
            metrics,
        ),
        _ => executions,
    }
}

/// The computation that an event asks for, if any.
pub open spec fn requested_computation(ev: DetailedAggregatedMetricsEvent) -> Option<PerBuildEvents> {
    match ev {
        DetailedAggregatedMetricsEvent::ComputeMetrics(events) => Some(events),
        _ => None,
    }
}

// ---------------------------------------------------------------------------
// Helpers of the computation.

fn append_all(dst: &mut Vec<u64>, src: &Vec<u64>)
    ensures
        final(dst)@ == old(dst)@ + src@,
{
    let ghost start = dst@;
    for j in 0..src.len()
        invariant
            dst@ == start + src@.take(j as int),
    {
        dst.push(src[j]);
        assert(src@.take(j + 1) =~= src@.take(j as int).push(src@[j as int]));
        assert(start + src@.take(j + 1) =~= (start + src@.take(j as int)).push(src@[j as int]));
    }
    assert(src@.take(src.len() as int) =~= src@);
}

/// How often each value occurs in `v`.
fn occurrence_counts(v: &Vec<u64>) -> (m: HashMap<u64, u64>)
    ensures
        forall|a: u64| #[trigger] m@.contains_key(a) <==> v@.contains(a),
        forall|a: u64| #[trigger] m@.contains_key(a) ==> m@[a] == v@.to_multiset().count(a),
{
    let mut m: HashMap<u64, u64> = HashMap::new();
    for k in 0..v.len()
        invariant
            forall|a: u64| #[trigger] m@.contains_key(a) <==> v@.take(k as int).contains(a),
            forall|a: u64|
                #[trigger] m@.contains_key(a) ==> m@[a] == v@.take(k as int).to_multiset().count(a),
            forall|a: u64| #[trigger] m@.contains_key(a) ==> m@[a] <= k,
    {
        let a = v[k];
        let ghost before = v@.take(k as int);
        assert(v@.take(k + 1) =~= before.push(a));
        match m.get(&a) {
            Some(c) => {
                let c = *c;
                m.insert(a, c + 1);
            },
            None => {
                m.insert(a, 1);
            },
        }
        assert forall|b: u64| #[trigger] m@.contains_key(b) implies m@[b] == v@.take(
            k + 1,
        ).to_multiset().count(b) by {
            assert(before.push(a).to_multiset() =~= before.to_multiset().insert(a));
            if !before.contains(b) {
                assert(before.to_multiset().count(b) == 0);
            }
        }
        assert forall|b: u64| #[trigger] m@.contains_key(b) <==> v@.take(k + 1).contains(b) by {
            if b == a {
                assert(before.push(a)[k as int] == a);
            } else if v@.take(k + 1).contains(b) {
                let j = choose|j: int| 0 <= j < k + 1 && #[trigger] v@.take(k + 1)[j] == b;
                assert(before[j] == b);
            }
        }
    }
    assert(v@.take(v.len() as int) =~= v@);
    m
}

proof fn lemma_all_actions_step(r: Seq<TopLevelTraversal>, i: int)
    requires
        0 <= i < r.len(),
    ensures
        all_actions(r.take(i + 1)) == all_actions(r.take(i)) + graph_actions(r[i]),
        all_targets(r.take(i + 1)) == all_targets(r.take(i)) + r[i].target_graph@,
{
    assert(r.take(i + 1).drop_last() =~= r.take(i));
}

pub(crate) proof fn lemma_all_actions_contains(r: Seq<TopLevelTraversal>, i: int, x: u64)
    requires
        0 <= i < r.len(),
    ensures
        graph_actions(r[i]).contains(x) ==> all_actions(r).contains(x),
        r[i].target_graph@.contains(x) ==> all_targets(r).contains(x),
    decreases r.len(),
{
    if i < r.len() - 1 {
        lemma_all_actions_contains(r.drop_last(), i, x);
        if all_actions(r.drop_last()).contains(x) {
            let j = choose|j: int|
                0 <= j < all_actions(r.drop_last()).len() && #[trigger] all_actions(r.drop_last())[j] == x;
            assert(all_actions(r)[j] == x);
        }
        if all_targets(r.drop_last()).contains(x) {
            let j = choose|j: int|
                0 <= j < all_targets(r.drop_last()).len() && #[trigger] all_targets(r.drop_last())[j] == x;
            assert(all_targets(r)[j] == x);
        }
    } else {
        let n = all_actions(r.drop_last()).len();
        if graph_actions(r[i]).contains(x) {
            let j = choose|j: int| 0 <= j < graph_actions(r[i]).len() && #[trigger] graph_actions(r[i])[j] == x;
            assert(all_actions(r)[n + j] == x);
        }
        let m = all_targets(r.drop_last()).len();
        if r[i].target_graph@.contains(x) {
            let j = choose|j: int| 0 <= j < r[i].target_graph@.len() && #[trigger] r[i].target_graph@[j] == x;
            assert(all_targets(r)[m + j] == x);
        }
    }
}

/// Whether every action graph was traversed without error.
pub open spec fn all_graphs_ok(r: Seq<TopLevelTraversal>) -> bool {
    forall|i: int| 0 <= i < r.len() ==> graph_ok(#[trigger] r[i])
}

/// Whether each traversal reaches each action and each target at most once,
/// as the sets that traversals produce do.
pub open spec fn traversals_are_sets(r: Seq<TopLevelTraversal>) -> bool {
    forall|i: int|
        0 <= i < r.len() ==> graph_actions(#[trigger] r[i]).no_duplicates()
            && r[i].target_graph@.no_duplicates()
}

/// The metrics parts, apart from the compute time, that a successful
/// computation yields: the overall graph size, the overall metrics, and the
/// data of each top-level target.
pub open spec fn parts_match(
    parts: (Option<usize>, AggregatedBuildMetrics, Vec<TopLevelTargetAggregatedData>),
    r: Seq<TopLevelTraversal>,
    executions: Map<u64, ActionExecutionMetrics>,
    executed: Set<u64>,
    analysis: Map<u64, DeferredHolder>,
) -> bool {
    &&& parts.2@.len() == r.len()
    &&& forall|i: int|
        0 <= i < r.len() ==> #[trigger] parts.2@[i] == top_level_data(
            r,
            i,
            executions,
            executed,
            analysis,
        )
    &&& parts.0 == overall_graph_size(r)
    &&& parts.1 == overall_metrics(r, executions, executed, analysis)
}

impl DetailedAggregatedMetricsStateTracker {
    /// The most recent execution of each action.
    pub closed spec fn executions(&self) -> Map<u64, ActionExecutionMetrics> {
        self.observed_executions@
    }

    /// The analysis result of each configured target.
    pub closed spec fn analysis(&self) -> Map<u64, DeferredHolder> {
        self.analysis_nodes@
    }

    /// The result of each dynamic lambda.
    pub closed spec fn dynamic_lambdas(&self) -> Map<u64, DeferredHolder> {
        self.dynamic_lambda_nodes@
    }

    /// The result held for each deferred key.
    pub open spec fn holders(&self) -> Map<DeferredHolderKey, DeferredHolder> {
        Map::new(
            |k: DeferredHolderKey|
                match k {
                    DeferredHolderKey::Analysis(t) => self.analysis().contains_key(t),
                    DeferredHolderKey::DynamicLambda(d) => self.dynamic_lambdas().contains_key(d),
                },
            |k: DeferredHolderKey|
                match k {
                    DeferredHolderKey::Analysis(t) => self.analysis()[t],
                    DeferredHolderKey::DynamicLambda(d) => self.dynamic_lambdas()[d],
                },
        )
    }

    /// A tracker that has seen nothing.
    pub fn new() -> (res: Self)
        ensures
            res.executions() == Map::<u64, ActionExecutionMetrics>::empty(),
            res.holders() == Map::<DeferredHolderKey, DeferredHolder>::empty(),
    {
        let res = DetailedAggregatedMetricsStateTracker {
            observed_executions: HashMap::new(),
            analysis_nodes: HashMap::new(),
            dynamic_lambda_nodes: HashMap::new(),
        };
        assert(res.holders() =~= Map::<DeferredHolderKey, DeferredHolder>::empty());
        res
    }

    /// Records one event. An analysis that starts forgets the key's previous
    /// result, one that completes records it, an executed action replaces
    /// the action's previous execution. A request for metrics changes
    /// nothing and is handed back, for the caller to traverse its targets
    /// and call `compute_metrics`.
    pub fn event(&mut self, ev: DetailedAggregatedMetricsEvent) -> (compute: Option<PerBuildEvents>)
        ensures
            final(self).holders() == holders_after(old(self).holders(), ev),
            final(self).executions() == executions_after(old(self).executions(), ev),
            compute == requested_computation(ev),
    {
        match ev {
            DetailedAggregatedMetricsEvent::AnalysisStarted(key) => {
                match key {
                    DeferredHolderKey::Analysis(t) => {
                        self.analysis_nodes.remove(&t);
                    },
                    DeferredHolderKey::DynamicLambda(d) => {
                        self.dynamic_lambda_nodes.remove(&d);
                    },
                }
                assert(self.holders() =~= old(self).holders().remove(key));
                None
            },
            DetailedAggregatedMetricsEvent::AnalysisComplete(key, data) => {
                match key {
                    DeferredHolderKey::Analysis(t) => {
                        self.analysis_nodes.insert(t, data);
                    },
                    DeferredHolderKey::DynamicLambda(d) => {
                        self.dynamic_lambda_nodes.insert(d, data);
                    },
                }
                assert(self.holders() =~= old(self).holders().insert(key, data));
                None
            },
            DetailedAggregatedMetricsEvent::ComputeMetrics(events) => Some(events),
            DetailedAggregatedMetricsEvent::ActionExecuted(metrics) => {
                self.observed_executions.insert(metrics.key, metrics);
                None
            },
        }
    }

    /// Counts the execution of each distinct action of `actions` once, and
    /// returns the number of distinct actions.
    fn overall_from_actions(&self, actions: &Vec<u64>, executed_actions: &HashSet<u64>) -> (res: (
        AggregatedBuildMetrics,
        usize,
    ))
        ensures
            res.0 == overall_after_actions(
                AggregatedBuildMetrics::zero(),
                actions@,
                self.executions(),
                executed_actions@,
            ),
            res.1 == actions@.to_set().len(),
    {
        let mut overall = AggregatedBuildMetrics::new();
        let mut seen: HashSet<u64> = HashSet::new();
        for k in 0..actions.len()
            invariant
                seen@ == actions@.take(k as int).to_set(),
                overall == overall_after_actions(
                    AggregatedBuildMetrics::zero(),
                    actions@.take(k as int),
                    self.executions(),
                    executed_actions@,
                ),
        {
            let a = actions[k];
            let ghost before = actions@.take(k as int);
            assert(actions@.take(k + 1) =~= before.push(a));
            assert(actions@.take(k + 1).drop_last() =~= before);
            if !seen.contains(&a) {
                seen.insert(a);
                match self.observed_executions.get(&a) {
                    Some(ev) => {
                        let built = if executed_actions.contains(&a) {
                            BuiltWhen::ThisBuild
                        } else {
                            BuiltWhen::Previously
                        };
                        overall.add_execution(ev, built, 1);
                    },
                    None => {},
                }
            }
            assert(seen@ =~= before.push(a).to_set());
        }
        assert(actions@.take(actions.len() as int) =~= actions@);
        (overall, seen.len())
    }

    /// Counts the analysis of each distinct target of `targets` once.
    fn overall_add_targets(&self, overall: &mut AggregatedBuildMetrics, targets: &Vec<u64>)
        requires
            forall|t: u64| #[trigger]
                targets@.contains(t) ==> self.analysis().contains_key(t)
                    && self.analysis()[t].retained_memory is Some,
        ensures
            *final(overall) == overall_after_targets(*old(overall), targets@, self.analysis()),
    {
        let ghost start = *overall;
        let mut seen: HashSet<u64> = HashSet::new();
        for k in 0..targets.len()
            invariant
                forall|t: u64| #[trigger]
                    targets@.contains(t) ==> self.analysis().contains_key(t)
                        && self.analysis()[t].retained_memory is Some,
                seen@ == targets@.take(k as int).to_set(),
                *overall == overall_after_targets(start, targets@.take(k as int), self.analysis()),
        {
            let t = targets[k];
            let ghost before = targets@.take(k as int);
            assert(targets@.take(k + 1) =~= before.push(t));
            assert(targets@.take(k + 1).drop_last() =~= before);
            assert(targets@.contains(t));
            if !seen.contains(&t) {
                seen.insert(t);
                let node = match self.analysis_nodes.get(&t) {
                    Some(node) => *node,
                    None => {
                        // Excluded by the precondition.
                        proof {
                            assert(false);
                        }
                        return ;
                    },
                };
                let retained = match node.retained_memory {
                    Some(m) => m,
                    None => {
                        // Excluded by the precondition.
                        proof {
                            assert(false);
                        }
                        return ;
                    },
                };
                let metrics = AnalysisMetrics { actions: node.declared_actions, retained_memory: retained };
                overall.add_analysis(&metrics, 1);
            }
            assert(seen@ =~= before.push(t).to_set());
        }
        assert(targets@.take(targets.len() as int) =~= targets@);
    }

    /// The data of one top-level target. `action_owners` and `target_owners`
    /// count how often each action and target occurs over all top-level
    /// targets.
    fn top_level_for(
        &self,
        t: &TopLevelTraversal,
        executed_actions: &HashSet<u64>,
        action_owners: &HashMap<u64, u64>,
        target_owners: &HashMap<u64, u64>,
        Ghost(action_counts): Ghost<Multiset<u64>>,
        Ghost(target_counts): Ghost<Multiset<u64>>,
    ) -> (res: TopLevelTargetAggregatedData)
        requires
            graph_ok(*t),
            forall|a: u64| #[trigger]
                graph_actions(*t).contains(a) ==> action_owners@.contains_key(a)
                    && action_owners@[a] == action_counts.count(a) && action_counts.count(a) > 0,
            forall|x: u64| #[trigger]
                t.target_graph@.contains(x) ==> target_owners@.contains_key(x)
                    && target_owners@[x] == target_counts.count(x) && target_counts.count(x) > 0
                    && self.analysis().contains_key(x) && self.analysis()[x].retained_memory is Some,
        ensures
            res == top_level_after_targets(
                top_level_after_actions(
                    TopLevelTargetAggregatedData::initial(
                        t.label,
                        if graph_complete(*t) {
                            Some(graph_actions(*t).len() as usize)
                        } else {
                            None
                        },
                    ),
                    graph_actions(*t),
                    self.executions(),
                    executed_actions@,
                    action_counts,
                ),
                t.target_graph@,
                self.analysis(),
                target_counts,
            ),
    {
        let (complete, graph) = match &t.action_graph {
            Ok((c, g)) => (*c, g),
            Err(_) => {
                proof {
                    assert(false);
                }
                return TopLevelTargetAggregatedData::new(t.label, None);
            },
        };
        let size = if complete {
            Some(graph.len())
        } else {
            None
        };
        let mut d = TopLevelTargetAggregatedData::new(t.label, size);
        let ghost d0 = d;
        for j in 0..graph.len()
            invariant
                graph@ == graph_actions(*t),
                forall|a: u64| #[trigger]
                    graph_actions(*t).contains(a) ==> action_owners@.contains_key(a)
                        && action_owners@[a] == action_counts.count(a) && action_counts.count(a)
                        > 0,
                d == top_level_after_actions(
                    d0,
                    graph@.take(j as int),
                    self.executions(),
                    executed_actions@,
                    action_counts,
                ),
        {
            let a = graph[j];
            assert(graph@.take(j + 1).drop_last() =~= graph@.take(j as int));
            assert(graph@.take(j + 1).last() == a);
            assert(graph@.contains(a));
            match self.observed_executions.get(&a) {
                Some(ev) => {
                    let factor = match action_owners.get(&a) {
                        Some(f) => *f,
                        None => {
                            // Every action of the graph has an owner count.
                            proof {
                                assert(false);
                            }
                            return d;
                        },
                    };
                    let built = if executed_actions.contains(&a) {
                        BuiltWhen::ThisBuild
                    } else {
                        BuiltWhen::Previously
                    };
                    d.aggregate_execution_event(factor, ev, built);
                    d.aggregate_max_memory(ev);
                },
                None => {},
            }
        }
        assert(graph@.take(graph.len() as int) =~= graph@);
        let ghost d1 = d;
        let targets = &t.target_graph;
        for j in 0..targets.len()
            invariant
                targets@ == t.target_graph@,
                forall|x: u64| #[trigger]
                    t.target_graph@.contains(x) ==> target_owners@.contains_key(x)
                        && target_owners@[x] == target_counts.count(x) && target_counts.count(x)
                        > 0 && self.analysis().contains_key(x)
                        && self.analysis()[x].retained_memory is Some,
                d == top_level_after_targets(
                    d1,
                    targets@.take(j as int),
                    self.analysis(),
                    target_counts,
                ),
        {
            let x = targets[j];
            assert(targets@.take(j + 1).drop_last() =~= targets@.take(j as int));
            assert(targets@.take(j + 1).last() == x);
            assert(targets@.contains(x));
            let factor = match target_owners.get(&x) {
                Some(f) => *f,
                None => {
                    // Excluded by the precondition.
                    proof {
                        assert(false);
                    }
                    return d;
                },
            };
            let node = match self.analysis_nodes.get(&x) {
                Some(node) => *node,
                None => {
                    // Excluded by the precondition.
                    proof {
                        assert(false);
                    }
                    return d;
                },
            };
            let retained = match node.retained_memory {
                Some(m) => m,
                None => {
                    // Excluded by the precondition.
                    proof {
                        assert(false);
                    }
                    return d;
                },
            };
            let metrics = AnalysisMetrics { actions: node.declared_actions, retained_memory: retained };
            d.aggregate_analysis_event(factor, &metrics);
        }
        assert(targets@.take(targets.len() as int) =~= targets@);
        d
    }

    /// Everything of `aggregate_metrics` but the compute time.
    fn aggregate_parts(&self, executed_actions: &HashSet<u64>, traversals: Vec<TopLevelTraversal>) -> (res: Result<
        (Option<usize>, AggregatedBuildMetrics, Vec<TopLevelTargetAggregatedData>),
        Buck2Error,
    >)
        requires
            all_graphs_ok(traversals@) ==> analysis_measured(traversals@, self.analysis()),
        ensures
            forall|i: int|
                #![trigger traversals@[i]]
                0 <= i < traversals@.len() && !graph_ok(traversals@[i]) && (forall|j: int|
                    0 <= j < i ==> graph_ok(#[trigger] traversals@[j])) ==> res == Err::<
                    (Option<usize>, AggregatedBuildMetrics, Vec<TopLevelTargetAggregatedData>),
                    Buck2Error,
                >(traversals@[i].action_graph->Err_0),
            all_graphs_ok(traversals@) && !all_analysed(traversals@, self.analysis()) ==> res matches Err(
                Buck2Error::AnalysisMissingForOutput,
            ),
            all_graphs_ok(traversals@) && all_analysed(traversals@, self.analysis()) ==> (res matches Ok(
                parts,
            ) && parts_match(
                parts,
                traversals@,
                self.executions(),
                executed_actions@,
                self.analysis(),
            )),
    {
        let n = traversals.len();
        let mut i: usize = 0;
        while i < n
            invariant
                n == traversals@.len(),
                i <= n,
                forall|j: int| 0 <= j < i ==> graph_ok(#[trigger] traversals@[j]),
            decreases n - i,
        {
            if traversals[i].action_graph.is_err() {
                let mut rest = traversals;
                let failed = rest.remove(i);
                return match failed.action_graph {
                    Err(e) => Err(e),
                    Ok(_) => Err(Buck2Error::AnalysisMissingForOutput),
                };
            }
            i += 1;
        }

        let mut actions: Vec<u64> = Vec::new();
        let mut targets: Vec<u64> = Vec::new();
        let mut complete = true;
        for i in 0..n
            invariant
                n == traversals@.len(),
                forall|j: int| 0 <= j < n ==> graph_ok(#[trigger] traversals@[j]),
                actions@ == all_actions(traversals@.take(i as int)),
                targets@ == all_targets(traversals@.take(i as int)),
                complete == (forall|j: int|
                    0 <= j < i ==> graph_complete(#[trigger] traversals@[j])),
        {
            proof {
                lemma_all_actions_step(traversals@, i as int);
            }
            let t = &traversals[i];
            match &t.action_graph {
                Ok((c, graph)) => {
                    if !*c {
                        complete = false;
                    }
                    append_all(&mut actions, graph);
                },
                Err(_) => {
                    // Every action graph was found to be Ok above.
                    assert(graph_ok(traversals@[i as int]));
                },
            }
            append_all(&mut targets, &t.target_graph);
        }
        assert(traversals@.take(n as int) =~= traversals@);

        for k in 0..targets.len()
            invariant
                n == traversals@.len(),
                forall|j: int| 0 <= j < n ==> graph_ok(#[trigger] traversals@[j]),
                targets@ == all_targets(traversals@),
                forall|j: int| 0 <= j < k ==> self.analysis().contains_key(#[trigger] targets@[j]),
        {
            if !self.analysis_nodes.contains_key(&targets[k]) {
                assert(all_targets(traversals@).contains(targets@[k as int]));
                return Err(Buck2Error::AnalysisMissingForOutput);
            }
        }
        assert forall|t: u64| #[trigger]
            all_targets(traversals@).contains(t) implies self.analysis().contains_key(t) by {
            let j = choose|j: int| 0 <= j < targets@.len() && #[trigger] targets@[j] == t;
            assert(self.analysis().contains_key(targets@[j]));
        }

        let action_owners = occurrence_counts(&actions);
        let target_owners = occurrence_counts(&targets);

        let (mut overall, distinct_actions) = self.overall_from_actions(&actions, executed_actions);
        self.overall_add_targets(&mut overall, &targets);

        let ghost action_counts = actions@.to_multiset();
        let ghost target_counts = targets@.to_multiset();
        let mut per_target: Vec<TopLevelTargetAggregatedData> = Vec::new();
        for i in 0..n
            invariant
                n == traversals@.len(),
                forall|j: int| 0 <= j < n ==> graph_ok(#[trigger] traversals@[j]),
                actions@ == all_actions(traversals@),
                targets@ == all_targets(traversals@),
                action_counts == actions@.to_multiset(),
                target_counts == targets@.to_multiset(),
                analysis_measured(traversals@, self.analysis()),
                all_analysed(traversals@, self.analysis()),
                forall|a: u64| #[trigger] action_owners@.contains_key(a) <==> actions@.contains(a),
                forall|a: u64| #[trigger]
                    action_owners@.contains_key(a) ==> action_owners@[a] == action_counts.count(a),
                forall|a: u64| #[trigger] target_owners@.contains_key(a) <==> targets@.contains(a),
                forall|a: u64| #[trigger]
                    target_owners@.contains_key(a) ==> target_owners@[a] == target_counts.count(a),
                per_target@.len() == i,
                forall|j: int|
                    0 <= j < i ==> #[trigger] per_target@[j] == top_level_data(
                        traversals@,
                        j,
                        self.executions(),
                        executed_actions@,
                        self.analysis(),
                    ),
        {
            let t = &traversals[i];
            proof {
                assert forall|a: u64| #[trigger] graph_actions(*t).contains(a) implies action_owners@.contains_key(a)
                    && action_owners@[a] == action_counts.count(a) && action_counts.count(a) > 0 by {
                    assert(traversals@[i as int] == *t);
                    lemma_all_actions_contains(traversals@, i as int, a);
                    assert(actions@.contains(a));
                    assert(actions@.to_multiset().count(a) > 0);
                    assert(action_owners@.contains_key(a));
                    assert(action_owners@[a] == action_counts.count(a));
                    assert(action_counts.count(a) > 0);
                }
                assert forall|x: u64| #[trigger] t.target_graph@.contains(x) implies target_owners@.contains_key(x)
                    && target_owners@[x] == target_counts.count(x) && target_counts.count(x) > 0
                    && self.analysis().contains_key(x) && self.analysis()[x].retained_memory is Some by {
                    assert(traversals@[i as int] == *t);
                    lemma_all_actions_contains(traversals@, i as int, x);
                    assert(all_targets(traversals@).contains(x));
                    assert(targets@.to_multiset().count(x) > 0);
                    assert(target_owners@.contains_key(x));
                    assert(target_owners@[x] == target_counts.count(x));
                    assert(self.analysis().contains_key(x));
                    assert(self.analysis()[x].retained_memory is Some);
                }
            }
            let d = self.top_level_for(
                t,
                executed_actions,
                &action_owners,
                &target_owners,
                Ghost(action_counts),
                Ghost(target_counts),
            );
            per_target.push(d);
        }

        let action_graph_size = if complete {
            Some(distinct_actions)
        } else {
            None
        };
        Ok((action_graph_size, overall, per_target))
    }

    /// Aggregates metrics over the graphs reached from a build's top-level
    /// targets, given the traversal of each (in the order of the targets),
    /// the actions that ran in this build, and the time the computation
    /// took.
    ///
    /// The first traversal whose action graph failed gives the error.
    /// Otherwise a target without analysis result gives
    /// `AnalysisMissingForOutput`. Otherwise every distinct action is
    /// counted once into the overall metrics, and into each top-level
    /// target that reaches it, divided there by the number of top-level
    /// targets that reach it; analyses likewise.
    pub fn aggregate_metrics(
        &self,
        executed_actions: &HashSet<u64>,
        traversals: Vec<TopLevelTraversal>,
        compute_time: Duration,
    ) -> (res: Result<DetailedAggregatedMetrics, Buck2Error>)
        requires
            traversals_are_sets(traversals@),
            all_graphs_ok(traversals@) ==> analysis_measured(traversals@, self.analysis()),
        ensures
            forall|i: int|
                #![trigger traversals@[i]]
                0 <= i < traversals@.len() && !graph_ok(traversals@[i]) && (forall|j: int|
                    0 <= j < i ==> graph_ok(#[trigger] traversals@[j])) ==> res == Err::<
                    DetailedAggregatedMetrics,
                    Buck2Error,
                >(traversals@[i].action_graph->Err_0),
            (forall|i: int| 0 <= i < traversals@.len() ==> graph_ok(#[trigger] traversals@[i]))
                && !all_analysed(traversals@, self.analysis()) ==> res matches Err(
                Buck2Error::AnalysisMissingForOutput,
            ),
            (forall|i: int| 0 <= i < traversals@.len() ==> graph_ok(#[trigger] traversals@[i]))
                && all_analysed(traversals@, self.analysis()) ==> (res matches Ok(m) && {
                &&& m.top_level_target_metrics@.len() == traversals@.len()
                &&& forall|i: int|
                    0 <= i < traversals@.len() ==> #[trigger] m.top_level_target_metrics@[i]
                        == top_level_data(
                        traversals@,
                        i,
                        self.executions(),
                        executed_actions@,
                        self.analysis(),
                    )
                &&& m.all_targets_build_metrics.action_graph_size == overall_graph_size(
                    traversals@,
                )
                &&& m.all_targets_build_metrics.metrics == overall_metrics(
                    traversals@,
                    self.executions(),
                    executed_actions@,
                    self.analysis(),
                )
                &&& m.all_targets_build_metrics.compute_time == compute_time
            }),
    {
        match self.aggregate_parts(executed_actions, traversals) {
            Err(e) => Err(e),
            Ok((action_graph_size, metrics, top_level_target_metrics)) => Ok(
                DetailedAggregatedMetrics {
                    all_targets_build_metrics: AllTargetsAggregatedData {
                        action_graph_size,
                        metrics,
                        compute_time,
                    },
                    top_level_target_metrics,
                },
            ),
        }
    }

    /// Computes the metrics of a build whose computation started at
    /// `started`; see `aggregate_metrics`. `traversals` holds the traversal
    /// of each of the build's top-level targets, in their order. The compute
    /// time is what the clock says has passed since `started` once the
    /// aggregation is done.
    pub fn compute_metrics(
        &self,
        events: &PerBuildEvents,
        traversals: Vec<TopLevelTraversal>,
        started: &Instant,
    ) -> (res: Result<DetailedAggregatedMetrics, Buck2Error>)
        requires
            traversals_are_sets(traversals@),
            all_graphs_ok(traversals@) ==> analysis_measured(traversals@, self.analysis()),
            traversals@.len() == events.top_level_targets@.len(),
            forall|i: int|
                0 <= i < traversals@.len() ==> #[trigger] traversals@[i].label
                    == events.top_level_targets@[i].label,
        ensures
            forall|i: int|
                #![trigger traversals@[i]]
                0 <= i < traversals@.len() && !graph_ok(traversals@[i]) && (forall|j: int|
                    0 <= j < i ==> graph_ok(#[trigger] traversals@[j])) ==> res == Err::<
                    DetailedAggregatedMetrics,
                    Buck2Error,
                >(traversals@[i].action_graph->Err_0),
            (forall|i: int| 0 <= i < traversals@.len() ==> graph_ok(#[trigger] traversals@[i]))
                && !all_analysed(traversals@, self.analysis()) ==> res matches Err(
                Buck2Error::AnalysisMissingForOutput,
            ),
            (forall|i: int| 0 <= i < traversals@.len() ==> graph_ok(#[trigger] traversals@[i]))
                && all_analysed(traversals@, self.analysis()) ==> (res matches Ok(m) && {
                &&& m.top_level_target_metrics@.len() == traversals@.len()
                &&& forall|i: int|
                    0 <= i < traversals@.len() ==> #[trigger] m.top_level_target_metrics@[i]
                        == top_level_data(
                        traversals@,
                        i,
                        self.executions(),
                        events.executed_actions@,
                        self.analysis(),
                    )
                &&& m.all_targets_build_metrics.action_graph_size == overall_graph_size(
                    traversals@,
                )
                &&& m.all_targets_build_metrics.metrics == overall_metrics(
                    traversals@,
                    self.executions(),
                    events.executed_actions@,
                    self.analysis(),
                )
            }),
    {
        let parts = self.aggregate_parts(&events.executed_actions, traversals);
        let compute_time = instant_elapsed(started);
        match parts {
            Err(e) => Err(e),
            Ok((action_graph_size, metrics, top_level_target_metrics)) => Ok(
                DetailedAggregatedMetrics {
                    all_targets_build_metrics: AllTargetsAggregatedData {
                        action_graph_size,
                        metrics,
                        compute_time,
                    },
                    top_level_target_metrics,
                },
            ),
        }
    }

    /// The result held for `key`, if any.
    pub fn holder(&self, key: &DeferredHolderKey) -> (res: Option<&DeferredHolder>)
        ensures
            match res {
                Some(h) => self.holders().contains_key(*key) && self.holders()[*key] == *h,
                None => !self.holders().contains_key(*key),
            },
    {
        match key {
            DeferredHolderKey::Analysis(t) => self.analysis_nodes.get(t),
            DeferredHolderKey::DynamicLambda(d) => self.dynamic_lambda_nodes.get(d),
        }
    }

    /// The most recent execution of `action`, if any.
    pub fn observed_execution(&self, action: u64) -> (res: Option<&ActionExecutionMetrics>)
        ensures
            match res {
                Some(m) => self.executions().contains_key(action) && self.executions()[action] == *m,
                None => !self.executions().contains_key(action),
            },
    {
        self.observed_executions.get(&action)
    }
}

} // verus!
