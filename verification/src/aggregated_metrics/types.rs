use vstd::prelude::*;

use core::time::Duration;

verus! {

/// Whether an action's most recent execution happened in the build being measured.
#[derive(Clone, Copy, Debug, PartialEq, Eq, Structural)]
pub enum BuiltWhen {
    ThisBuild,
    Previously,
}

/// What was observed of one action's execution. `key` identifies the action.
#[derive(Clone, Copy, Debug, PartialEq, Eq, Structural)]
pub struct ActionExecutionMetrics {
    pub key: u64,
    pub execution_time_us: u64,
    pub output_size_bytes: u64,
    pub memory_peak: Option<u64>,
}

/// What analysis of one configured target produced.
#[derive(Clone, Copy, Debug, PartialEq, Eq, Structural)]
pub struct AnalysisMetrics {
    /// Number of actions the analysis declared.
    pub actions: u64,
    /// Memory retained by the analysis result, in bytes.
    pub retained_memory: u64,
}

/// `a + b`, clamped to `u64::MAX`.
pub open spec fn saturated(a: u64, b: int) -> u64 {
    if a + b > u64::MAX {
        u64::MAX
    } else {
        (a + b) as u64
    }
}

/// Sums of execution and analysis figures over a set of actions and targets.
/// Every sum saturates at `u64::MAX`.
#[derive(Clone, Copy, Debug, PartialEq, Eq, Structural)]
pub struct AggregatedBuildMetrics {
    pub execution_time_us: u64,
    pub output_size_bytes: u64,
    pub this_build_execution_time_us: u64,
    pub this_build_output_size_bytes: u64,
    pub declared_actions: u64,
    pub retained_analysis_memory_bytes: u64,
}

impl AggregatedBuildMetrics {
    pub open spec fn zero() -> Self {
        AggregatedBuildMetrics {
            execution_time_us: 0,
            output_size_bytes: 0,
            this_build_execution_time_us: 0,
            this_build_output_size_bytes: 0,
            declared_actions: 0,
            retained_analysis_memory_bytes: 0,
        }
    }

    /// These metrics after one execution is counted, each figure divided by
    /// `factor` (rounding down).
    pub open spec fn after_execution(
        self,
        ev: ActionExecutionMetrics,
        built_when: BuiltWhen,
        factor: nat,
    ) -> Self {
        let time = ev.execution_time_us as int / factor as int;
        let size = ev.output_size_bytes as int / factor as int;
        AggregatedBuildMetrics {
            execution_time_us: saturated(self.execution_time_us, time),
            output_size_bytes: saturated(self.output_size_bytes, size),
            this_build_execution_time_us: if built_when == BuiltWhen::ThisBuild {
                saturated(self.this_build_execution_time_us, time)
            } else {
                self.this_build_execution_time_us
            },
            this_build_output_size_bytes: if built_when == BuiltWhen::ThisBuild {
                saturated(self.this_build_output_size_bytes, size)
            } else {
                self.this_build_output_size_bytes
            },
            ..self
        }
    }

    /// These metrics after one analysis is counted, each figure divided by
    /// `factor` (rounding down).
    pub open spec fn after_analysis(self, metrics: AnalysisMetrics, factor: nat) -> Self {
        AggregatedBuildMetrics {
            declared_actions: saturated(
                self.declared_actions,
                metrics.actions as int / factor as int,
            ),
            retained_analysis_memory_bytes: saturated(
                self.retained_analysis_memory_bytes,
                metrics.retained_memory as int / factor as int,
            ),
            ..self
        }
    }

    pub fn new() -> (res: Self)
        ensures
            res == Self::zero(),
    {
        AggregatedBuildMetrics {
            execution_time_us: 0,
            output_size_bytes: 0,
            this_build_execution_time_us: 0,
            this_build_output_size_bytes: 0,
            declared_actions: 0,
            retained_analysis_memory_bytes: 0,
        }
    }

    pub fn add_execution(&mut self, ev: &ActionExecutionMetrics, built_when: BuiltWhen, factor: u64)
        requires
            factor > 0,
        ensures
            *final(self) == old(self).after_execution(*ev, built_when, factor as nat),
    {
        let time = ev.execution_time_us / factor;
        let size = ev.output_size_bytes / factor;
        self.execution_time_us = self.execution_time_us.saturating_add(time);
        self.output_size_bytes = self.output_size_bytes.saturating_add(size);
        match built_when {
            BuiltWhen::ThisBuild => {
                self.this_build_execution_time_us = self.this_build_execution_time_us.saturating_add(
                    time,
                );
                self.this_build_output_size_bytes = self.this_build_output_size_bytes.saturating_add(
                    size,
                );
            },
            BuiltWhen::Previously => {},
        }
    }

    pub fn add_analysis(&mut self, metrics: &AnalysisMetrics, factor: u64)
        requires
            factor > 0,
        ensures
            *final(self) == old(self).after_analysis(*metrics, factor as nat),
    {
        self.declared_actions = self.declared_actions.saturating_add(metrics.actions / factor);
        self.retained_analysis_memory_bytes = self.retained_analysis_memory_bytes.saturating_add(
            metrics.retained_memory / factor,
        );
    }
}

impl Default for AggregatedBuildMetrics {
    fn default() -> (res: Self)
        ensures
            res == Self::zero(),
    {
        AggregatedBuildMetrics::new()
    }
}

/// The larger of two optional memory peaks; a missing peak counts as none.
pub open spec fn max_peak(current: Option<u64>, observed: Option<u64>) -> Option<u64> {
    match (current, observed) {
        (None, o) => o,
        (Some(c), None) => Some(c),
        (Some(c), Some(o)) => Some(if c >= o { c } else { o }),
    }
}

/// Metrics for one top-level target of a build.
#[derive(Clone, Copy, Debug, PartialEq, Eq, Structural)]
pub struct TopLevelTargetAggregatedData {
    pub label: u64,
    /// Number of actions in the target's action graph, when that graph is complete.
    pub action_graph_size: Option<usize>,
    /// Every action and analysis of the target, counted in full.
    pub metrics: AggregatedBuildMetrics,
    /// Every action and analysis of the target, divided by the number of
    /// top-level targets that share it.
    pub amortized_metrics: AggregatedBuildMetrics,
    /// Largest memory peak among the target's executed actions.
    pub max_memory_peak: Option<u64>,
}

impl TopLevelTargetAggregatedData {
    pub open spec fn initial(label: u64, action_graph_size: Option<usize>) -> Self {
        TopLevelTargetAggregatedData {
            label,
            action_graph_size,
            metrics: AggregatedBuildMetrics::zero(),
            amortized_metrics: AggregatedBuildMetrics::zero(),
            max_memory_peak: None,
        }
    }

    pub open spec fn after_execution(
        self,
        amortization_factor: nat,
        ev: ActionExecutionMetrics,
        built_when: BuiltWhen,
    ) -> Self {
        TopLevelTargetAggregatedData {
            metrics: self.metrics.after_execution(ev, built_when, 1),
            amortized_metrics: self.amortized_metrics.after_execution(
                ev,
                built_when,
                amortization_factor,
            ),
            ..self
        }
    }

    pub open spec fn after_max_memory(self, ev: ActionExecutionMetrics) -> Self {
        TopLevelTargetAggregatedData {
            max_memory_peak: max_peak(self.max_memory_peak, ev.memory_peak),
            ..self
        }
    }

    pub open spec fn after_analysis(self, amortization_factor: nat, metrics: AnalysisMetrics) -> Self {
        TopLevelTargetAggregatedData {
            metrics: self.metrics.after_analysis(metrics, 1),
            amortized_metrics: self.amortized_metrics.after_analysis(metrics, amortization_factor),
            ..self
        }
    }

    pub fn new(label: u64, action_graph_size: Option<usize>) -> (res: Self)
        ensures
            res == Self::initial(label, action_graph_size),
    {
        TopLevelTargetAggregatedData {
            label,
            action_graph_size,
            metrics: AggregatedBuildMetrics::new(),
            amortized_metrics: AggregatedBuildMetrics::new(),
            max_memory_peak: None,
        }
    }

    /// Counts one execution in full and, divided by `amortization_factor`, in
    /// the amortized metrics.
    pub fn aggregate_execution_event(
        &mut self,
        amortization_factor: u64,
        ev: &ActionExecutionMetrics,
        built_when: BuiltWhen,
    )
        requires
            amortization_factor > 0,
        ensures
            *final(self) == old(self).after_execution(amortization_factor as nat, *ev, built_when),
    {
        self.metrics.add_execution(ev, built_when, 1);
        self.amortized_metrics.add_execution(ev, built_when, amortization_factor);
    }

    pub fn aggregate_max_memory(&mut self, ev: &ActionExecutionMetrics)
        ensures
            *final(self) == old(self).after_max_memory(*ev),
    {
        match (self.max_memory_peak, ev.memory_peak) {
            (None, o) => {
                self.max_memory_peak = o;
            },
            (Some(_), None) => {},
            (Some(c), Some(o)) => {
                if c < o {
                    self.max_memory_peak = Some(o);
                }
            },
        }
    }

    /// Counts one analysis in full and, divided by `amortization_factor`, in
    /// the amortized metrics.
    pub fn aggregate_analysis_event(&mut self, amortization_factor: u64, metrics: &AnalysisMetrics)
        requires
            amortization_factor > 0,
        ensures
            *final(self) == old(self).after_analysis(amortization_factor as nat, *metrics),
    {
        self.metrics.add_analysis(metrics, 1);
        self.amortized_metrics.add_analysis(metrics, amortization_factor);
    }
}

/// Metrics over every action and target reached by any top-level target.
#[derive(Debug)]
pub struct AllTargetsAggregatedData {
    /// Number of distinct actions reached, when every action graph is complete.
    pub action_graph_size: Option<usize>,
    pub metrics: AggregatedBuildMetrics,
    /// How long the computation of these metrics took.
    pub compute_time: Duration,
}

/// The result of one metrics computation.
#[derive(Debug)]
pub struct DetailedAggregatedMetrics {
    pub all_targets_build_metrics: AllTargetsAggregatedData,
    pub top_level_target_metrics: Vec<TopLevelTargetAggregatedData>,
}

} // verus!
