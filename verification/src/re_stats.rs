//! Statistics of a remote-execution client: per-operation counters, bytes
//! per storage backend, and local cache hits and misses.

use vstd::prelude::*;

verus! {

/// Counts of one kind of operation, as reported.
#[derive(Clone, Copy, Debug, PartialEq, Eq, Structural)]
pub struct RemoteExecutionClientOpStats {
    pub started: u32,
    pub finished_successfully: u32,
    pub finished_with_error: u32,
}

impl Default for RemoteExecutionClientOpStats {
    fn default() -> (res: Self)
        ensures
            res.started == 0 && res.finished_successfully == 0 && res.finished_with_error == 0,
    {
        RemoteExecutionClientOpStats { started: 0, finished_successfully: 0, finished_with_error: 0 }
    }
}

/// Live counters of one kind of operation. Each counter wraps around on
/// overflow.
#[derive(Clone, Copy, Debug, PartialEq, Eq, Structural)]
pub struct OpStats {
    started: u32,
    finished_successfully: u32,
    finished_with_error: u32,
}

impl OpStats {
    pub closed spec fn started_count(self) -> u32 {
        self.started
    }

    pub closed spec fn succeeded_count(self) -> u32 {
        self.finished_successfully
    }

    pub closed spec fn failed_count(self) -> u32 {
        self.finished_with_error
    }

    /// The counters after an operation starts.
    pub closed spec fn after_start(self) -> Self {
        OpStats { started: vstd::wrapping::u32_specs::wrapping_add(self.started, 1), ..self }
    }

    /// The counters after an operation finishes.
    pub closed spec fn after_finish(self, succeeded: bool) -> Self {
        if succeeded {
            OpStats {
                finished_successfully: vstd::wrapping::u32_specs::wrapping_add(
                    self.finished_successfully,
                    1,
                ),
                ..self
            }
        } else {
            OpStats {
                finished_with_error: vstd::wrapping::u32_specs::wrapping_add(
                    self.finished_with_error,
                    1,
                ),
                ..self
            }
        }
    }

    /// Counters that have seen nothing.
    pub closed spec fn initial() -> Self {
        OpStats { started: 0, finished_successfully: 0, finished_with_error: 0 }
    }

    /// The counters after a run of operation events, in order.
    pub closed spec fn after_events(self, events: Seq<OpEvent>) -> Self
        decreases events.len(),
    {
        if events.len() == 0 {
            self
        } else {
            let prev = self.after_events(events.drop_last());
            match events.last() {
                OpEvent::Start => prev.after_start(),
                OpEvent::Finish(succeeded) => prev.after_finish(succeeded),
            }
        }
    }

    pub fn new() -> (res: Self)
        ensures
            res == Self::initial(),
            res.started_count() == 0,
            res.succeeded_count() == 0,
            res.failed_count() == 0,
    {
        OpStats { started: 0, finished_successfully: 0, finished_with_error: 0 }
    }

    /// Records that an operation started.
    pub fn record_start(&mut self)
        ensures
            *final(self) == old(self).after_start(),
            final(self).started_count() == vstd::wrapping::u32_specs::wrapping_add(
                old(self).started_count(),
                1,
            ),
            final(self).succeeded_count() == old(self).succeeded_count(),
            final(self).failed_count() == old(self).failed_count(),
    {
        self.started = self.started.wrapping_add(1);
    }

    /// Records that an operation finished, successfully or with an error.
    pub fn record_finish(&mut self, succeeded: bool)
        ensures
            *final(self) == old(self).after_finish(succeeded),
            final(self).started_count() == old(self).started_count(),
            final(self).succeeded_count() == if succeeded {
                vstd::wrapping::u32_specs::wrapping_add(old(self).succeeded_count(), 1)
            } else {
                old(self).succeeded_count()
            },
            final(self).failed_count() == if succeeded {
                old(self).failed_count()
            } else {
                vstd::wrapping::u32_specs::wrapping_add(old(self).failed_count(), 1)
            },
    {
        if succeeded {
            self.finished_successfully = self.finished_successfully.wrapping_add(1);
        } else {
            self.finished_with_error = self.finished_with_error.wrapping_add(1);
        }
    }
}

/// What happens to an operation: it starts, or it finishes, successfully
/// or not.
#[derive(Clone, Copy, Debug, PartialEq, Eq, Structural)]
pub enum OpEvent {
    Start,
    Finish(bool),
}

/// The number of starts among `events`.
pub open spec fn starts(events: Seq<OpEvent>) -> nat
    decreases events.len(),
{
    if events.len() == 0 {
        0
    } else {
        starts(events.drop_last()) + if events.last() == OpEvent::Start {
            1nat
        } else {
            0nat
        }
    }
}

/// The number of finishes among `events` with the given outcome.
pub open spec fn finishes(events: Seq<OpEvent>, succeeded: bool) -> nat
    decreases events.len(),
{
    if events.len() == 0 {
        0
    } else {
        finishes(events.drop_last(), succeeded) + if events.last() == OpEvent::Finish(succeeded) {
            1nat
        } else {
            0nat
        }
    }
}

/// Whether every operation finishes only after it started: at each point,
/// no more operations have finished than have started.
pub open spec fn finishes_follow_starts(events: Seq<OpEvent>) -> bool {
    forall|k: int|
        0 <= k <= events.len() ==> #[trigger] finishes(events.take(k), true) + finishes(
            events.take(k),
            false,
        ) <= starts(events.take(k))
}

proof fn lemma_after_events_counts(events: Seq<OpEvent>)
    requires
        finishes_follow_starts(events),
        starts(events) <= u32::MAX,
    ensures
        OpStats::initial().after_events(events).started_count() == starts(events),
        OpStats::initial().after_events(events).succeeded_count() == finishes(events, true),
        OpStats::initial().after_events(events).failed_count() == finishes(events, false),
    decreases events.len(),
{
    if events.len() > 0 {
        let prev = events.drop_last();
        assert forall|k: int| 0 <= k <= prev.len() implies #[trigger] finishes(prev.take(k), true)
            + finishes(prev.take(k), false) <= starts(prev.take(k)) by {
            assert(prev.take(k) =~= events.take(k));
        }
        assert(events.take(events.len() as int) =~= events);
        lemma_after_events_counts(prev);
    }
}

/// Counters that start from nothing and see a run of operations, each
/// finishing only after it started, hold the number of starts, of
/// successful finishes and of failed finishes, while no count overflows;
/// so no more operations have finished than have started.
pub proof fn law_counters_after_operations(events: Seq<OpEvent>)
    requires
        finishes_follow_starts(events),
        starts(events) <= u32::MAX,
    ensures
        OpStats::initial().after_events(events).started_count() == starts(events),
        OpStats::initial().after_events(events).succeeded_count() == finishes(events, true),
        OpStats::initial().after_events(events).failed_count() == finishes(events, false),
        OpStats::initial().after_events(events).succeeded_count()
            + OpStats::initial().after_events(events).failed_count()
            <= OpStats::initial().after_events(events).started_count(),
{
    lemma_after_events_counts(events);
    assert(events.take(events.len() as int) =~= events);
}

/// Each finished operation is counted once: exactly one of the two
/// finished counters moves, and the started counter does not.
pub proof fn law_finish_counted_once(stats: OpStats, succeeded: bool)
    ensures
        stats.after_finish(succeeded).started_count() == stats.started_count(),
        (stats.after_finish(succeeded).succeeded_count() != stats.succeeded_count()) == succeeded,
        (stats.after_finish(succeeded).failed_count() != stats.failed_count()) == !succeeded,
{
}

/// A start moves the started counter only.
pub proof fn law_start_counted_once(stats: OpStats)
    ensures
        stats.after_start().started_count() != stats.started_count(),
        stats.after_start().succeeded_count() == stats.succeeded_count(),
        stats.after_start().failed_count() == stats.failed_count(),
{
}

impl Default for OpStats {
    fn default() -> (res: Self)
        ensures
            res == Self::initial(),
            res.started_count() == 0,
            res.succeeded_count() == 0,
            res.failed_count() == 0,
    {
        OpStats::new()
    }
}

impl From<&OpStats> for RemoteExecutionClientOpStats {
    fn from(stats: &OpStats) -> (res: RemoteExecutionClientOpStats) {
        RemoteExecutionClientOpStats {
            started: stats.started,
            finished_successfully: stats.finished_successfully,
            finished_with_error: stats.finished_with_error,
        }
    }
}

impl vstd::std_specs::convert::FromSpecImpl<&OpStats> for RemoteExecutionClientOpStats {
    open spec fn obeys_from_spec() -> bool {
        true
    }

    open spec fn from_spec(stats: &OpStats) -> RemoteExecutionClientOpStats {
        RemoteExecutionClientOpStats {
            started: stats.started_count(),
            finished_successfully: stats.succeeded_count(),
            finished_with_error: stats.failed_count(),
        }
    }
}

/// Queries and bytes served by one storage backend.
#[derive(Clone, Copy, Debug, PartialEq, Eq, Structural)]
pub struct BackendStats {
    pub queries: u64,
    pub bytes: u64,
}

impl Default for BackendStats {
    fn default() -> (res: Self)
        ensures
            res == (BackendStats { queries: 0, bytes: 0 }),
    {
        BackendStats { queries: 0, bytes: 0 }
    }
}

/// The storage backends that a remote-execution client reports on.
#[derive(Clone, Copy, Debug, PartialEq, Eq, Structural)]
pub enum TStorageBackendType {
    ZDB,
    ZGATEWAY,
    MANIFOLD,
    HEDWIG,
    /// Any other backend, by its numeric code.
    Other(i32),
}

/// One backend's figures as the remote-execution client reports them.
#[derive(Clone, Copy, Debug, PartialEq, Eq, Structural)]
pub struct TStorageBackendStats {
    pub queries_count: i64,
    pub bytes: i64,
}

/// Storage statistics as the remote-execution client reports them: the
/// figures of each backend, one entry per backend.
#[derive(Clone, Debug)]
pub struct TStorageStats {
    pub per_backend_stats: Vec<(TStorageBackendType, TStorageBackendStats)>,
}

/// Per-backend statistics of a client.
#[derive(Clone, Copy, Debug, PartialEq, Eq, Structural)]
pub struct PerBackendRemoteExecutionClientStats {
    pub zdb: BackendStats,
    pub zgateway: BackendStats,
    pub manifold: BackendStats,
    pub hedwig: BackendStats,
}

/// The figures of one backend, converted to counts.
pub open spec fn backend_stats_of(re: TStorageBackendStats) -> BackendStats {
    BackendStats { queries: re.queries_count as u64, bytes: re.bytes as u64 }
}

impl PerBackendRemoteExecutionClientStats {
    /// These statistics after one reported entry: the entry's figures
    /// replace those of its backend; an entry of another backend is ignored.
    pub open spec fn after_entry(
        self,
        typ: TStorageBackendType,
        re: TStorageBackendStats,
    ) -> Self {
        match typ {
            TStorageBackendType::ZDB => Self { zdb: backend_stats_of(re), ..self },
            TStorageBackendType::ZGATEWAY => Self { zgateway: backend_stats_of(re), ..self },
            TStorageBackendType::MANIFOLD => Self { manifold: backend_stats_of(re), ..self },
            TStorageBackendType::HEDWIG => Self { hedwig: backend_stats_of(re), ..self },
            TStorageBackendType::Other(_) => self,
        }
    }

    /// These statistics after the reported entries, in order.
    pub open spec fn after_entries(
        self,
        entries: Seq<(TStorageBackendType, TStorageBackendStats)>,
    ) -> Self
        decreases entries.len(),
    {
        if entries.len() == 0 {
            self
        } else {
            self.after_entries(entries.drop_last()).after_entry(
                entries.last().0,
                entries.last().1,
            )
        }
    }

    /// Takes the figures of each known backend from the client's report.
    pub fn fill_from_re_client_metrics(&mut self, metrics: &TStorageStats)
        ensures
            *final(self) == old(self).after_entries(metrics.per_backend_stats@),
    {
        let entries = &metrics.per_backend_stats;
        let ghost start = *self;
        for k in 0..entries.len()
            invariant
                *self == start.after_entries(entries@.take(k as int)),
        {
            let (typ, re_stats) = entries[k];
            assert(entries@.take(k + 1).drop_last() =~= entries@.take(k as int));
            let stats = BackendStats {
                queries: re_stats.queries_count as u64,
                bytes: re_stats.bytes as u64,
            };
            match typ {
                TStorageBackendType::ZDB => {
                    self.zdb = stats;
                },
                TStorageBackendType::ZGATEWAY => {
                    self.zgateway = stats;
                },
                TStorageBackendType::MANIFOLD => {
                    self.manifold = stats;
                },
                TStorageBackendType::HEDWIG => {
                    self.hedwig = stats;
                },
                TStorageBackendType::Other(_) => {},
            }
        }
        assert(entries@.take(entries.len() as int) =~= entries@);
    }
}

impl Default for PerBackendRemoteExecutionClientStats {
    fn default() -> (res: Self)
        ensures
            res.zdb == (BackendStats { queries: 0, bytes: 0 }),
            res.zgateway == (BackendStats { queries: 0, bytes: 0 }),
            res.manifold == (BackendStats { queries: 0, bytes: 0 }),
            res.hedwig == (BackendStats { queries: 0, bytes: 0 }),
    {
        PerBackendRemoteExecutionClientStats {
            zdb: BackendStats::default(),
            zgateway: BackendStats::default(),
            manifold: BackendStats::default(),
            hedwig: BackendStats::default(),
        }
    }
}

/// How the local cache served digest lookups, as the client reports it.
#[derive(Clone, Copy, Debug, PartialEq, Eq, Structural)]
pub struct TCacheFunnelStats {
    pub digests_served_from_memory: i64,
    pub digests_served_from_fs: i64,
}

/// Local cache figures of one report of the remote-execution client.
#[derive(Clone, Copy, Debug, PartialEq, Eq, Structural)]
pub struct TLocalCacheStats {
    pub hits_files: i64,
    pub hits_bytes: i64,
    pub misses_files: i64,
    pub misses_bytes: i64,
    pub cache_funnel_stats: TCacheFunnelStats,
    pub total_cache_lookup_attempts: i64,
    pub cache_lookup_latency_microseconds: i64,
}

/// Local cache statistics, as reported: totals over all reports.
#[derive(Clone, Copy, Debug, PartialEq, Eq, Structural)]
pub struct LocalCacheRemoteExecutionClientStats {
    pub hits_files: i64,
    pub hits_bytes: i64,
    pub misses_files: i64,
    pub misses_bytes: i64,
    pub hits_from_memory: i64,
    pub hits_from_fs: i64,
    pub cache_lookups: i64,
    pub cache_lookup_latency_microseconds: i64,
}

impl LocalCacheRemoteExecutionClientStats {
    pub open spec fn zero() -> Self {
        LocalCacheRemoteExecutionClientStats {
            hits_files: 0,
            hits_bytes: 0,
            misses_files: 0,
            misses_bytes: 0,
            hits_from_memory: 0,
            hits_from_fs: 0,
            cache_lookups: 0,
            cache_lookup_latency_microseconds: 0,
        }
    }

    /// These totals after one report is added; each total wraps around on
    /// overflow.
    pub open spec fn after_report(self, stat: TLocalCacheStats) -> Self {
        LocalCacheRemoteExecutionClientStats {
            hits_files: vstd::wrapping::i64_specs::wrapping_add(self.hits_files, stat.hits_files),
            hits_bytes: vstd::wrapping::i64_specs::wrapping_add(self.hits_bytes, stat.hits_bytes),
            misses_files: vstd::wrapping::i64_specs::wrapping_add(
                self.misses_files,
                stat.misses_files,
            ),
            misses_bytes: vstd::wrapping::i64_specs::wrapping_add(
                self.misses_bytes,
                stat.misses_bytes,
            ),
            hits_from_memory: vstd::wrapping::i64_specs::wrapping_add(
                self.hits_from_memory,
                stat.cache_funnel_stats.digests_served_from_memory,
            ),
            hits_from_fs: vstd::wrapping::i64_specs::wrapping_add(
                self.hits_from_fs,
                stat.cache_funnel_stats.digests_served_from_fs,
            ),
            cache_lookups: vstd::wrapping::i64_specs::wrapping_add(
                self.cache_lookups,
                stat.total_cache_lookup_attempts,
            ),
            cache_lookup_latency_microseconds: vstd::wrapping::i64_specs::wrapping_add(
                self.cache_lookup_latency_microseconds,
                stat.cache_lookup_latency_microseconds,
            ),
        }
    }
}

impl Default for LocalCacheRemoteExecutionClientStats {
    fn default() -> (res: Self)
        ensures
            res == Self::zero(),
    {
        LocalCacheRemoteExecutionClientStats {
            hits_files: 0,
            hits_bytes: 0,
            misses_files: 0,
            misses_bytes: 0,
            hits_from_memory: 0,
            hits_from_fs: 0,
            cache_lookups: 0,
            cache_lookup_latency_microseconds: 0,
        }
    }
}

/// Live local cache counters: totals over all reports so far.
#[derive(Clone, Copy, Debug, PartialEq, Eq, Structural)]
pub struct LocalCacheStats {
    totals: LocalCacheRemoteExecutionClientStats,
}

impl LocalCacheStats {
    /// The totals so far.
    pub closed spec fn totals(self) -> LocalCacheRemoteExecutionClientStats {
        self.totals
    }

    pub fn new() -> (res: Self)
        ensures
            res.totals() == LocalCacheRemoteExecutionClientStats::zero(),
    {
        LocalCacheStats { totals: LocalCacheRemoteExecutionClientStats::default() }
    }

    /// Adds one report of the client to the totals.
    pub fn update(&mut self, stat: &TLocalCacheStats)
        ensures
            final(self).totals() == old(self).totals().after_report(*stat),
    {
        let t = &mut self.totals;
        t.hits_files = t.hits_files.wrapping_add(stat.hits_files);
        t.hits_bytes = t.hits_bytes.wrapping_add(stat.hits_bytes);
        t.misses_files = t.misses_files.wrapping_add(stat.misses_files);
        t.misses_bytes = t.misses_bytes.wrapping_add(stat.misses_bytes);
        t.hits_from_memory = t.hits_from_memory.wrapping_add(
            stat.cache_funnel_stats.digests_served_from_memory,
        );
        t.hits_from_fs = t.hits_from_fs.wrapping_add(stat.cache_funnel_stats.digests_served_from_fs);
        t.cache_lookups = t.cache_lookups.wrapping_add(stat.total_cache_lookup_attempts);
        t.cache_lookup_latency_microseconds = t.cache_lookup_latency_microseconds.wrapping_add(
            stat.cache_lookup_latency_microseconds,
        );
    }
}

impl Default for LocalCacheStats {
    fn default() -> (res: Self)
        ensures
            res.totals() == LocalCacheRemoteExecutionClientStats::zero(),
    {
        LocalCacheStats::new()
    }
}

impl From<&LocalCacheStats> for LocalCacheRemoteExecutionClientStats {
    fn from(stats: &LocalCacheStats) -> (res: LocalCacheRemoteExecutionClientStats) {
        stats.totals
    }
}

impl vstd::std_specs::convert::FromSpecImpl<&LocalCacheStats> for LocalCacheRemoteExecutionClientStats {
    open spec fn obeys_from_spec() -> bool {
        true
    }

    open spec fn from_spec(stats: &LocalCacheStats) -> LocalCacheRemoteExecutionClientStats {
        stats.totals()
    }
}

/// Everything a remote-execution client reports of a build.
#[derive(Clone, Copy, Debug, PartialEq, Eq, Structural)]
pub struct RemoteExecutionClientStats {
    /// In bytes.
    pub uploaded: u64,
    /// In bytes.
    pub downloaded: u64,
    pub upload_stats: PerBackendRemoteExecutionClientStats,
    pub download_stats: PerBackendRemoteExecutionClientStats,
    pub uploads: RemoteExecutionClientOpStats,
    pub downloads: RemoteExecutionClientOpStats,
    pub action_cache: RemoteExecutionClientOpStats,
    pub executes: RemoteExecutionClientOpStats,
    pub materializes: RemoteExecutionClientOpStats,
    pub write_action_results: RemoteExecutionClientOpStats,
    pub get_digest_expirations: RemoteExecutionClientOpStats,
    pub local_cache: LocalCacheRemoteExecutionClientStats,
}

/// Whether per-backend statistics are all zero.
pub open spec fn per_backend_is_zero(s: PerBackendRemoteExecutionClientStats) -> bool {
    &&& s.zdb == (BackendStats { queries: 0, bytes: 0 })
    &&& s.zgateway == (BackendStats { queries: 0, bytes: 0 })
    &&& s.manifold == (BackendStats { queries: 0, bytes: 0 })
    &&& s.hedwig == (BackendStats { queries: 0, bytes: 0 })
}

/// Whether operation counts are all zero.
pub open spec fn op_stats_is_zero(s: RemoteExecutionClientOpStats) -> bool {
    s.started == 0 && s.finished_successfully == 0 && s.finished_with_error == 0
}

impl Default for RemoteExecutionClientStats {
    fn default() -> (res: Self)
        ensures
            res.uploaded == 0,
            res.downloaded == 0,
            per_backend_is_zero(res.upload_stats),
            per_backend_is_zero(res.download_stats),
            op_stats_is_zero(res.uploads),
            op_stats_is_zero(res.downloads),
            op_stats_is_zero(res.action_cache),
            op_stats_is_zero(res.executes),
            op_stats_is_zero(res.materializes),
            op_stats_is_zero(res.write_action_results),
            op_stats_is_zero(res.get_digest_expirations),
            res.local_cache == LocalCacheRemoteExecutionClientStats::zero(),
    {
        RemoteExecutionClientStats {
            uploaded: 0,
            downloaded: 0,
            upload_stats: PerBackendRemoteExecutionClientStats::default(),
            download_stats: PerBackendRemoteExecutionClientStats::default(),
            uploads: RemoteExecutionClientOpStats::default(),
            downloads: RemoteExecutionClientOpStats::default(),
            action_cache: RemoteExecutionClientOpStats::default(),
            executes: RemoteExecutionClientOpStats::default(),
            materializes: RemoteExecutionClientOpStats::default(),
            write_action_results: RemoteExecutionClientOpStats::default(),
            get_digest_expirations: RemoteExecutionClientOpStats::default(),
            local_cache: LocalCacheRemoteExecutionClientStats::default(),
        }
    }
}

/// The figures of backend `b` in `s` (none for a backend outside the four).
pub open spec fn backend_figures(
    s: PerBackendRemoteExecutionClientStats,
    b: TStorageBackendType,
) -> BackendStats {
    match b {
        TStorageBackendType::ZDB => s.zdb,
        TStorageBackendType::ZGATEWAY => s.zgateway,
        TStorageBackendType::MANIFOLD => s.manifold,
        TStorageBackendType::HEDWIG => s.hedwig,
        TStorageBackendType::Other(_) => BackendStats { queries: 0, bytes: 0 },
    }
}

/// An entry of one backend leaves the figures of every other backend as
/// they were.
pub proof fn law_entry_touches_only_its_backend(
    s: PerBackendRemoteExecutionClientStats,
    typ: TStorageBackendType,
    re: TStorageBackendStats,
    b: TStorageBackendType,
)
    requires
        b != typ,
    ensures
        backend_figures(s.after_entry(typ, re), b) == backend_figures(s, b),
{
}

/// After a report, each of the four backends holds the figures of its own
/// last entry, converted to counts, or its previous figures if the report
/// has no entry of it.
pub proof fn law_last_entry_of_each_backend(
    s: PerBackendRemoteExecutionClientStats,
    entries: Seq<(TStorageBackendType, TStorageBackendStats)>,
    b: TStorageBackendType,
)
    requires
        !(b is Other),
    ensures
        (forall|j: int| 0 <= j < entries.len() ==> (#[trigger] entries[j]).0 != b)
            ==> backend_figures(s.after_entries(entries), b) == backend_figures(s, b),
        forall|k: int|
            0 <= k < entries.len() && (#[trigger] entries[k]).0 == b && (forall|j: int|
                k < j < entries.len() ==> (#[trigger] entries[j]).0 != b) ==> backend_figures(
                s.after_entries(entries),
                b,
            ).queries == entries[k].1.queries_count as u64 && backend_figures(
                s.after_entries(entries),
                b,
            ).bytes == entries[k].1.bytes as u64,
    decreases entries.len(),
{
    if entries.len() > 0 {
        let prev = entries.drop_last();
        let n = entries.len() - 1;
        law_last_entry_of_each_backend(s, prev, b);
        assert forall|j: int| 0 <= j < prev.len() implies #[trigger] prev[j] == entries[j] by {}
        if entries[n].0 == b {
            assert(backend_figures(s.after_entries(entries), b) == backend_stats_of(entries[n].1));
        } else {
            law_entry_touches_only_its_backend(s.after_entries(prev), entries[n].0, entries[n].1, b);
            assert forall|k: int|
                0 <= k < entries.len() && (#[trigger] entries[k]).0 == b && (forall|j: int|
                    k < j < entries.len() ==> (#[trigger] entries[j]).0 != b) implies backend_figures(
                s.after_entries(entries),
                b,
            ).queries == entries[k].1.queries_count as u64 && backend_figures(
                s.after_entries(entries),
                b,
            ).bytes == entries[k].1.bytes as u64 by {
                assert(k < n);
                assert(prev[k] == entries[k]);
                assert forall|j: int| k < j < prev.len() implies (#[trigger] prev[j]).0 != b by {
                    assert(prev[j] == entries[j]);
                }
            }
        }
    }
}

/// Whether `total` is `before + added`, wrapped into the range of `i64`.
pub open spec fn wrapped_sum(total: i64, before: i64, added: i64) -> bool {
    let exact = before + added;
    ||| i64::MIN <= exact <= i64::MAX && total == exact
    ||| exact > i64::MAX && total == exact - 0x1_0000_0000_0000_0000
    ||| exact < i64::MIN && total == exact + 0x1_0000_0000_0000_0000
}

/// A report adds each of its figures to the matching total, wrapping
/// around on overflow, whatever its other figures.
pub proof fn law_report_adds_every_figure(
    totals: LocalCacheRemoteExecutionClientStats,
    stat: TLocalCacheStats,
)
    ensures
        ({
            let t = totals.after_report(stat);
            &&& wrapped_sum(t.hits_files, totals.hits_files, stat.hits_files)
            &&& wrapped_sum(t.hits_bytes, totals.hits_bytes, stat.hits_bytes)
            &&& wrapped_sum(t.misses_files, totals.misses_files, stat.misses_files)
            &&& wrapped_sum(t.misses_bytes, totals.misses_bytes, stat.misses_bytes)
            &&& wrapped_sum(
                t.hits_from_memory,
                totals.hits_from_memory,
                stat.cache_funnel_stats.digests_served_from_memory,
            )
            &&& wrapped_sum(
                t.hits_from_fs,
                totals.hits_from_fs,
                stat.cache_funnel_stats.digests_served_from_fs,
            )
            &&& wrapped_sum(t.cache_lookups, totals.cache_lookups, stat.total_cache_lookup_attempts)
            &&& wrapped_sum(
                t.cache_lookup_latency_microseconds,
                totals.cache_lookup_latency_microseconds,
                stat.cache_lookup_latency_microseconds,
            )
        }),
{
}

/// The counts reported of counters that start from nothing and see a run
/// of operations, each finishing only after it started, are the number of
/// starts, of successful finishes and of failed finishes, while no count
/// overflows.
pub proof fn law_reported_counts_after_operations(events: Seq<OpEvent>)
    requires
        finishes_follow_starts(events),
        starts(events) <= u32::MAX,
    ensures
        <RemoteExecutionClientOpStats as vstd::std_specs::convert::FromSpec<&OpStats>>::from_spec(
            &OpStats::initial().after_events(events),
        ) == (RemoteExecutionClientOpStats {
            started: starts(events) as u32,
            finished_successfully: finishes(events, true) as u32,
            finished_with_error: finishes(events, false) as u32,
        }),
{
    law_counters_after_operations(events);
}

/// The local cache statistics reported are the totals so far, field by
/// field.
pub proof fn law_reported_local_cache_totals(stats: LocalCacheStats)
    ensures
        ({
            let r = <LocalCacheRemoteExecutionClientStats as vstd::std_specs::convert::FromSpec<
                &LocalCacheStats,
            >>::from_spec(&stats);
            let t = stats.totals();
            &&& r.hits_files == t.hits_files
            &&& r.hits_bytes == t.hits_bytes
            &&& r.misses_files == t.misses_files
            &&& r.misses_bytes == t.misses_bytes
            &&& r.hits_from_memory == t.hits_from_memory
            &&& r.hits_from_fs == t.hits_from_fs
            &&& r.cache_lookups == t.cache_lookups
            &&& r.cache_lookup_latency_microseconds == t.cache_lookup_latency_microseconds
        }),
{
}

/// The operation counts reported are the live counters, one by one.
pub proof fn law_reported_op_counts(stats: OpStats)
    ensures
        ({
            let r = <RemoteExecutionClientOpStats as vstd::std_specs::convert::FromSpec<
                &OpStats,
            >>::from_spec(&stats);
            &&& r.started == stats.started_count()
            &&& r.finished_successfully == stats.succeeded_count()
            &&& r.finished_with_error == stats.failed_count()
        }),
{
}

} // verus!
