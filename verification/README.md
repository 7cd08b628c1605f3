# buck2_bits

Pieces of a build system's core, written in Verus with their contracts
proved:

- `aggregated_metrics`: the state tracker of analysis results and action
  executions (`state`), the metrics it aggregates per top-level target and
  over all targets (`types`), laws of the tracker and of the aggregation
  (`laws`), and the proof that amortized figures add up to at most the
  whole (`amortization`).
- `re_stats`: remote-execution client statistics (operation counters,
  per-backend figures, local cache totals).
- `schedule_type`, `attr_inspect_options`, `cell_info`,
  `global_cfg_options`: small records and their queries.
- `error`: the library's error type.

`app/` holds what cannot be verified: reading the environment, the tokio
event loop around the tracker, counting futures, starlark type
construction, and copies of library types carrying outside derives.
