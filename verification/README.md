# phux_core_logic

The decisions of a terminal multiplexer, proved: how panes are tiled and their
dividers drawn, when a frame is painted and shipped, how remote consumers
authenticate, how a server hands itself over to a new binary, and how plugin
manifests are normalized.

- `src/` is the library, verified by Verus: where a function has a contract, its
  body is proved against it. The wrappers marked `external_body` and the declared
  outside items are not: they call outside crates or std, and what their
  contracts say is believed. Files ending in `_laws.rs` hold what relates several
  functions.
- `tests/` runs the library on concrete values, with the real outside crates.
- `app/` is ordinary Rust around it: files, threads, processes, async plumbing.

Layout and painting: `ratio`, `layout`, `tiling`, `grid`, `rasterize`,
`multi_pane`, `theme`, `canvas`, `dividers`. Frame scheduling and output:
`repaint`, `render_prof`, `stdout_writer`, `pump`, `render_pool`. Credentials:
`timestamp`, `secrets`, `credentials`, `auth`, `issuing`, `atomic_write`. Server
and tools: `upgrade`, `report_state`, `mcp`, `companion`, `diagnostic_tools`,
`plugin`, `loader`, `spacer`.
