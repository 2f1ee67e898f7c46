# unreal_mcphub

A lifecycle-aware hub for Unreal Editor MCP endpoints: project configuration, MCP
target discovery, editor launch/stop/restart bookkeeping, session notes and call
history, crash lookup, plugin installation and a bridge into a bundled MCPHub.

The decisions of the hub are a library verified with Verus; the program around it
does the file, process and network work.

## Layout

- `src/` — the verified library.
  - `config.rs`, `state.rs`, `smap.rs`: the persisted configuration and instance
    state, as sorted maps with their invariants.
  - `paths.rs`, `projects.rs`: project files, engine detection, INI-driven MCP
    discovery strategies, binding a project and its targets.
  - `orchestrator.rs`, `lifecycle.rs`, `watcher.rs`: switching projects, targets and
    editors; what a launch, a discovery round, a health probe, a stop and a watcher
    refresh record.
  - `workspace.rs`, `samples.rs`, `verify.rs`: builds, crash reports, plugin
    installation, sample discovery and the live verification report.
  - `json.rs`, `json_args.rs`: JSON values and the `--arguments-json` reader (strict
    JSON, or the relaxed object syntax PowerShell forwards); `decimal.rs`: decimal digit
    strings as numbers and the magnitude at which a literal overflows `f64`.
  - `process.rs`, `submodule.rs`, `server.rs`, `cli.rs`, `ue_client.rs`: process
    tool output, the MCPHub bridge, tool defaults and replies, the command line.
  - `laws.rs`: properties that span several operations.
- `tests/` — tests of the library on concrete values.
- `app/` — the `unreal-mcphub` program: command line (clap), MCP server (rmcp over
  stdio or streamable HTTP), MCP client, the background watcher, and the file and
  process work.

## Files

Configuration lives in `~/.unreal-mcphub/config.json`, instance and session state in
`~/.unreal-mcphub/state.json`.
