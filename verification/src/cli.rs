//! The hub's command line as plain values: each command with its arguments.
use vstd::prelude::*;

verus! {

/// A parsed command line.
pub struct Cli {
    pub command: CliCommand,
}

/// The commands of the hub.
pub enum CliCommand {
    Serve { http: bool, host: String, port: u16 },
    Setup { path: Option<String>, engine: Option<String>, name: Option<String> },
    Status,
    Compile { target: Option<String>, configuration: Option<String> },
    Launch { wait_seconds: u64 },
    Discover,
    Health { instance: Option<String> },
    Session { instance: Option<String>, scope: String, limit: usize },
    Stop { instance: Option<String>, force: bool },
    Restart { wait_seconds: u64, force: bool },
    UseProject { project_name: String },
    UseMcp { mcp_id: String },
    AddMcp {
        mcp_id: String,
        project: Option<String>,
        name: Option<String>,
        host: String,
        port: u16,
        path: String,
        transport: String,
        auto_start: bool,
        activate: bool,
    },
    UseEditor { instance_key: String },
    ListTools { project: Option<String>, mcp: Option<String>, json: bool },
    CallTool { tool_name: String, project: Option<String>, mcp: Option<String>, arguments_json: String },
    InstallPlugin,
    SetPluginSource { local_path: Option<String>, repo_url: Option<String> },
    CrashReport,
    SyncMcphub { project: Option<String>, mcp: Option<String> },
    VerifyUe {
        compile: bool,
        wait_seconds: u64,
        stop_after: bool,
        output: Option<String>,
        summary: bool,
    },
}

/// The host `serve --http` listens on by default.
pub fn default_serve_host() -> (r: &'static str)
    ensures
        r@ == "127.0.0.1"@,
{
    "127.0.0.1"
}

/// The port `serve --http` listens on by default.
pub fn default_serve_port() -> (r: u16)
    ensures
        r == 9422,
{
    9422
}

/// The scope `session` shows by default.
pub fn default_session_scope() -> (r: &'static str)
    ensures
        r@ == "full"@,
{
    "full"
}

/// What a switching command prints.
pub fn switch_label(switched: bool) -> (r: &'static str)
    ensures
        r@ == (if switched {
            "switched"@
        } else {
            "not-found"@
        }),
{
    if switched {
        "switched"
    } else {
        "not-found"
    }
}

} // verus!
