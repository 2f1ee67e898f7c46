//! The defaults and replies of the hub's MCP tools.
use vstd::prelude::*;

use crate::json::{JsonValue, JsonView};
use crate::text::{concat2, concat3, owned};

verus! {

broadcast use vstd::string::group_string_axioms;

/// Seconds a launch waits for its target by default.
pub fn default_wait_seconds() -> (r: u64)
    ensures
        r == 180,
{
    180
}

/// Calls a session report shows by default.
pub fn default_session_limit() -> (r: usize)
    ensures
        r == 50,
{
    50
}

/// The path of an added MCP target by default.
pub fn default_mcp_path() -> (r: String)
    ensures
        r@ == "/mcp"@,
{
    owned("/mcp")
}

/// The transport of an added MCP target by default.
pub fn default_mcp_transport() -> (r: String)
    ensures
        r@ == "http"@,
{
    owned("http")
}

/// Tool arguments as an object: an object's entries, none for null; any other value is
/// refused and handed back.
pub fn as_object(value: JsonValue) -> (r: Result<Vec<(String, JsonValue)>, JsonValue>)
    ensures
        match value@ {
            JsonView::Object(m) => r matches Ok(e) && crate::json::entries_view(e@) == m,
            JsonView::Null => r matches Ok(e) && e@.len() == 0,
            _ => r == Err::<Vec<(String, JsonValue)>, JsonValue>(value),
        },
{
    proof {
        crate::json::lemma_view_unfold(value);
    }
    match value {
        JsonValue::Object(m) => Ok(m),
        JsonValue::Null => Ok(Vec::new()),
        other => Err(other),
    }
}

/// What a switching tool answers.
pub enum Switch {
    Project,
    Mcp,
    Editor,
}

/// The reply to a switch to `name`: the new selection, or which kind of name was not found.
pub fn switch_reply(kind: Switch, name: &str, switched: bool) -> (r: Result<String, String>)
    ensures
        match r {
            Ok(m) => switched && m@ == match kind {
                Switch::Project => "active project switched to "@ + name@,
                Switch::Mcp => "active mcp switched to "@ + name@,
                Switch::Editor => "active editor switched to "@ + name@,
            },
            Err(m) => !switched && m@ == match kind {
                Switch::Project => "project '"@ + name@ + "' not found"@,
                Switch::Mcp => "mcp '"@ + name@ + "' not found"@,
                Switch::Editor => "instance '"@ + name@ + "' not found"@,
            },
        },
{
    if switched {
        Ok(
            match kind {
                Switch::Project => concat2("active project switched to ", name),
                Switch::Mcp => concat2("active mcp switched to ", name),
                Switch::Editor => concat2("active editor switched to ", name),
            },
        )
    } else {
        Err(
            match kind {
                Switch::Project => concat3("project '", name, "' not found"),
                Switch::Mcp => concat3("mcp '", name, "' not found"),
                Switch::Editor => concat3("instance '", name, "' not found"),
            },
        )
    }
}

} // verus!
