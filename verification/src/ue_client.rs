//! What the hub learns from an Unreal MCP endpoint: its health, its tools and the outcome
//! of a tool call.
use vstd::prelude::*;

use crate::json::{JsonValue, JsonView};
use crate::text::trim;

verus! {

/// The health of an MCP endpoint: whether it answered, how many tools it lists and how
/// long the probe took.
#[derive(Clone, Copy)]
pub struct EndpointHealth {
    pub healthy: bool,
    pub tool_count: usize,
    pub latency_ms: u128,
}

/// One tool that an endpoint exposes.
pub struct ToolDescriptor {
    pub name: String,
    pub description: String,
    pub input_schema: JsonValue,
}

pub struct ToolDescriptorView {
    pub name: Seq<char>,
    pub description: Seq<char>,
    pub input_schema: JsonView,
}

impl View for ToolDescriptor {
    type V = ToolDescriptorView;

    open spec fn view(&self) -> ToolDescriptorView {
        ToolDescriptorView {
            name: self.name@,
            description: self.description@,
            input_schema: self.input_schema@,
        }
    }
}

/// The outcome of one tool call.
pub struct ToolCallOutput {
    pub success: bool,
    pub content: Vec<JsonValue>,
    pub structured_content: Option<JsonValue>,
    pub error: Option<String>,
    pub duration_ms: u128,
}

pub struct ToolCallOutputView {
    pub success: bool,
    pub content: Seq<JsonView>,
    pub structured_content: Option<JsonView>,
    pub error: Option<Seq<char>>,
    pub duration_ms: u128,
}

impl View for ToolCallOutput {
    type V = ToolCallOutputView;

    open spec fn view(&self) -> ToolCallOutputView {
        ToolCallOutputView {
            success: self.success,
            content: self.content@.map_values(|v: JsonValue| v@),
            structured_content: match self.structured_content {
                Some(v) => Some(v@),
                None => None,
            },
            error: match self.error {
                Some(e) => Some(e@),
                None => None,
            },
            duration_ms: self.duration_ms,
        }
    }
}

/// The client that talks to Unreal MCP endpoints over streamable HTTP.
pub struct UeClient;

/// Why no connection to an endpoint was attempted.
pub enum ClientError {
    EmptyUrl,
}

impl ClientError {
    pub fn message(&self) -> (m: String)
        ensures
            m@ == "endpoint url is empty"@,
    {
        crate::text::owned("endpoint url is empty")
    }
}

impl UeClient {
    /// Refuses an endpoint URL that is blank; a connection is attempted only otherwise.
    pub fn check_url(url: &str) -> (r: Result<(), ClientError>)
        ensures
            r is Ok <==> trim(url@).len() > 0,
    {
        let t = crate::text::trim_str(url);
        if t.as_str().is_empty() {
            Err(ClientError::EmptyUrl)
        } else {
            Ok(())
        }
    }
}

} // verus!
