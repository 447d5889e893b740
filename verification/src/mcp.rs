//! Servers of the Model Context Protocol: what a connection shows, and what a
//! failed one is told as.
use vstd::prelude::*;

use crate::errors::AppError;
use crate::text::{cat2, cat3, cat4, cat5, contains, join, number_text};

verus! {

broadcast use vstd::string::group_string_axioms;

/// How long a server may take to answer the handshake, in seconds.
pub const HANDSHAKE_TIMEOUT_SECONDS: u64 = 60;

/// A tool that a server offers.
#[derive(Debug, PartialEq, Eq)]
pub struct McpToolInfo {
    pub name: String,
    pub description: Option<String>,
}

/// A connection and what the server offers.
#[derive(Debug, PartialEq, Eq)]
pub struct McpConnection {
    pub server_name: String,
    pub server_version: Option<String>,
    pub tool_count: usize,
    pub tools: Vec<McpToolInfo>,
}

/// What is shown for a server that is started as a command.
pub fn stdio_label(command: &str, args: &Vec<String>) -> (r: String)
    ensures
        r@ == command@ + " "@ + crate::text::joined(crate::text::texts(args@), " "@),
{
    let args = join(args, " ");
    cat3(command, " ", args.as_str())
}

/// The error for a server that could not be started.
pub fn launch_error(command: &str, reason: &str) -> (r: AppError)
    ensures
        r matches AppError::Mcp(message) && message@ == "could not launch MCP server `"@ + command@
            + "`: "@ + reason@,
{
    AppError::Mcp(cat4("could not launch MCP server `", command, "`: ", reason))
}

/// The error for a server that did not answer in time.
pub fn timeout_error(label: &str) -> (r: AppError)
    ensures
        r matches AppError::Mcp(message) && message@ == "timed out after "@
            + crate::text::decimal(HANDSHAKE_TIMEOUT_SECONDS as nat)
            + "s waiting for MCP server `"@ + label@ + "` to initialize"@,
{
    let seconds = number_text(HANDSHAKE_TIMEOUT_SECONDS);
    AppError::Mcp(
        cat5(
            "timed out after ",
            seconds.as_str(),
            "s waiting for MCP server `",
            label,
            "` to initialize",
        ),
    )
}

/// What a failed handshake is told as.
pub open spec fn connect_message(label: Seq<char>, reason: Seq<char>) -> Seq<char> {
    "could not connect to MCP server `"@ + label + "`: "@ + reason
}

/// The error for a failed handshake.
pub fn connect_error(label: &str, reason: &str) -> (r: AppError)
    ensures
        r matches AppError::Mcp(message) && message@ == connect_message(label@, reason@),
{
    AppError::Mcp(cat4("could not connect to MCP server `", label, "`: ", reason))
}

/// What a failed listing is told as.
pub open spec fn listing_message(server: Seq<char>, reason: Seq<char>) -> Seq<char> {
    "connected to MCP server `"@ + server + "` but listing tools failed: "@ + reason
}

/// The error for a server that answered the handshake but did not list its
/// tools.
pub fn listing_error(server: &str, reason: &str) -> (r: AppError)
    ensures
        r matches AppError::Mcp(message) && message@ == listing_message(server@, reason@),
{
    AppError::Mcp(cat4("connected to MCP server `", server, "` but listing tools failed: ", reason))
}

/// What a user can do about a URL that does not connect.
pub const HTTP_HINT: &'static str = ". Check the URL is reachable and serves a Streamable-HTTP MCP endpoint (legacy SSE-only servers are not supported).";

/// Adds to the error of a URL that does not connect what a user can do about it;
/// any other error stays.
pub fn http_error(error: AppError) -> (r: AppError)
    ensures
        match error {
            AppError::Mcp(message) if crate::text::contains_text(
                message@,
                "could not connect"@,
            ) => r matches AppError::Mcp(told) && told@ == message@ + HTTP_HINT@,
            _ => r == error,
        },
{
    match error {
        AppError::Mcp(message) => {
            if contains(message.as_str(), "could not connect") {
                AppError::Mcp(cat2(message.as_str(), HTTP_HINT))
            } else {
                AppError::Mcp(message)
            }
        },
        other => other,
    }
}

/// What a server is called: as it says, else by its label.
pub fn server_identity(reported: Option<(String, String)>, label: &str) -> (r: (
    String,
    Option<String>,
))
    ensures
        match reported {
            Some((name, version)) => r.0 == name && r.1 == Some(version),
            None => r.0@ == label@ && r.1 is None,
        },
{
    match reported {
        Some((name, version)) => (name, Some(version)),
        None => (label.to_string(), None),
    }
}

/// A connection with the tools that the server lists.
pub fn connection(
    server_name: String,
    server_version: Option<String>,
    tools: Vec<McpToolInfo>,
) -> (r: McpConnection)
    ensures
        r.server_name == server_name,
        r.server_version == server_version,
        r.tool_count == tools@.len(),
        r.tools == tools,
{
    let tool_count: usize = tools.len();
    McpConnection { server_name, server_version, tool_count, tools }
}

/// The two ways in which a server can fail are told apart: a listing that failed
/// is never told as a connection that did.
pub proof fn failures_are_told_apart(
    label: Seq<char>,
    server: Seq<char>,
    a: Seq<char>,
    b: Seq<char>,
)
    ensures
        connect_message(label, a) != listing_message(server, b),
{
    reveal_strlit("could not connect to MCP server `");
    reveal_strlit("connected to MCP server `");
    let x = connect_message(label, a);
    let y = listing_message(server, b);
    assert(x[2] == 'u');
    assert(y[2] == 'n');
}

/// Both messages of a failure name the server and, behind it, the reason.
pub proof fn failures_name_server_and_reason(server: Seq<char>, reason: Seq<char>)
    ensures
        crate::text::one_after_other(connect_message(server, reason), server, reason),
        crate::text::one_after_other(listing_message(server, reason), server, reason),
{
    let none = Seq::<char>::empty();
    crate::text::lemma_one_after_other(
        "could not connect to MCP server `"@,
        server,
        "`: "@,
        reason,
        none,
    );
    assert("could not connect to MCP server `"@ + server + "`: "@ + reason + none
        =~= connect_message(server, reason));
    crate::text::lemma_one_after_other(
        "connected to MCP server `"@,
        server,
        "` but listing tools failed: "@,
        reason,
        none,
    );
    assert("connected to MCP server `"@ + server + "` but listing tools failed: "@ + reason + none
        =~= listing_message(server, reason));
}

} // verus!
