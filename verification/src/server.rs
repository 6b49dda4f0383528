//! Starting the feed server: the command that runs it and the decisions of
//! the wait for it to answer.

use vstd::prelude::*;

verus! {

/// The address polled to learn that the server answers.
pub const SERVER_ADDRESS: &'static str = "http://127.0.0.1:3000";

/// How many times the server is polled before the wait ends.
pub const MAX_START_ATTEMPTS: u32 = 20;

/// How long to wait before each poll, in milliseconds.
pub const POLL_INTERVAL_MS: u64 = 500;

/// How the server is run: the program and the environment it gets.
#[derive(Debug, Clone, PartialEq)]
pub struct ServerLaunch {
    pub program: String,
    pub env: Vec<(String, String)>,
}

/// The Node.js program: `node.exe` on Windows, `node` elsewhere.
pub open spec fn node_program(windows: bool) -> Seq<char> {
    if windows {
        "node.exe"@
    } else {
        "node"@
    }
}

fn env_pair(k: &str, v: &str) -> (res: (String, String))
    ensures
        res.0@ == k@,
        res.1@ == v@,
{
    (String::from_str(k), String::from_str(v))
}

/// How the server is run: with Node.js, in production mode, on port 3000
/// of the loopback address.
pub fn server_launch(windows: bool) -> (res: ServerLaunch)
    ensures
        res.program@ == node_program(windows),
        res.env@.len() == 3,
        res.env@[0].0@ == "NODE_ENV"@ && res.env@[0].1@ == "production"@,
        res.env@[1].0@ == "PORT"@ && res.env@[1].1@ == "3000"@,
        res.env@[2].0@ == "HOST"@ && res.env@[2].1@ == "127.0.0.1"@,
{
    let program = if windows {
        String::from_str("node.exe")
    } else {
        String::from_str("node")
    };
    let mut env: Vec<(String, String)> = Vec::new();
    env.push(env_pair("NODE_ENV", "production"));
    env.push(env_pair("PORT", "3000"));
    env.push(env_pair("HOST", "127.0.0.1"));
    ServerLaunch { program, env }
}

/// The error for a server that could not be started.
pub fn spawn_failure(detail: &str) -> (res: String)
    ensures
        res@ == "Failed to start server: "@ + detail@
            + ". Please ensure Node.js is installed and in PATH"@,
{
    let mut m = String::from_str("Failed to start server: ");
    m.append(detail);
    m.append(". Please ensure Node.js is installed and in PATH");
    m
}

/// What follows a poll of the starting server.
#[derive(Debug, Clone, Copy, PartialEq, Eq)]
pub enum StartupStep {
    /// The server answered: it has started.
    Started,
    /// No answer yet: wait and poll again.
    Wait,
    /// No answer after the last poll: go on with the process running.
    GaveUp,
}

/// What follows the poll numbered `attempt` (from 1), by whether the server
/// answered; and whether the wait is reported, which it is every fourth
/// unanswered poll.
pub open spec fn startup_step_of(attempt: u32, answered: bool) -> (StartupStep, bool) {
    if answered {
        (StartupStep::Started, false)
    } else if attempt < MAX_START_ATTEMPTS {
        (StartupStep::Wait, attempt % 4 == 0)
    } else {
        (StartupStep::GaveUp, attempt % 4 == 0)
    }
}

/// What follows a poll of the starting server.
pub fn startup_step(attempt: u32, answered: bool) -> (res: (StartupStep, bool))
    requires
        1 <= attempt <= MAX_START_ATTEMPTS,
    ensures
        res == startup_step_of(attempt, answered),
{
    if answered {
        (StartupStep::Started, false)
    } else if attempt < MAX_START_ATTEMPTS {
        (StartupStep::Wait, attempt % 4 == 0)
    } else {
        (StartupStep::GaveUp, attempt % 4 == 0)
    }
}

/// The wait ends: a run of polls, numbered from 1, that the server never
/// answers ends at poll `MAX_START_ATTEMPTS` with the process kept, and
/// no earlier poll ends it.
pub proof fn lemma_startup_wait_ends(attempt: u32)
    requires
        1 <= attempt <= MAX_START_ATTEMPTS,
    ensures
        startup_step_of(attempt, false).0 is GaveUp <==> attempt == MAX_START_ATTEMPTS,
        startup_step_of(attempt, false).0 is Wait <==> attempt < MAX_START_ATTEMPTS,
        startup_step_of(attempt, true).0 is Started,
{
}

} // verus!
