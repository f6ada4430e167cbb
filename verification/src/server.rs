//! Server lifecycle decisions.
//!
//! The engine server is spawned and signalled by the surrounding
//! application; what is verified here is every decision along the way: how
//! the server script is resolved, the argument list it is started with,
//! where the process id is persisted, how persisted text is read back as a
//! process id, and what stop and status conclude from what they find.

use vstd::prelude::*;
use crate::textutil::{dec_of, u32_of_trimmed, trim_spec, ws_lo, ws_hi, append_u64_dec,
    string_from_chars, trim_bounds, parse_u32_range};

verus! {

/// Where a script was found: beside the running binary, in the working
/// directory by bare name, or in the working directory by `./` path.
#[derive(Clone, Copy, PartialEq, Eq, Structural, Debug)]
pub enum ScriptLocation {
    Primary,
    CurrentDir,
    CurrentDirRelative,
}

/// What stop should do: signal the recorded process, or report that no
/// server is running — a normal outcome, not an error.
#[derive(Clone, Copy, PartialEq, Eq, Structural, Debug)]
pub enum StopAction {
    Terminate(u32),
    NotRunning,
}

/// The well-known path that holds the running server's process id.
pub fn get_pid_file_path() -> (r: String)
    ensures
        r@ == "/tmp/rustocr_server.pid"@,
{
    String::from_str("/tmp/rustocr_server.pid")
}

/// The process id read from persisted text, if it parses as one.
pub open spec fn pid_of(s: Seq<char>) -> Option<u32> {
    u32_of_trimmed(trim_spec(s))
}

/// Parses persisted process-id text: surrounding whitespace is trimmed and
/// the rest must be an unsigned decimal number.
pub fn parse_pid(s: &str) -> (r: Option<u32>)
    ensures
        r == pid_of(s@),
{
    let (a, b) = trim_bounds(s);
    if a >= b {
        proof {
            assert(trim_spec(s@) =~= Seq::<char>::empty());
        }
        return None;
    }
    proof {
        assert(trim_spec(s@) == s@.subrange(ws_lo(s@, 0), ws_hi(s@, s@.len() as int)));
    }
    parse_u32_range(s, a, b)
}

/// Resolves the bridge script: the copy beside
/// the binary wins when it exists; otherwise the working directory is
/// tried, by bare name and then by `./` path; when nothing exists the
/// binary-side candidate is still reported, and the caller fails on it.
pub fn choose_bridge_location(primary_exists: bool, cwd_exists: bool, relative_exists: bool) -> (r:
    ScriptLocation)
    ensures
        r == (if primary_exists {
            ScriptLocation::Primary
        } else if cwd_exists {
            ScriptLocation::CurrentDir
        } else if relative_exists {
            ScriptLocation::CurrentDirRelative
        } else {
            ScriptLocation::Primary
        }),
{
    if primary_exists {
        ScriptLocation::Primary
    } else if cwd_exists {
        ScriptLocation::CurrentDir
    } else if relative_exists {
        ScriptLocation::CurrentDirRelative
    } else {
        ScriptLocation::Primary
    }
}

/// Resolves the server script: beside the binary, else the working
/// directory, else the binary-side candidate is still reported.
pub fn choose_server_location(primary_exists: bool, cwd_exists: bool) -> (r: ScriptLocation)
    ensures
        r == (if primary_exists {
            ScriptLocation::Primary
        } else if cwd_exists {
            ScriptLocation::CurrentDir
        } else {
            ScriptLocation::Primary
        }),
{
    if primary_exists {
        ScriptLocation::Primary
    } else if cwd_exists {
        ScriptLocation::CurrentDir
    } else {
        ScriptLocation::Primary
    }
}

/// The argument list the server process is started with:
/// `--host <host> --port <port>`.
pub fn server_args(host: &String, port: u16) -> (r: Vec<String>)
    ensures
        r@.len() == 4,
        r@[0]@ == "--host"@,
        r@[1] == host,
        r@[2]@ == "--port"@,
        r@[3]@ == dec_of(port as int),
{
    let mut port_text: Vec<char> = Vec::new();
    append_u64_dec(&mut port_text, port as u64);
    let mut args: Vec<String> = Vec::new();
    args.push(String::from_str("--host"));
    args.push(host.clone());
    args.push(String::from_str("--port"));
    args.push(string_from_chars(&port_text));
    args
}

/// What stop does with what it found: a recorded process id is signalled
/// and the record deleted; no record means "not running", reported as a
/// normal outcome.
pub fn stop_decision(pid: Option<u32>) -> (r: StopAction)
    ensures
        r == (match pid {
            Some(p) => StopAction::Terminate(p),
            None => StopAction::NotRunning,
        }),
{
    match pid {
        Some(p) => StopAction::Terminate(p),
        None => StopAction::NotRunning,
    }
}

/// The server counts as running exactly when a process id is recorded and
/// a live process with that id is observable.
pub fn running_status(pid: Option<u32>, process_alive: bool) -> (r: bool)
    ensures
        r == (pid is Some && process_alive),
{
    match pid {
        Some(_) => process_alive,
        None => false,
    }
}

} // verus!
