//! The file-drop request/response channel to the host: where the files live
//! and when to stop waiting for an answer.
//!
//! The guest writes its request file, then polls for the response file every
//! ten milliseconds for up to ten seconds. `rpc_poll_step` makes each decision
//! of that loop; the caller performs the file operations and the sleeps.

use vstd::prelude::*;

verus! {

/// Where the request and response files live.
pub struct RpcConfig {
    pub work_dir: String,
    pub request_file: String,
    pub response_file: String,
}

/// Time between two looks for the response file, in milliseconds.
pub const RPC_POLL_INTERVAL_MS: u64 = 10;

/// How long to wait for the response file, in milliseconds.
pub const RPC_TIMEOUT_MS: u64 = 10000;

impl RpcConfig {
    /// A configuration for the given work directory; a file name that is not
    /// given takes its default, `wasm_rpc_request.json` or `wasm_rpc_response.json`.
    pub fn new(work_dir: String, request_file: Option<String>, response_file: Option<String>) -> (r:
        RpcConfig)
        ensures
            r.work_dir@ == work_dir@,
            r.request_file@ == match request_file {
                Some(f) => f@,
                None => "wasm_rpc_request.json"@,
            },
            r.response_file@ == match response_file {
                Some(f) => f@,
                None => "wasm_rpc_response.json"@,
            },
    {
        let request_file = match request_file {
            Some(f) => f,
            None => String::from_str("wasm_rpc_request.json"),
        };
        let response_file = match response_file {
            Some(f) => f,
            None => String::from_str("wasm_rpc_response.json"),
        };
        RpcConfig { work_dir, request_file, response_file }
    }

    /// The request file's path: the file name joined onto the work directory.
    pub fn request_path(&self) -> (r: String)
        ensures
            r@ == join_path(self.work_dir@, self.request_file@),
    {
        join(&self.work_dir, &self.request_file)
    }

    /// The response file's path: the file name joined onto the work directory.
    pub fn response_path(&self) -> (r: String)
        ensures
            r@ == join_path(self.work_dir@, self.response_file@),
    {
        join(&self.work_dir, &self.response_file)
    }
}

/// A file name joined onto a directory, as paths join: an absolute name
/// stands alone; otherwise the name follows the directory, with a `/`
/// between them unless the directory is empty or already ends in one.
pub open spec fn join_path(dir: Seq<char>, name: Seq<char>) -> Seq<char> {
    if name.len() > 0 && name[0] == '/' {
        name
    } else if dir.len() == 0 || dir[dir.len() - 1] == '/' {
        dir + name
    } else {
        dir + "/"@ + name
    }
}

fn join(dir: &String, name: &String) -> (r: String)
    ensures
        r@ == join_path(dir@, name@),
{
    let name_len = name.as_str().unicode_len();
    if name_len > 0 && name.as_str().get_char(0) == '/' {
        return name.clone();
    }
    let dir_len = dir.as_str().unicode_len();
    let mut p = dir.clone();
    if !(dir_len == 0 || dir.as_str().get_char(dir_len - 1) == '/') {
        p.append("/");
    }
    p.append(name.as_str());
    p
}

/// What the polling loop does next.
pub enum PollAction {
    /// The response file is there: read it.
    ReadResponse,
    /// Sleep one interval; the elapsed time is then this many milliseconds.
    Wait(u64),
    /// Give up, with this message.
    TimedOut(String),
}

/// The next move of the polling loop, after `elapsed_ms` milliseconds of waiting.
pub fn rpc_poll_step(elapsed_ms: u64, response_present: bool) -> (r: PollAction)
    ensures
        elapsed_ms < RPC_TIMEOUT_MS && response_present ==> r is ReadResponse,
        elapsed_ms < RPC_TIMEOUT_MS && !response_present ==> r == PollAction::Wait(
            (elapsed_ms + RPC_POLL_INTERVAL_MS) as u64,
        ),
        elapsed_ms >= RPC_TIMEOUT_MS ==> r is TimedOut && r->TimedOut_0@
            == "RPC call timeout after 10s"@,
{
    if elapsed_ms < RPC_TIMEOUT_MS {
        if response_present {
            PollAction::ReadResponse
        } else {
            PollAction::Wait(elapsed_ms + RPC_POLL_INTERVAL_MS)
        }
    } else {
        PollAction::TimedOut(String::from_str("RPC call timeout after 10s"))
    }
}

} // verus!
