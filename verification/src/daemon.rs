//! Daemon bookkeeping: where the pid and state files live, and the
//! text that goes into the pid file.
//!
//! Reading, writing and signalling are host concerns and live outside
//! the library; the path arithmetic and the pid text format are here.

use vstd::prelude::*;
use crate::error::Error;
use crate::json::{parse_uint, parse_uint_at};

verus! {

/// The agent's run state as persisted beside the pid file.
#[derive(Debug, Clone, PartialEq)]
pub struct AgentState {
    pub pid: u32,
    pub started_at: u64,
    pub is_running: bool,
    pub uptime_seconds: u64,
    pub tasks_completed: u32,
}

/// Knows where the pid file and the state file live.
#[derive(Debug, Clone)]
pub struct DaemonManager {
    pub pid_file: String,
    pub state_file: String,
}

impl DaemonManager {
    /// A manager rooted at the given data directory.
    pub fn new(data_dir: &str) -> (r: Self)
        ensures
            r.pid_file@ == data_dir@ + "/orban-agent.pid"@,
            r.state_file@ == data_dir@ + "/state.json"@,
    {
        let mut pid_file = data_dir.to_owned();
        pid_file.append("/orban-agent.pid");
        let mut state_file = data_dir.to_owned();
        state_file.append("/state.json");
        DaemonManager { pid_file, state_file }
    }

    /// The pid file's path.
    pub fn pid_file(&self) -> (r: &String)
        ensures
            r@ == self.pid_file@,
    {
        &self.pid_file
    }

    /// The state file's path.
    pub fn state_file(&self) -> (r: &String)
        ensures
            r@ == self.state_file@,
    {
        &self.state_file
    }
}

/// What a pid file's text means: a whole canonical number that fits a
/// process id.
pub open spec fn spec_parse_pid(t: Seq<char>) -> Option<u32> {
    match parse_uint(t) {
        Some(p) => if p.1 == t.len() && p.0 <= u32::MAX {
            Some(p.0 as u32)
        } else {
            None
        },
        None => None,
    }
}

/// Parses the text of a pid file; exactly a canonical decimal number
/// that fits in a process id is accepted.
pub fn parse_pid_text(s: &str) -> (r: Result<u32, Error>)
    ensures
        match r {
            Ok(pid) => spec_parse_pid(s@) == Some(pid),
            Err(e) => spec_parse_pid(s@) is None && e is Unknown,
        },
{
    let n = s.unicode_len();
    proof {
        assert(s@.skip(0) =~= s@);
    }
    match parse_uint_at(s, 0, n) {
        Some(p) => {
            if p.1 == n && p.0 <= u32::MAX as u64 {
                Ok(p.0 as u32)
            } else {
                Err(Error::Unknown("invalid pid text".to_owned()))
            }
        },
        None => Err(Error::Unknown("invalid pid text".to_owned())),
    }
}

/// The text written into the pid file.
pub fn pid_file_text(pid: u32) -> (r: String)
    ensures
        r@ == crate::json::dec_digits(pid as nat),
        spec_parse_pid(r@) == Some(pid),
{
    let mut out = String::new();
    crate::json::write_uint(pid as u64, &mut out);
    proof {
        assert(Seq::<char>::empty() + crate::json::dec_digits(pid as nat) =~= crate::json::dec_digits(pid as nat));
        crate::json::lemma_parse_uint_round(pid as u64, Seq::<char>::empty());
        assert(crate::json::dec_digits(pid as nat) + Seq::<char>::empty() =~= crate::json::dec_digits(pid as nat));
    }
    out
}

} // verus!
