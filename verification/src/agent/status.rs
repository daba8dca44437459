//! An agent's identity, port and status: whether a command runs in its
//! terminal, judged from the shell's child processes.
use crate::config::helper::{parse_u64, spec_parse_u64};
use crate::text::{chars_of, concat, decimal, decimal_chars, keep_non_blank, lines, lines_of, string_of, texts_view, trim, trim_chars};
use vstd::prelude::*;

verus! {

/// Whether an agent's terminal runs a command.
#[derive(Debug, Clone, Copy, PartialEq, Eq, Structural)]
pub enum AgentStatus {
    /// Waiting; only triggers act on it.
    Idle,
    /// Running a command; rules act on its output.
    Active,
}

/// The id of the agent at a position of the pool: `agent-<index>`.
pub open spec fn spec_agent_id(index: nat) -> Seq<char> {
    "agent-"@ + decimal(index)
}

/// The id of the agent at a position of the pool.
pub fn agent_id(index: usize) -> (id: String)
    ensures
        id@ == spec_agent_id(index as nat),
{
    let d = decimal_chars(index);
    concat("agent-", string_of(d.as_slice()).as_str())
}

/// The port of an agent's web view: the base port plus its position.
pub fn agent_web_port(base_port: u16, index: usize) -> (port: u16)
    requires
        base_port + index <= u16::MAX,
    ensures
        port == base_port + index,
{
    base_port + index as u16
}

/// The agent a request for position `index` goes to, in a pool of `size`:
/// positions wrap around.
pub fn pool_slot(index: usize, size: usize) -> (slot: usize)
    requires
        size > 0,
    ensures
        slot == index % size,
        slot < size,
{
    index % size
}

/// The status the shell's children show: active while it has any.
pub fn status_for_children(child_count: usize) -> (s: AgentStatus)
    ensures
        s == (if child_count == 0 {
            AgentStatus::Idle
        } else {
            AgentStatus::Active
        }),
{
    if child_count == 0 {
        AgentStatus::Idle
    } else {
        AgentStatus::Active
    }
}

/// The new status to record, if it differs from the current one.
pub fn status_change(current: AgentStatus, observed: AgentStatus) -> (c: Option<AgentStatus>)
    ensures
        c == (if current == observed {
            None
        } else {
            Some(observed)
        }),
{
    if current == observed {
        None
    } else {
        Some(observed)
    }
}

/// What `u32::from_str` accepts: a `u64` number that fits in 32 bits.
pub open spec fn spec_parse_u32(s: Seq<char>) -> Option<u32> {
    match spec_parse_u64(s) {
        Some(n) => if n <= u32::MAX {
            Some(n as u32)
        } else {
            None
        },
        None => None,
    }
}

/// The process ids `pgrep` printed: each line, trimmed, that is a number;
/// other lines are skipped.
pub open spec fn spec_child_pids(stdout: Seq<char>) -> Seq<u32> {
    lines(stdout).filter_map(|l: Seq<char>| spec_parse_u32(trim(l)))
}

/// The process ids in the output of `pgrep`.
pub fn parse_child_pids(stdout: &str) -> (pids: Vec<u32>)
    ensures
        pids@ == spec_child_pids(stdout@),
{
    let ghost f = |l: Seq<char>| spec_parse_u32(trim(l));
    let cs = chars_of(stdout);
    let ls = lines_of(cs.as_slice());
    let ghost lv = texts_view(ls@);
    let mut pids: Vec<u32> = Vec::new();
    let mut i: usize = 0;
    proof {
        assert(lv.take(0) =~= Seq::<Seq<char>>::empty());
        assert(pids@ =~= lv.take(0).filter_map(f));
    }
    while i < ls.len()
        invariant
            i <= ls@.len(),
            lv == texts_view(ls@),
            lv == lines(stdout@),
            f == (|l: Seq<char>| spec_parse_u32(trim(l))),
            pids@ == lv.take(i as int).filter_map(f),
        decreases ls@.len() - i,
    {
        let t = trim_chars(ls[i].as_slice());
        assert(lv[i as int] == ls@[i as int]@);
        assert(lv.take(i + 1).drop_last() =~= lv.take(i as int));
        assert(lv.take(i + 1).last() == lv[i as int]);
        let ghost before = pids@;
        match parse_u64(t.as_slice()) {
            Some(n) => {
                if n <= 0xffff_ffffu64 {
                    pids.push(n as u32);
                    assert(pids@ =~= before + seq![n as u32]);
                }
            },
            None => {},
        }
        i = i + 1;
    }
    assert(lv.take(lv.len() as int) == lv);
    pids
}

} // verus!
