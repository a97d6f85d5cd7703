//! Sessions of agents and inference servers, from what the system shows of them.
pub mod auto_discover;
pub mod http;
pub mod llama_cpp;
pub mod location;
pub mod ollama;
pub mod odysseus;
pub mod opencode;
pub mod order;
pub mod process;
pub mod sanitize;
pub mod server;
pub mod vllm;

use crate::model::{child_models, ChildProcess, ChildProcessModel};
use process::{descendants, descendants_of, ProcInfo};
use std::collections::HashMap;
use vstd::prelude::*;

verus! {

broadcast use vstd::std_specs::hash::group_hash_axioms;

/// What all collectors share on one tick.
#[derive(Debug)]
pub struct SharedProcessData {
    /// The process table.
    pub process_info: HashMap<u32, ProcInfo>,
    /// The children of each process.
    pub children_map: HashMap<u32, Vec<u32>>,
    /// The ports that each process listens on.
    pub ports: HashMap<u32, Vec<u16>>,
    /// Whether this tick is one of the rarer ones on which caches are refreshed.
    pub slow_tick: bool,
}

/// The first port that a process listens on, if any.
pub open spec fn first_port(ports: Map<u32, Vec<u16>>, pid: u32) -> Option<u16> {
    if ports.contains_key(pid) && ports[pid]@.len() > 0 {
        Some(ports[pid]@[0])
    } else {
        None
    }
}

/// What is shown of those of the given processes that the table lists.
pub open spec fn shown_processes(
    info: Map<u32, ProcInfo>,
    ports: Map<u32, Vec<u16>>,
    pids: Seq<u32>,
) -> Seq<ChildProcessModel>
    decreases pids.len(),
{
    if pids.len() == 0 {
        Seq::empty()
    } else {
        let before = shown_processes(info, ports, pids.drop_last());
        let pid = pids.last();
        if info.contains_key(pid) {
            before.push(
                ChildProcessModel {
                    pid,
                    command: info[pid].command@,
                    mem_kb: info[pid].rss_kb,
                    port: first_port(ports, pid),
                },
            )
        } else {
            before
        }
    }
}

/// The processes below `pid` that the table lists.
pub open spec fn children_of(shared: SharedProcessData, pid: u32) -> Seq<ChildProcessModel> {
    shown_processes(
        shared.process_info@,
        shared.ports@,
        descendants_of(shared.children_map@, pid),
    )
}

/// The processes below `pid` that the table lists, each with the first port that
/// it listens on.
pub fn child_processes(shared: &SharedProcessData, pid: u32) -> (r: Vec<ChildProcess>)
    ensures
        child_models(r@) == children_of(*shared, pid),
{
    let below = descendants(&shared.children_map, pid);
    let mut out: Vec<ChildProcess> = Vec::new();
    let mut i: usize = 0;
    assert(child_models(out@) =~= shown_processes(shared.process_info@, shared.ports@, below@.take(0)));
    while i < below.len()
        invariant
            i <= below@.len(),
            child_models(out@) == shown_processes(
                shared.process_info@,
                shared.ports@,
                below@.take(i as int),
            ),
        decreases below@.len() - i,
    {
        let cpid = below[i];
        assert(below@.take(i + 1).drop_last() =~= below@.take(i as int));
        match shared.process_info.get(&cpid) {
            Some(p) => {
                let port = match shared.ports.get(&cpid) {
                    Some(v) => if v.len() > 0 {
                        Some(v[0])
                    } else {
                        None
                    },
                    None => None,
                };
                let child = ChildProcess {
                    pid: cpid,
                    command: p.command.clone(),
                    mem_kb: p.rss_kb,
                    port,
                };
                assert(child_models(out@.push(child)) =~= child_models(out@).push(child@));
                out.push(child);
            },
            None => {},
        }
        i += 1;
    }
    assert(below@.take(i as int) =~= below@);
    out
}

/// Each of the given processes that is listed is shown with its command line, its memory
/// and the first port that it listens on.
pub proof fn law_listed_processes_are_shown(
    info: Map<u32, ProcInfo>,
    ports: Map<u32, Vec<u16>>,
    pids: Seq<u32>,
    k: int,
) -> (j: int)
    requires
        0 <= k < pids.len(),
        info.contains_key(pids[k]),
    ensures
        0 <= j < shown_processes(info, ports, pids).len(),
        shown_processes(info, ports, pids)[j].pid == pids[k],
        shown_processes(info, ports, pids)[j].command == info[pids[k]].command@,
        shown_processes(info, ports, pids)[j].mem_kb == info[pids[k]].rss_kb,
        shown_processes(info, ports, pids)[j].port == first_port(ports, pids[k]),
    decreases pids.len(),
{
    let front = pids.drop_last();
    let before = shown_processes(info, ports, front);
    if k == pids.len() - 1 {
        before.len() as int
    } else {
        let j = law_listed_processes_are_shown(info, ports, front, k);
        assert(shown_processes(info, ports, pids)[j] == before[j]);
        j
    }
}

/// No process is shown but the given ones that are listed, in their order.
pub proof fn law_only_listed_processes_are_shown(
    info: Map<u32, ProcInfo>,
    ports: Map<u32, Vec<u16>>,
    pids: Seq<u32>,
    next: u32,
)
    ensures
        shown_processes(info, ports, Seq::empty()).len() == 0,
        info.contains_key(next) ==> shown_processes(info, ports, pids.push(next)).drop_last()
            == shown_processes(info, ports, pids),
        !info.contains_key(next) ==> shown_processes(info, ports, pids.push(next))
            == shown_processes(info, ports, pids),
{
    assert(pids.push(next).drop_last() =~= pids);
    assert(info.contains_key(next) ==> shown_processes(info, ports, pids.push(next)).drop_last()
        =~= shown_processes(info, ports, pids));
}

/// The port of a process is the first one that it listens on.
pub proof fn law_first_port_is_shown(ports: Map<u32, Vec<u16>>, pid: u32)
    ensures
        ports.contains_key(pid) && ports[pid]@.len() > 0 ==> first_port(ports, pid) == Some(
            ports[pid]@[0],
        ),
        !ports.contains_key(pid) || ports[pid]@.len() == 0 ==> first_port(ports, pid) is None,
{
}

} // verus!
