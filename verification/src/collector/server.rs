//! What the collectors for inference servers have in common.
use super::process::{busy, memory_of, process_busy, rss_kb, CpuLoad, ProcInfo};
use crate::json::{parse_json, parsed_json, Json, JsonTree};
use crate::model::SessionStatus;
use std::collections::HashMap;
use vstd::prelude::*;

verus! {

/// The document that a server answers with; none where there is no answer, or where
/// it is no JSON.
pub open spec fn answered(response: Option<&str>) -> Option<JsonTree> {
    match response {
        Some(text) => parsed_json(text@),
        None => None,
    }
}

/// The document that a server answers with.
pub fn read_answer(response: Option<&str>) -> (r: Option<Json>)
    ensures
        match r {
            Some(j) => answered(response) == Some(j@),
            None => answered(response) is None,
        },
{
    match response {
        Some(text) => parse_json(text),
        None => None,
    }
}

/// Whether `pids` lists the processes that a rule picks, each once, in some order.
pub open spec fn is_listing(
    pids: Seq<u32>,
    info: Map<u32, ProcInfo>,
    rule: spec_fn(ProcInfo) -> bool,
) -> bool {
    &&& pids.no_duplicates()
    &&& forall|pid: u32| #[trigger] pids.contains(pid) <==> info.contains_key(pid) && rule(info[pid])
}

/// The process that stands for a server: the first one, or zero where there is none.
pub open spec fn primary_of(pids: Seq<u32>) -> u32 {
    if pids.len() > 0 {
        pids[0]
    } else {
        0
    }
}

/// The process that stands for a server: the first one, or zero where there is none.
pub fn primary_pid(pids: &Vec<u32>) -> (r: u32)
    ensures
        r == primary_of(pids@),
{
    if pids.len() > 0 {
        pids[0]
    } else {
        0
    }
}

/// The resident memory of a server's process in MiB; zero where there is none.
pub open spec fn server_mb(info: Map<u32, ProcInfo>, pid: u32) -> u64 {
    if pid == 0 {
        0
    } else {
        memory_of(info, pid) / 1024
    }
}

/// The resident memory of a server's process in MiB; zero where there is none.
pub fn server_memory(info: &HashMap<u32, ProcInfo>, pid: u32) -> (r: u64)
    ensures
        r == server_mb(info@, pid),
{
    if pid == 0 {
        0
    } else {
        rss_kb(info, pid) / 1024
    }
}

/// Whether one of the processes has a CPU usage of over ten percent.
pub open spec fn any_busy(info: Map<u32, ProcInfo>, pids: Seq<u32>) -> bool {
    exists|i: int| 0 <= i < pids.len() && busy(info, #[trigger] pids[i])
}

/// Whether one of the processes has a CPU usage of over ten percent.
pub fn some_busy(info: &HashMap<u32, ProcInfo>, pids: &Vec<u32>) -> (r: bool)
    ensures
        r == any_busy(info@, pids@),
{
    let mut i: usize = 0;
    while i < pids.len()
        invariant
            i <= pids@.len(),
            forall|k: int| 0 <= k < i ==> !busy(info@, #[trigger] pids@[k]),
        decreases pids@.len() - i,
    {
        if process_busy(info, pids[i]) {
            return true;
        }
        i += 1;
    }
    false
}

/// The status of a server that is at work or not.
pub open spec fn server_status(working: bool) -> SessionStatus {
    if working {
        SessionStatus::Thinking
    } else {
        SessionStatus::Waiting
    }
}

/// The status of a server that is at work or not.
pub fn status_when(working: bool) -> (r: SessionStatus)
    ensures
        r == server_status(working),
{
    if working {
        SessionStatus::Thinking
    } else {
        SessionStatus::Waiting
    }
}

/// Whether a process is listed with a CPU usage of over ten percent.
pub open spec fn is_high(info: Map<u32, ProcInfo>, pid: u32) -> bool {
    info.contains_key(pid) && info[pid].cpu == CpuLoad::High
}

/// A server is busy where one of its processes is.
pub proof fn lemma_any_busy(info: Map<u32, ProcInfo>, pids: Seq<u32>)
    ensures
        any_busy(info, pids) <==> exists|i: int| 0 <= i < pids.len() && is_high(info, #[trigger] pids[i]),
{
    if any_busy(info, pids) {
        let i = choose|i: int| 0 <= i < pids.len() && busy(info, #[trigger] pids[i]);
        assert(is_high(info, pids[i]));
    }
    if exists|i: int| 0 <= i < pids.len() && is_high(info, #[trigger] pids[i]) {
        let i = choose|i: int| 0 <= i < pids.len() && is_high(info, #[trigger] pids[i]);
        assert(busy(info, pids[i]));
    }
}

/// A listing holds each process that the rule picks, once, and no other.
pub proof fn law_listing_is_complete(
    pids: Seq<u32>,
    info: Map<u32, ProcInfo>,
    rule: spec_fn(ProcInfo) -> bool,
    pid: u32,
)
    requires
        is_listing(pids, info, rule),
    ensures
        info.contains_key(pid) && rule(info[pid]) ==> exists|i: int|
            0 <= i < pids.len() && #[trigger] pids[i] == pid,
        forall|i: int| 0 <= i < pids.len() ==> info.contains_key(#[trigger] pids[i]) && rule(
            info[pids[i]],
        ),
        forall|i: int, j: int| 0 <= i < j < pids.len() ==> pids[i] != pids[j],
{
    assert(pids.contains(pid) <==> info.contains_key(pid) && rule(info[pid]));
    assert forall|i: int| 0 <= i < pids.len() implies info.contains_key(#[trigger] pids[i]) && rule(
        info[pids[i]],
    ) by {
        assert(pids.contains(pids[i]));
    }
}

/// An answer is the document that was sent, where one was.
pub proof fn law_answers_are_documents(text: &str)
    ensures
        answered(None) is None,
        answered(Some(text)) == parsed_json(text@),
{
}

/// The process that stands for a server is the first of its processes, and zero without
/// one; the server's memory is that process's, in whole MiB.
pub proof fn law_first_process_stands_for_the_server(pids: Seq<u32>, info: Map<u32, ProcInfo>)
    ensures
        pids.len() > 0 ==> primary_of(pids) == pids[0],
        pids.len() == 0 ==> primary_of(pids) == 0,
        server_mb(info, 0) == 0,
        forall|pid: u32|
            pid != 0 && info.contains_key(pid) ==> #[trigger] server_mb(info, pid) * 1024
                <= info[pid].rss_kb < server_mb(info, pid) * 1024 + 1024,
        forall|pid: u32| !info.contains_key(pid) ==> #[trigger] server_mb(info, pid) == 0,
        server_status(true) == SessionStatus::Thinking,
        server_status(false) == SessionStatus::Waiting,
{
}

} // verus!
