//! The state of the monitor.
use crate::model::{AgentSession, Real};
use vstd::prelude::*;

verus! {

/// How much of an account's rate limits is used.
#[derive(Debug)]
pub struct RateLimitInfo {
    /// The program that the limits are for.
    pub source: String,
    /// Used share of the five-hour window, in percent.
    pub five_hour_pct: Option<Real>,
    /// When that window resets, in Unix-epoch seconds.
    pub five_hour_resets_at: Option<u64>,
    /// Used share of the seven-day window, in percent.
    pub seven_day_pct: Option<Real>,
    /// When that window resets, in Unix-epoch seconds.
    pub seven_day_resets_at: Option<u64>,
    /// When the data were read, in Unix-epoch seconds.
    pub updated_at: Option<u64>,
}

/// A running MCP server.
#[derive(Debug)]
pub struct McpServer {
    pub pid: u32,
    /// The program that started it, or "?".
    pub parent_cli: &'static str,
    /// The profile that it runs with, if any.
    pub profile: Option<String>,
    pub mem_kb: u64,
    /// Rollouts that were written to lately.
    pub active_count: usize,
    /// Rollouts that are open.
    pub rollout_count: usize,
    /// The latest modification of a rollout, in nanoseconds since the epoch.
    pub latest_mtime: Option<i128>,
}

/// What is shown of the monitor.
#[derive(Debug, Clone, Copy)]
pub struct ViewFlags {
    pub tree_view: bool,
    pub show_timeline: bool,
    pub show_file_audit: bool,
    pub show_context: bool,
    pub show_quota: bool,
    pub show_tokens: bool,
    pub show_projects: bool,
    pub show_ports: bool,
    pub show_sessions: bool,
    pub show_mcp: bool,
    pub mcp_suppress_sessions: bool,
}

/// The state of the monitor. The metrics of the host, the aggregate over the sessions
/// and the ports that ended sessions left open are passed on as they are.
#[derive(Debug)]
pub struct App<H, A, O> {
    /// The live sessions, the newest first.
    pub sessions: Vec<AgentSession>,
    pub rate_limits: Vec<RateLimitInfo>,
    pub orphan_ports: Vec<O>,
    pub mcp_servers: Vec<McpServer>,
    /// Token rates, the latest last.
    pub token_rates: Vec<Real>,
    pub host_metrics: Option<H>,
    pub agent_aggregate: A,
    pub view: ViewFlags,
}

/// All tokens of a list of sessions.
pub open spec fn tokens_of(sessions: Seq<AgentSession>) -> nat
    decreases sessions.len(),
{
    if sessions.len() == 0 {
        0
    } else {
        tokens_of(sessions.drop_last()) + sessions.last().all_tokens()
    }
}

proof fn lemma_tokens_prefix(sessions: Seq<AgentSession>, k: int)
    requires
        0 <= k <= sessions.len(),
    ensures
        tokens_of(sessions.take(k)) <= tokens_of(sessions),
    decreases sessions.len() - k,
{
    if k < sessions.len() {
        lemma_tokens_prefix(sessions, k + 1);
        assert(sessions.take(k + 1).drop_last() =~= sessions.take(k));
    } else {
        assert(sessions.take(k) =~= sessions);
    }
}

impl<H, A, O> App<H, A, O> {
    /// All tokens of all sessions, where the sum fits 64 bits.
    pub fn total_tokens(&self) -> (r: Option<u64>)
        ensures
            match r {
                Some(n) => n == tokens_of(self.sessions@),
                None => tokens_of(self.sessions@) > u64::MAX,
            },
    {
        let mut sum: u64 = 0;
        let mut i: usize = 0;
        let ghost all = self.sessions@;
        assert(all.take(0) =~= Seq::empty());
        while i < self.sessions.len()
            invariant
                i <= self.sessions@.len(),
                all == self.sessions@,
                sum == tokens_of(all.take(i as int)),
            decreases self.sessions@.len() - i,
        {
            proof {
                assert(all.take(i + 1).drop_last() =~= all.take(i as int));
                lemma_tokens_prefix(all, i + 1);
            }
            if !self.sessions[i].totals_fit_u64() {
                return None;
            }
            match sum.checked_add(self.sessions[i].total_tokens()) {
                Some(n) => {
                    sum = n;
                },
                None => {
                    return None;
                },
            }
            i += 1;
        }
        assert(all.take(i as int) =~= all);
        Some(sum)
    }
}

/// The tokens of sessions add up: those of all classes of each.
pub proof fn law_tokens_add_up(sessions: Seq<AgentSession>, s: AgentSession)
    ensures
        tokens_of(Seq::empty()) == 0,
        tokens_of(sessions.push(s)) == tokens_of(sessions) + s.total_input_tokens
            + s.total_output_tokens + s.total_cache_read + s.total_cache_create,
{
    assert(sessions.push(s).drop_last() =~= sessions);
}

} // verus!
