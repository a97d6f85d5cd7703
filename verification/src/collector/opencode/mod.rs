//! OpenCode sessions.
//!
//! The sessions come from OpenCode's database, which the `sqlite3` program reads,
//! and are matched to the running OpenCode processes. Rows are cached; they are
//! read again on slow ticks and when the database or its log changed.
pub mod config;
pub mod jsonc;
pub mod matching;
pub mod parts;
pub mod paths;
pub mod refresh;
pub mod rows;
pub mod session;

use super::location::{abbrev_path, abbreviated, parent_dir, parent_of};
use super::order::{insert_by_start, newest_first};
use super::process::ProcInfo;
use super::SharedProcessData;
use crate::model::{session_models, AgentSession, Platform, SessionModel};
use matching::{is_assignment, law_one_session_per_process};
use parts::SessionParts;
use paths::{has_db_extension, law_located_is_a_database, locate, located, Places};
use rows::{DbSession, DbSubAgent};
use session::{build_session, session_of, SessionFacts, Surroundings};
use vstd::prelude::*;
use vstd::string::*;

verus! {

/// Collector for OpenCode sessions.
#[derive(Debug)]
pub struct OpenCodeCollector {
    pub db_path: String,
    /// Whether the `sqlite3` program is available, once that was tried.
    pub sqlite3_available: Option<bool>,
    /// Rows of the last query for sessions.
    pub cached_db_sessions: Vec<DbSession>,
    /// Rows of the last query for subagents.
    pub cached_db_subagents: Vec<DbSubAgent>,
    /// Chat lines and tool calls by session.
    pub cached_parts: Vec<SessionParts>,
    /// Last modification time of the database, in nanoseconds since the epoch.
    pub last_db_mtime: Option<i128>,
    /// Last modification time of the database's log.
    pub last_wal_mtime: Option<i128>,
    /// Whether it was said that `sqlite3` is missing.
    pub warned_sqlite3_missing: bool,
}

/// What comes next on a tick.
#[derive(Debug, Clone, Copy, PartialEq, Eq, Structural)]
pub enum Tick {
    /// To try whether `sqlite3` can be run.
    Probe,
    /// To look at the modification times.
    Times,
    /// Nothing: there are no sessions.
    Stop,
}

/// Whether a program is available by what was found before, or else by a trial.
pub open spec fn available_with(known: Option<bool>, probe: bool) -> bool {
    match known {
        Some(k) => k,
        None => probe,
    }
}

/// Whether a time is news after the last one that was seen.
pub open spec fn is_newer(time: Option<i128>, last: Option<i128>) -> bool {
    match time {
        Some(t) => match last {
            Some(l) => t > l,
            None => true,
        },
        None => false,
    }
}

fn newer(time: Option<i128>, last: Option<i128>) -> (r: bool)
    ensures
        r == is_newer(time, last),
{
    match time {
        Some(t) => match last {
            Some(l) => t > l,
            None => true,
        },
        None => false,
    }
}

/// The warning that `sqlite3` is missing, up to the path of the database.
pub const MISSING_SQLITE3: &'static str = "abtop: OpenCode database found at ";

/// The rest of the warning that `sqlite3` is missing.
pub const MISSING_SQLITE3_END: &'static str =
    " but the `sqlite3` CLI is not on PATH; OpenCode sessions will not appear. Install it (e.g. `winget install SQLite.SQLite`) and restart abtop.";

/// The sessions that the first `n` rows and the processes given to them make up.
pub open spec fn sessions_built(
    rows: Seq<DbSession>,
    pids: Seq<Option<u32>>,
    facts: Seq<SessionFacts>,
    around: Surroundings,
    n: nat,
) -> Seq<SessionModel>
    decreases n,
{
    if n == 0 {
        Seq::empty()
    } else {
        let before = sessions_built(rows, pids, facts, around, (n - 1) as nat);
        match pids[n - 1] {
            Some(pid) => before.push(session_of(rows[n - 1]@, pid, facts[n - 1], around)),
            None => before,
        }
    }
}

proof fn lemma_built_pids(
    rows: Seq<DbSession>,
    pids: Seq<Option<u32>>,
    facts: Seq<SessionFacts>,
    around: Surroundings,
    n: nat,
)
    requires
        n <= pids.len(),
        forall|i: int, j: int| 0 <= i < j < pids.len() && pids[i] is Some ==> pids[i] != pids[j],
    ensures
        forall|k: int|
            0 <= k < sessions_built(rows, pids, facts, around, n).len() ==> pids.take(n as int).contains(
                Some((#[trigger] sessions_built(rows, pids, facts, around, n)[k]).pid),
            ),
        forall|i: int, j: int|
            0 <= i < j < sessions_built(rows, pids, facts, around, n).len() ==> sessions_built(
                rows,
                pids,
                facts,
                around,
                n,
            )[i].pid != sessions_built(rows, pids, facts, around, n)[j].pid,
    decreases n,
{
    if n > 0 {
        let m = (n - 1) as nat;
        lemma_built_pids(rows, pids, facts, around, m);
        let before = sessions_built(rows, pids, facts, around, m);
        let all = sessions_built(rows, pids, facts, around, n);
        assert forall|k: int| 0 <= k < all.len() implies pids.take(n as int).contains(
            Some((#[trigger] all[k]).pid),
        ) by {
            if k < before.len() {
                assert(all[k] == before[k]);
                let at = pids.take(m as int).index_of(Some(before[k].pid));
                assert(pids.take(n as int)[at] == Some(before[k].pid));
            } else {
                assert(pids.take(n as int)[m as int] == Some(all[k].pid));
            }
        }
        assert forall|i: int, j: int| 0 <= i < j < all.len() implies all[i].pid != all[j].pid by {
            assert(all[i] == before[i]);
            let at = pids.take(m as int).index_of(Some(before[i].pid));
            assert(pids[at] == Some(before[i].pid));
            if j == before.len() {
                assert(pids[m as int] == Some(all[j].pid));
                assert(pids[at] != pids[m as int]);
            }
        }
    }
}

/// Of the sessions that are built, no two have the same process.
pub proof fn law_sessions_have_their_own_process(
    rows: Seq<DbSession>,
    info: Map<u32, ProcInfo>,
    cwds: Map<u32, String>,
    pids: Seq<Option<u32>>,
    facts: Seq<SessionFacts>,
    around: Surroundings,
)
    requires
        is_assignment(rows, info, cwds, around.platform, pids),
    ensures
        ({
            let all = sessions_built(rows, pids, facts, around, rows.len());
            forall|i: int, j: int| 0 <= i < j < all.len() ==> all[i].pid != all[j].pid
        }),
{
    assert forall|i: int, j: int| 0 <= i < j < pids.len() && pids[i] is Some implies pids[i]
        != pids[j] by {
        law_one_session_per_process(rows, info, cwds, around.platform, pids, i, j);
    }
    lemma_built_pids(rows, pids, facts, around, rows.len());
}

/// Each session that is built is the session of a row, with the process that the row
/// was given: a row without a process is not shown.
pub proof fn law_sessions_are_running(
    rows: Seq<DbSession>,
    pids: Seq<Option<u32>>,
    facts: Seq<SessionFacts>,
    around: Surroundings,
    n: nat,
    k: int,
)
    requires
        n <= rows.len(),
        pids.len() == rows.len(),
        0 <= k < sessions_built(rows, pids, facts, around, n).len(),
    ensures
        exists|i: int|
            {
                &&& 0 <= i < n
                &&& pids[i] is Some
                &&& sessions_built(rows, pids, facts, around, n)[k] == #[trigger] session_of(
                    rows[i]@,
                    pids[i]->Some_0,
                    facts[i],
                    around,
                )
            },
    decreases n,
{
    if n > 0 {
        let before = sessions_built(rows, pids, facts, around, (n - 1) as nat);
        let all = sessions_built(rows, pids, facts, around, n);
        if k < before.len() {
            law_sessions_are_running(rows, pids, facts, around, (n - 1) as nat, k);
            assert(all[k] == before[k]);
        } else {
            let i = n - 1;
            assert(all[k] == session_of(rows[i]@, pids[i]->Some_0, facts[i], around));
        }
    }
}

impl OpenCodeCollector {
    /// The database's name has the extension `db`.
    pub open spec fn wf(self, platform: Platform) -> bool {
        has_db_extension(self.db_path@, platform)
    }

    /// Whether nothing is cached.
    pub open spec fn is_empty(self) -> bool {
        &&& self.cached_db_sessions@.len() == 0
        &&& self.cached_db_subagents@.len() == 0
        &&& self.cached_parts@.len() == 0
    }

    /// Whether the cached rows are those of `other`.
    pub open spec fn caches_as(self, other: OpenCodeCollector) -> bool {
        &&& self.cached_db_sessions == other.cached_db_sessions
        &&& self.cached_db_subagents == other.cached_db_subagents
        &&& self.cached_parts == other.cached_parts
    }

    /// Whether everything but the cached rows is as in `other`.
    pub open spec fn knows_as(self, other: OpenCodeCollector) -> bool {
        &&& self.db_path == other.db_path
        &&& self.sqlite3_available == other.sqlite3_available
        &&& self.last_db_mtime == other.last_db_mtime
        &&& self.last_wal_mtime == other.last_wal_mtime
        &&& self.warned_sqlite3_missing == other.warned_sqlite3_missing
    }

    /// A collector for the database that is found in the given places, with
    /// nothing cached.
    pub fn new(places: &Places, platform: Platform) -> (r: OpenCodeCollector)
        ensures
            r.db_path@ == located(*places, platform),
            r.wf(platform),
            r.is_empty(),
            r.sqlite3_available is None,
            r.last_db_mtime is None,
            r.last_wal_mtime is None,
            !r.warned_sqlite3_missing,
    {
        proof {
            law_located_is_a_database(*places, platform);
        }
        OpenCodeCollector {
            db_path: locate(places, platform),
            sqlite3_available: None,
            cached_db_sessions: Vec::new(),
            cached_db_subagents: Vec::new(),
            cached_parts: Vec::new(),
            last_db_mtime: None,
            last_wal_mtime: None,
            warned_sqlite3_missing: false,
        }
    }

    /// Looks for the database again where it does not exist: it may have been
    /// created since.
    pub fn relocate(&mut self, present: bool, places: &Places, platform: Platform)
        requires
            old(self).wf(platform),
        ensures
            final(self).wf(platform),
            final(self).db_path@ == (if present {
                old(self).db_path@
            } else {
                located(*places, platform)
            }),
            *final(self) == (OpenCodeCollector { db_path: final(self).db_path, ..*old(self) }),
    {
        if !present {
            proof {
                law_located_is_a_database(*places, platform);
            }
            self.db_path = locate(places, platform);
        }
    }

    fn clear(&mut self)
        ensures
            final(self).is_empty(),
            final(self).knows_as(*old(self)),
    {
        self.cached_db_sessions = Vec::new();
        self.cached_db_subagents = Vec::new();
        self.cached_parts = Vec::new();
    }

    /// Whether the `sqlite3` program is available. What the first trial found is
    /// kept; `probe` is what a trial finds now.
    pub fn check_sqlite3(&mut self, probe: bool) -> (r: bool)
        ensures
            r == available_with(old(self).sqlite3_available, probe),
            *final(self) == (OpenCodeCollector { sqlite3_available: Some(r), ..*old(self) }),
    {
        match self.sqlite3_available {
            Some(known) => known,
            None => {
                self.sqlite3_available = Some(probe);
                probe
            },
        }
    }

    /// What comes after a look at the database, which may be read if it exists and is no
    /// symbolic link. Where it may not be read, or `sqlite3` is known to be missing, what
    /// was cached of it is dropped.
    pub fn inspected(&mut self, is_symlink: bool, present: bool) -> (r: Tick)
        ensures
            r == (if is_symlink || !present {
                Tick::Stop
            } else {
                match old(self).sqlite3_available {
                    Some(known) => if known {
                        Tick::Times
                    } else {
                        Tick::Stop
                    },
                    None => Tick::Probe,
                }
            }),
            r == Tick::Stop ==> final(self).is_empty() && final(self).knows_as(*old(self)),
            r != Tick::Stop ==> *final(self) == *old(self),
    {
        if is_symlink || !present {
            self.clear();
            return Tick::Stop;
        }
        match self.sqlite3_available {
            Some(true) => Tick::Times,
            Some(false) => {
                self.clear();
                Tick::Stop
            },
            None => Tick::Probe,
        }
    }

    /// What comes after a trial of `sqlite3`. Where it is missing, what was cached is
    /// dropped.
    pub fn probed(&mut self, probe: bool) -> (r: Tick)
        ensures
            r == (if available_with(old(self).sqlite3_available, probe) {
                Tick::Times
            } else {
                Tick::Stop
            }),
            r == Tick::Stop ==> final(self).is_empty(),
            r != Tick::Stop ==> final(self).caches_as(*old(self)),
            final(self).knows_as(
                (OpenCodeCollector {
                    sqlite3_available: Some(
                        available_with(old(self).sqlite3_available, probe),
                    ),
                    ..*old(self)
                }),
            ),
    {
        if self.check_sqlite3(probe) {
            Tick::Times
        } else {
            self.clear();
            Tick::Stop
        }
    }

    /// The warning that `sqlite3` is missing: once, and on Windows only, where it
    /// is usually not installed.
    pub fn missing_warning(&mut self, platform: Platform) -> (r: Option<String>)
        ensures
            match r {
                Some(text) => !old(self).warned_sqlite3_missing && platform == Platform::Windows
                    && text@ == MISSING_SQLITE3@ + old(self).db_path@ + MISSING_SQLITE3_END@,
                None => old(self).warned_sqlite3_missing || platform != Platform::Windows,
            },
            *final(self) == (OpenCodeCollector {
                warned_sqlite3_missing: old(self).warned_sqlite3_missing || platform
                    == Platform::Windows,
                ..*old(self)
            }),
    {
        if platform != Platform::Windows || self.warned_sqlite3_missing {
            return None;
        }
        self.warned_sqlite3_missing = true;
        let mut text = MISSING_SQLITE3.to_owned();
        text.append(self.db_path.as_str());
        text.append(MISSING_SQLITE3_END);
        Some(text)
    }

    /// The log that stands beside the database.
    pub fn wal_path(&self, platform: Platform) -> (r: String)
        requires
            self.wf(platform),
        ensures
            r@ == self.db_path@ + "-wal"@,
    {
        let mut out = self.db_path.clone();
        out.append("-wal");
        out
    }

    /// Whether the rows have to be read again: on a slow tick, and when the database
    /// or its log was modified since. The times are kept.
    pub fn needs_refresh(
        &mut self,
        slow_tick: bool,
        db_mtime: Option<i128>,
        wal_mtime: Option<i128>,
    ) -> (r: bool)
        ensures
            r == (slow_tick || is_newer(db_mtime, old(self).last_db_mtime) || is_newer(
                wal_mtime,
                old(self).last_wal_mtime,
            )),
            *final(self) == (OpenCodeCollector {
                last_db_mtime: if is_newer(db_mtime, old(self).last_db_mtime) {
                    db_mtime
                } else {
                    old(self).last_db_mtime
                },
                last_wal_mtime: if is_newer(wal_mtime, old(self).last_wal_mtime) {
                    wal_mtime
                } else {
                    old(self).last_wal_mtime
                },
                ..*old(self)
            }),
    {
        let mut changed = false;
        if newer(db_mtime, self.last_db_mtime) {
            self.last_db_mtime = db_mtime;
            changed = true;
        }
        if newer(wal_mtime, self.last_wal_mtime) {
            self.last_wal_mtime = wal_mtime;
            changed = true;
        }
        slow_tick || changed
    }

    /// The directory of the database, as it is shown.
    pub fn config_root(&self, home: Option<&str>, platform: Platform) -> (r: String)
        ensures
            r@ == abbreviated(parent_of(self.db_path@, platform), home, platform),
    {
        let dir = parent_dir(self.db_path.as_str(), platform);
        abbrev_path(dir.as_str(), home, platform)
    }

    /// The sessions whose processes run, the newest first. `pids` gives the process
    /// of each cached row, and `facts` what the files beside it say.
    pub fn build_sessions(
        &self,
        pids: &Vec<Option<u32>>,
        facts: &Vec<SessionFacts>,
        shared: &SharedProcessData,
        now_ms: u64,
        config_root: &str,
        platform: Platform,
    ) -> (r: Vec<AgentSession>)
        requires
            pids@.len() == self.cached_db_sessions@.len(),
            facts@.len() == self.cached_db_sessions@.len(),
        ensures
            session_models(r@) == newest_first(
                sessions_built(
                    self.cached_db_sessions@,
                    pids@,
                    facts@,
                    (Surroundings {
                        shared,
                        subagents: &self.cached_db_subagents,
                        parts: &self.cached_parts,
                        now_ms,
                        config_root,
                        platform,
                    }),
                    self.cached_db_sessions@.len(),
                ),
            ),
    {
        let around = Surroundings {
            shared,
            subagents: &self.cached_db_subagents,
            parts: &self.cached_parts,
            now_ms,
            config_root,
            platform,
        };
        let rows = &self.cached_db_sessions;
        let mut out: Vec<AgentSession> = Vec::new();
        let mut i: usize = 0;
        assert(session_models(out@) =~= Seq::empty());
        while i < rows.len()
            invariant
                i <= rows@.len(),
                rows@.len() == pids@.len(),
                rows@.len() == facts@.len(),
                session_models(out@) == newest_first(
                    sessions_built(rows@, pids@, facts@, around, i as nat),
                ),
            decreases rows@.len() - i,
        {
            let ghost before = sessions_built(rows@, pids@, facts@, around, i as nat);
            match pids[i] {
                Some(pid) => {
                    let session = build_session(&rows[i], pid, &facts[i], &around);
                    assert(before.push(session@).drop_last() =~= before);
                    insert_by_start(&mut out, session);
                },
                None => {},
            }
            i += 1;
        }
        out
    }
}

/// A time is news where none was seen, or where it is later than the last one.
pub proof fn law_later_times_are_news(t: i128, last: i128)
    ensures
        is_newer(Some(t), None),
        is_newer(Some(t), Some(last)) <==> t > last,
        !is_newer(None, Some(last)),
        !is_newer(None, None),
{
}

/// What was found of a program is kept, and without that a trial counts.
pub proof fn law_first_trial_is_kept(probe: bool)
    ensures
        available_with(Some(true), probe),
        !available_with(Some(false), probe),
        available_with(None, probe) == probe,
{
}

/// Each row that was given a process is shown, in the order of the rows, and no other.
pub proof fn law_matched_rows_are_shown(
    rows: Seq<DbSession>,
    pids: Seq<Option<u32>>,
    facts: Seq<SessionFacts>,
    around: Surroundings,
    n: nat,
)
    requires
        n < pids.len(),
    ensures
        sessions_built(rows, pids, facts, around, 0).len() == 0,
        pids[n as int] matches Some(pid) ==> sessions_built(rows, pids, facts, around, n + 1)
            == sessions_built(rows, pids, facts, around, n).push(
            session_of(rows[n as int]@, pid, facts[n as int], around),
        ),
        pids[n as int] is None ==> sessions_built(rows, pids, facts, around, n + 1)
            == sessions_built(rows, pids, facts, around, n),
{
}

/// The warning names the database, what is missing and what to do.
pub proof fn law_warning_words()
    ensures
        MISSING_SQLITE3@ == "abtop: OpenCode database found at "@,
        MISSING_SQLITE3_END@
            == " but the `sqlite3` CLI is not on PATH; OpenCode sessions will not appear. Install it (e.g. `winget install SQLite.SQLite`) and restart abtop."@,
{
}

/// A collector with nothing cached has neither sessions nor subagents nor parts; what is
/// cached and what is known besides make the whole collector up.
pub proof fn law_collector_is_cache_and_knowledge(a: OpenCodeCollector, b: OpenCodeCollector)
    ensures
        a.is_empty() <==> a.cached_db_sessions@.len() == 0 && a.cached_db_subagents@.len() == 0
            && a.cached_parts@.len() == 0,
        a.caches_as(b) <==> a.cached_db_sessions == b.cached_db_sessions && a.cached_db_subagents
            == b.cached_db_subagents && a.cached_parts == b.cached_parts,
        a.caches_as(b) && a.knows_as(b) <==> a == b,
{
}

} // verus!
