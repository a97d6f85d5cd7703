//! Which running process belongs to which session.
use super::paths::{paths_equal, same_path};
use super::rows::DbSession;
use super::OpenCodeCollector;
use crate::collector::process::{
    cmd_has_binary, names_binary, pids_where, runs_under, under_binary, ProcInfo,
};
use crate::model::Platform;
use crate::text::scan::{contains, contains_text, lines, lines_of};
use crate::text::utf8::byte_len;
use crate::text::{from_chars, texts, to_chars};
use std::collections::{HashMap, HashSet};
use vstd::prelude::*;
use vstd::utf8::*;

verus! {

broadcast use vstd::std_specs::hash::group_hash_axioms;

/// A command line that runs OpenCode, and no search for its name.
pub open spec fn is_opencode_command(command: Seq<char>) -> bool {
    names_binary(command, "opencode"@) && !contains_text(command, "grep"@)
}

fn runs_opencode(p: &ProcInfo) -> (r: bool)
    ensures
        r == is_opencode_command(p.command@),
{
    cmd_has_binary(p.command.as_str(), "opencode") && !contains(p.command.as_str(), "grep")
}

/// A process that runs OpenCode itself: no search for its name, and no subagent
/// below another OpenCode process.
pub open spec fn is_root_opencode(info: Map<u32, ProcInfo>, pid: u32) -> bool {
    &&& info.contains_key(pid)
    &&& is_opencode_command(info[pid].command@)
    &&& !runs_under(info, pid, "opencode"@)
}

/// Whether a process ties to a session in `dir`: by its working directory, or by
/// its command line.
pub open spec fn ties_to(
    commands: Map<u32, &str>,
    cwds: Map<u32, String>,
    platform: Platform,
    pid: u32,
    dir: Seq<char>,
) -> bool {
    &&& commands.contains_key(pid)
    &&& {
        ||| cwds.contains_key(pid) && same_path(cwds[pid]@, dir, platform)
        ||| contains_text(commands[pid]@, dir)
    }
}

/// Whether a directory is long enough to be matched: the empty path and `/`
/// would be found in unrelated command lines.
pub open spec fn is_matchable(dir: Seq<char>) -> bool {
    byte_len(dir) >= 2
}

/// Whether a process can be given to a session in `dir`.
pub open spec fn is_candidate(
    commands: Map<u32, &str>,
    cwds: Map<u32, String>,
    platform: Platform,
    claimed: Set<u32>,
    pid: u32,
    dir: Seq<char>,
) -> bool {
    is_matchable(dir) && !claimed.contains(pid) && ties_to(commands, cwds, platform, pid, dir)
}

impl OpenCodeCollector {
    /// The running OpenCode processes without their subagents, each once.
    pub fn find_opencode_pids(process_info: &HashMap<u32, ProcInfo>) -> (r: Vec<u32>)
        ensures
            r@.no_duplicates(),
            forall|pid: u32| #[trigger] r@.contains(pid) <==> is_root_opencode(process_info@, pid),
    {
        let named = pids_where(process_info, runs_opencode, Ghost(|p: ProcInfo| is_opencode_command(p.command@)));
        let mut pids: Vec<u32> = Vec::new();
        let mut i: usize = 0;
        while i < named.len()
            invariant
                i <= named@.len(),
                named@.no_duplicates(),
                forall|pid: u32| #[trigger]
                    named@.contains(pid) <==> process_info@.contains_key(pid) && is_opencode_command(
                        process_info@[pid].command@,
                    ),
                pids@.no_duplicates(),
                forall|k: int| 0 <= k < pids@.len() ==> named@.take(i as int).contains(#[trigger] pids@[k])
                    && is_root_opencode(process_info@, pids@[k]),
                forall|k: int|
                    0 <= k < i && is_root_opencode(process_info@, #[trigger] named@[k]) ==> pids@.contains(named@[k]),
            decreases named@.len() - i,
        {
            let pid = named[i];
            assert(named@.contains(pid));
            assert forall|x: u32| named@.take(i as int).contains(x) implies named@.take(i + 1).contains(x) by {
                let k = named@.take(i as int).index_of(x);
                assert(named@.take(i + 1)[k] == x);
            }
            assert(named@.take(i + 1)[i as int] == pid);
            if !under_binary(process_info, pid, "opencode") {
                proof {
                    if pids@.contains(pid) {
                        let k = pids@.index_of(pid);
                        let j = named@.take(i as int).index_of(pids@[k]);
                        assert(named@[j] == named@[i as int]);
                    }
                    let before = pids@;
                    assert forall|x: u32| before.contains(x) implies before.push(pid).contains(x) by {
                        assert(before.push(pid)[before.index_of(x)] == x);
                    }
                    assert(before.push(pid)[before.len() as int] == pid);
                }
                pids.push(pid);
            }
            i += 1;
        }
        assert forall|pid: u32| is_root_opencode(process_info@, pid) implies #[trigger] pids@.contains(pid) by {
            assert(named@.contains(pid));
            let k = named@.index_of(pid);
            assert(is_root_opencode(process_info@, named@[k]));
        }
        assert forall|pid: u32| #[trigger] pids@.contains(pid) implies is_root_opencode(process_info@, pid) by {
            let k = pids@.index_of(pid);
            assert(is_root_opencode(process_info@, pids@[k]));
        }
        pids
    }

    /// The command lines of the given processes, for those that the table lists.
    pub fn pid_commands<'a>(
        process_info: &'a HashMap<u32, ProcInfo>,
        pids: &Vec<u32>,
    ) -> (r: HashMap<u32, &'a str>)
        ensures
            forall|pid: u32| #[trigger]
                r@.contains_key(pid) <==> pids@.contains(pid) && process_info@.contains_key(pid),
            forall|pid: u32| #[trigger] r@.contains_key(pid) ==> r@[pid]@ == process_info@[pid].command@,
    {
        let mut out: HashMap<u32, &'a str> = HashMap::new();
        let mut i: usize = 0;
        while i < pids.len()
            invariant
                i <= pids@.len(),
                forall|pid: u32| #[trigger]
                    out@.contains_key(pid) <==> pids@.take(i as int).contains(pid) && process_info@.contains_key(pid),
                forall|pid: u32| #[trigger] out@.contains_key(pid) ==> out@[pid]@ == process_info@[pid].command@,
            decreases pids@.len() - i,
        {
            let pid = pids[i];
            assert(pids@.take(i + 1) =~= pids@.take(i as int).push(pid));
            assert forall|x: u32| pids@.take(i + 1).contains(x) <==> pids@.take(i as int).contains(x) || x == pid by {
                let shorter = pids@.take(i as int);
                if shorter.contains(x) {
                    assert(shorter.push(pid)[shorter.index_of(x)] == x);
                }
                if x == pid {
                    assert(shorter.push(pid)[i as int] == x);
                }
                if shorter.push(pid).contains(x) && x != pid {
                    assert(shorter[shorter.push(pid).index_of(x)] == x);
                }
            }
            match process_info.get(&pid) {
                Some(p) => {
                    out.insert(pid, p.command.as_str());
                },
                None => {},
            }
            i += 1;
        }
        assert(pids@.take(i as int) =~= pids@);
        out
    }

    /// A process that ties to a session in `session_dir`, by its working directory
    /// or by its command line, and that no session has claimed; none where no
    /// process does. `cwds` gives the working directories that are known.
    pub fn match_pid_to_session_excluding(
        pid_commands: &HashMap<u32, &str>,
        cwds: &HashMap<u32, String>,
        session_dir: &str,
        claimed_pids: &HashSet<u32>,
        platform: Platform,
    ) -> (r: Option<u32>)
        ensures
            match r {
                Some(pid) => is_candidate(
                    pid_commands@,
                    cwds@,
                    platform,
                    claimed_pids@,
                    pid,
                    session_dir@,
                ),
                None => forall|pid: u32|
                    !is_candidate(pid_commands@, cwds@, platform, claimed_pids@, pid, session_dir@),
            },
    {
        if session_dir.as_bytes().len() < 2 {
            return None;
        }
        for (pid, cmd) in it: pid_commands.iter()
            invariant
                is_matchable(session_dir@),
                forall|i: int|
                    0 <= i < it.seq().len() ==> pid_commands@.contains_key(*(#[trigger] it.seq()[i]).0)
                        && pid_commands@[*it.seq()[i].0] == *it.seq()[i].1,
                forall|k: u32| #[trigger]
                    pid_commands@.contains_key(k) ==> it.seq().contains((&k, &pid_commands@[k])),
                forall|i: int|
                    0 <= i < it.index() ==> !is_candidate(
                        pid_commands@,
                        cwds@,
                        platform,
                        claimed_pids@,
                        *(#[trigger] it.seq()[i]).0,
                        session_dir@,
                    ),
        {
            assert(it.seq()[it.index()] == (pid, cmd));
            if !claimed_pids.contains(pid) {
                match cwds.get(pid) {
                    Some(cwd) => {
                        if paths_equal(cwd.as_str(), session_dir, platform) {
                            return Some(*pid);
                        }
                    },
                    None => {},
                }
                if contains(cmd, session_dir) {
                    return Some(*pid);
                }
            }
        }
        assert forall|pid: u32|
            !is_candidate(pid_commands@, cwds@, platform, claimed_pids@, pid, session_dir@) by {
            if pid_commands@.contains_key(pid) {
            }
        }
        None
    }

    /// A process that ties to a session in `session_dir`, none being claimed.
    pub fn match_pid_to_session(
        pid_commands: &HashMap<u32, &str>,
        cwds: &HashMap<u32, String>,
        session_dir: &str,
        platform: Platform,
    ) -> (r: Option<u32>)
        ensures
            match r {
                Some(pid) => is_matchable(session_dir@) && ties_to(
                    pid_commands@,
                    cwds@,
                    platform,
                    pid,
                    session_dir@,
                ),
                None => forall|pid: u32|
                    !(is_matchable(session_dir@) && ties_to(
                        pid_commands@,
                        cwds@,
                        platform,
                        pid,
                        session_dir@,
                    )),
            },
    {
        let none: HashSet<u32> = HashSet::new();
        let r = Self::match_pid_to_session_excluding(pid_commands, cwds, session_dir, &none, platform);
        assert(r is None ==> forall|pid: u32|
            !is_candidate(pid_commands@, cwds@, platform, none@, pid, session_dir@));
        assert forall|pid: u32| r is None implies !(is_matchable(session_dir@) && ties_to(
            pid_commands@,
            cwds@,
            platform,
            pid,
            session_dir@,
        )) by {
            assert(!is_candidate(pid_commands@, cwds@, platform, none@, pid, session_dir@));
        }
        r
    }

    /// Like `match_pid_to_session_excluding`, and claims the process that it finds.
    pub fn match_pid_to_session_once(
        pid_commands: &HashMap<u32, &str>,
        cwds: &HashMap<u32, String>,
        session_dir: &str,
        claimed_pids: &mut HashSet<u32>,
        platform: Platform,
    ) -> (r: Option<u32>)
        ensures
            match r {
                Some(pid) => is_candidate(
                    pid_commands@,
                    cwds@,
                    platform,
                    old(claimed_pids)@,
                    pid,
                    session_dir@,
                ) && final(claimed_pids)@ == old(claimed_pids)@.insert(pid),
                None => (forall|pid: u32|
                    !is_candidate(
                        pid_commands@,
                        cwds@,
                        platform,
                        old(claimed_pids)@,
                        pid,
                        session_dir@,
                    )) && final(claimed_pids)@ == old(claimed_pids)@,
            },
    {
        match Self::match_pid_to_session_excluding(
            pid_commands,
            cwds,
            session_dir,
            claimed_pids,
            platform,
        ) {
            Some(pid) => {
                claimed_pids.insert(pid);
                Some(pid)
            },
            None => None,
        }
    }

    /// The process of each cached session, the sessions being served in their order:
    /// one that ties to the session's directory and that no session before it has,
    /// where there is one. `cwds` gives the working directories that are known.
    pub fn match_rows(
        &self,
        process_info: &HashMap<u32, ProcInfo>,
        cwds: &HashMap<u32, String>,
        platform: Platform,
    ) -> (r: Vec<Option<u32>>)
        ensures
            is_assignment(self.cached_db_sessions@, process_info@, cwds@, platform, r@),
    {
        let pids = Self::find_opencode_pids(process_info);
        let commands = Self::pid_commands(process_info, &pids);
        let rows = &self.cached_db_sessions;
        let mut claimed: HashSet<u32> = HashSet::new();
        let mut out: Vec<Option<u32>> = Vec::new();
        let mut i: usize = 0;
        assert(claimed@ =~= claimed_by(out@));
        while i < rows.len()
            invariant
                i <= rows@.len(),
                out@.len() == i,
                claimed@ == claimed_by(out@),
                forall|pid: u32| #[trigger]
                    commands@.contains_key(pid) <==> is_root_opencode(process_info@, pid),
                forall|pid: u32| #[trigger]
                    commands@.contains_key(pid) ==> commands@[pid]@ == process_info@[pid].command@,
                forall|k: int| 0 <= k < i ==> #[trigger] is_served(
                    rows@,
                    process_info@,
                    cwds@,
                    platform,
                    out@,
                    k,
                ),
            decreases rows@.len() - i,
        {
            let ghost before = out@;
            let ghost taken = claimed@;
            let ghost dir = rows@[i as int].directory@;
            let found = Self::match_pid_to_session_once(
                &commands,
                cwds,
                rows[i].directory.as_str(),
                &mut claimed,
                platform,
            );
            out.push(found);
            proof {
                assert(out@.take(i as int) =~= before);
                assert forall|pid: u32| #[trigger]
                    is_candidate(commands@, cwds@, platform, taken, pid, dir) <==> is_free_match(
                        process_info@,
                        cwds@,
                        platform,
                        taken,
                        pid,
                        dir,
                    ) by {
                    assert(commands@.contains_key(pid) <==> is_root_opencode(process_info@, pid));
                }
                assert(is_served(rows@, process_info@, cwds@, platform, out@, i as int)) by {
                    if found is None {
                        assert forall|pid: u32|
                            !is_free_match(process_info@, cwds@, platform, taken, pid, dir) by {
                            assert(!is_candidate(commands@, cwds@, platform, taken, pid, dir));
                        }
                    }
                }
                assert forall|k: int| 0 <= k < i implies #[trigger] is_served(
                    rows@,
                    process_info@,
                    cwds@,
                    platform,
                    out@,
                    k,
                ) by {
                    assert(is_served(rows@, process_info@, cwds@, platform, before, k));
                    assert(out@.take(k) =~= before.take(k));
                }
                lemma_claimed_push(before, found);
                assert(claimed@ =~= claimed_by(out@));
            }
            i += 1;
        }
        out
    }
}

/// The processes that some session was given.
pub open spec fn claimed_by(given: Seq<Option<u32>>) -> Set<u32> {
    Set::new(|pid: u32| given.contains(Some(pid)))
}

proof fn lemma_claimed_push(given: Seq<Option<u32>>, next: Option<u32>)
    ensures
        claimed_by(given.push(next)) == match next {
            Some(pid) => claimed_by(given).insert(pid),
            None => claimed_by(given),
        },
{
    let longer = given.push(next);
    assert forall|p: u32| #[trigger] longer.contains(Some(p)) <==> given.contains(Some(p)) || next == Some(p) by {
        if given.contains(Some(p)) {
            assert(longer[given.index_of(Some(p))] == Some(p));
        }
        if next == Some(p) {
            assert(longer[given.len() as int] == Some(p));
        }
        if longer.contains(Some(p)) && next != Some(p) {
            assert(given[longer.index_of(Some(p))] == Some(p));
        }
    }
    match next {
        Some(pid) => {
            assert(claimed_by(longer) =~= claimed_by(given).insert(pid));
        },
        None => {
            assert(claimed_by(longer) =~= claimed_by(given));
        },
    }
}

/// Whether an OpenCode process that is not taken ties to a session in `dir`.
pub open spec fn is_free_match(
    info: Map<u32, ProcInfo>,
    cwds: Map<u32, String>,
    platform: Platform,
    taken: Set<u32>,
    pid: u32,
    dir: Seq<char>,
) -> bool {
    &&& is_matchable(dir)
    &&& !taken.contains(pid)
    &&& is_root_opencode(info, pid)
    &&& {
        ||| cwds.contains_key(pid) && same_path(cwds[pid]@, dir, platform)
        ||| contains_text(info[pid].command@, dir)
    }
}

/// Whether the `k`-th session has an OpenCode process that ties to its directory and
/// that no session before it has, or there was none.
pub open spec fn is_served(
    rows: Seq<DbSession>,
    info: Map<u32, ProcInfo>,
    cwds: Map<u32, String>,
    platform: Platform,
    given: Seq<Option<u32>>,
    k: int,
) -> bool {
    let taken = claimed_by(given.take(k));
    let dir = rows[k].directory@;
    match given[k] {
        Some(pid) => is_free_match(info, cwds, platform, taken, pid, dir),
        None => forall|pid: u32| !is_free_match(info, cwds, platform, taken, pid, dir),
    }
}

/// Whether each session is served, one after the other.
pub open spec fn is_assignment(
    rows: Seq<DbSession>,
    info: Map<u32, ProcInfo>,
    cwds: Map<u32, String>,
    platform: Platform,
    given: Seq<Option<u32>>,
) -> bool {
    &&& given.len() == rows.len()
    &&& forall|k: int| 0 <= k < rows.len() ==> #[trigger] is_served(rows, info, cwds, platform, given, k)
}

/// No process is given to two sessions.
pub proof fn law_one_session_per_process(
    rows: Seq<DbSession>,
    info: Map<u32, ProcInfo>,
    cwds: Map<u32, String>,
    platform: Platform,
    given: Seq<Option<u32>>,
    i: int,
    j: int,
)
    requires
        is_assignment(rows, info, cwds, platform, given),
        0 <= i < j < given.len(),
        given[i] is Some,
    ensures
        given[i] != given[j],
{
    if given[i] == given[j] {
        assert(is_served(rows, info, cwds, platform, given, j));
        assert(given.take(j)[i] == given[i]);
        assert(given.take(j).contains(given[i]));
    }
}

/// A session in the empty directory or in `/` is given no process, whatever runs.
pub proof fn law_short_directories_never_match(
    rows: Seq<DbSession>,
    info: Map<u32, ProcInfo>,
    cwds: Map<u32, String>,
    platform: Platform,
    given: Seq<Option<u32>>,
    k: int,
)
    requires
        is_assignment(rows, info, cwds, platform, given),
        0 <= k < given.len(),
        byte_len(rows[k].directory@) < 2,
    ensures
        given[k] is None,
{
    assert(is_served(rows, info, cwds, platform, given, k));
}

/// The path behind the first line of the form `n<path>`.
pub open spec fn cwd_in(lines: Seq<Seq<char>>) -> Option<Seq<char>>
    decreases lines.len(),
{
    if lines.len() == 0 {
        None
    } else if lines[0].len() > 1 && lines[0][0] == 'n' {
        Some(lines[0].skip(1))
    } else {
        cwd_in(lines.drop_first())
    }
}

/// The working directory of a process in what `lsof -Fn` prints of it.
pub fn lsof_cwd(output: &str) -> (r: Option<String>)
    ensures
        match r {
            Some(path) => cwd_in(lines_of(output@)) == Some(path@),
            None => cwd_in(lines_of(output@)) is None,
        },
{
    let found = lines(output);
    let ghost all = lines_of(output@);
    let mut i: usize = 0;
    assert(all.skip(0) =~= all);
    while i < found.len()
        invariant
            i <= found@.len(),
            texts(found@) == all,
            all == lines_of(output@),
            cwd_in(all.skip(i as int)) == cwd_in(all),
        decreases found@.len() - i,
    {
        let line = to_chars(found[i].as_str());
        assert(texts(found@)[i as int] == found@[i as int]@);
        assert(all.skip(i as int)[0] == line@);
        assert(all.skip(i as int).drop_first() =~= all.skip(i + 1));
        if line.len() > 1 && line[0] == 'n' {
            let path = from_chars(&line, 1, line.len());
            assert(path@ =~= line@.skip(1));
            return Some(path);
        }
        i += 1;
    }
    None
}

/// A process runs OpenCode itself where it is listed, its first or second word is a path to
/// `opencode`, it searches for nothing, and no process above it does the same.
pub proof fn law_root_processes(info: Map<u32, ProcInfo>, pid: u32)
    ensures
        is_root_opencode(info, pid) <==> {
            &&& info.contains_key(pid)
            &&& names_binary(info[pid].command@, "opencode"@)
            &&& !contains_text(info[pid].command@, "grep"@)
            &&& !runs_under(info, pid, "opencode"@)
        },
{
}

/// A session is left without a process only where none is left for it: one that runs
/// OpenCode in the session's directory, or names it in its command line, is given to the
/// session or to one before it.
pub proof fn law_running_session_gets_a_process(
    rows: Seq<DbSession>,
    info: Map<u32, ProcInfo>,
    cwds: Map<u32, String>,
    given: Seq<Option<u32>>,
    k: int,
    pid: u32,
)
    requires
        is_assignment(rows, info, cwds, Platform::Other, given),
        0 <= k < given.len(),
        is_root_opencode(info, pid),
        encode_utf8(rows[k].directory@).len() >= 2,
        (cwds.contains_key(pid) && cwds[pid]@ == rows[k].directory@) || contains_text(
            info[pid].command@,
            rows[k].directory@,
        ),
    ensures
        given[k] is Some || exists|j: int| 0 <= j < k && #[trigger] given[j] == Some(pid),
{
    assert(is_served(rows, info, cwds, Platform::Other, given, k));
    let taken = claimed_by(given.take(k));
    if given[k] is None {
        assert(!is_free_match(info, cwds, Platform::Other, taken, pid, rows[k].directory@));
        assert(taken.contains(pid));
        let j = given.take(k).index_of(Some(pid));
        assert(given[j] == Some(pid));
    }
}

/// The process of a session runs OpenCode, and it does so in the session's directory or names
/// the directory in its command line.
pub proof fn law_process_ties_to_its_session(
    rows: Seq<DbSession>,
    info: Map<u32, ProcInfo>,
    cwds: Map<u32, String>,
    given: Seq<Option<u32>>,
    k: int,
    pid: u32,
)
    requires
        is_assignment(rows, info, cwds, Platform::Other, given),
        0 <= k < given.len(),
        given[k] == Some(pid),
    ensures
        is_root_opencode(info, pid),
        encode_utf8(rows[k].directory@).len() >= 2,
        (cwds.contains_key(pid) && cwds[pid]@ == rows[k].directory@) || contains_text(
            info[pid].command@,
            rows[k].directory@,
        ),
{
    assert(is_served(rows, info, cwds, Platform::Other, given, k));
}

/// A process can be given to a session where it ties to the session's directory and is not
/// taken.
pub proof fn law_candidates_tie_and_are_free(
    commands: Map<u32, &str>,
    cwds: Map<u32, String>,
    claimed: Set<u32>,
    pid: u32,
    dir: Seq<char>,
)
    ensures
        is_candidate(commands, cwds, Platform::Other, claimed, pid, dir) <==> {
            &&& encode_utf8(dir).len() >= 2
            &&& !claimed.contains(pid)
            &&& commands.contains_key(pid)
            &&& (cwds.contains_key(pid) && cwds[pid]@ == dir) || contains_text(commands[pid]@, dir)
        },
{
}

/// The working directory is the path in the first line that starts with `n` and holds one.
pub proof fn law_working_directory_is_the_first(lines: Seq<Seq<char>>, k: int, path: Seq<char>)
    requires
        0 <= k < lines.len(),
        lines[k] == seq!['n'] + path,
        path.len() > 0,
        forall|i: int| 0 <= i < k ==> (#[trigger] lines[i]).len() <= 1 || lines[i][0] != 'n',
    ensures
        cwd_in(lines) == Some(path),
    decreases lines.len(),
{
    if k > 0 {
        assert(lines[0].len() <= 1 || lines[0][0] != 'n');
        let rest = lines.drop_first();
        assert forall|i: int| 0 <= i < k - 1 implies (#[trigger] rest[i]).len() <= 1 || rest[i][0]
            != 'n' by {
            assert(rest[i] == lines[i + 1]);
        }
        law_working_directory_is_the_first(rest, k - 1, path);
    } else {
        assert(lines[0].skip(1) =~= path);
    }
}

} // verus!
