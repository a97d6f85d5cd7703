//! The panel of MCP servers.
use crate::app::McpServer;
use crate::text::number::{decimal, decimal_text, push_decimal};
use crate::text::{pad_left, pad_right, padded_left, padded_right, text_of};
use vstd::prelude::*;
use vstd::string::*;

verus! {

/// The columns' names.
pub const HEADER: &'static str = " PARENT  PROFILE      ACT/TOT LAST";

/// What the panel shows without servers.
pub const NO_SERVERS: &'static str = " no mcp servers";

/// What the panel shows while the sessions of servers are not hidden.
pub const NOT_SUPPRESSED: &'static str = " suppress: off (M)";

/// How long ago something was, in the largest unit that it fills.
pub open spec fn age_text(secs: u64) -> Seq<char> {
    if secs < 60 {
        decimal(secs as nat) + "s ago"@
    } else if secs < 3600 {
        decimal((secs / 60) as nat) + "m ago"@
    } else if secs < 86400 {
        decimal((secs / 3600) as nat) + "h ago"@
    } else {
        decimal((secs / 86400) as nat) + "d ago"@
    }
}

/// How long ago something was, in the largest unit that it fills.
pub fn fmt_age(secs: u64) -> (r: String)
    ensures
        r@ == age_text(secs),
{
    let mut out = String::new();
    if secs < 60 {
        push_decimal(&mut out, secs);
        out.append("s ago");
    } else if secs < 3600 {
        push_decimal(&mut out, secs / 60);
        out.append("m ago");
    } else if secs < 86400 {
        push_decimal(&mut out, secs / 3600);
        out.append("h ago");
    } else {
        push_decimal(&mut out, secs / 86400);
        out.append("d ago");
    }
    assert(out@ =~= age_text(secs));
    out
}

/// How the counts of a server are coloured.
#[derive(Debug, Clone, Copy, PartialEq, Eq, Structural)]
pub enum Activity {
    /// Rollouts were written to lately.
    Active,
    /// Rollouts are open.
    Open,
    Idle,
}

/// A line of the panel.
#[derive(Debug)]
pub struct McpLine {
    pub parent: String,
    pub profile: String,
    pub counts: String,
    pub last: String,
    pub activity: Activity,
}

pub ghost struct McpLineModel {
    pub parent: Seq<char>,
    pub profile: Seq<char>,
    pub counts: Seq<char>,
    pub last: Seq<char>,
    pub activity: Activity,
}

impl View for McpLine {
    type V = McpLineModel;

    open spec fn view(&self) -> McpLineModel {
        McpLineModel {
            parent: self.parent@,
            profile: self.profile@,
            counts: self.counts@,
            last: self.last@,
            activity: self.activity,
        }
    }
}

/// The activity of a server.
pub open spec fn activity_of(m: McpServer) -> Activity {
    if m.active_count > 0 {
        Activity::Active
    } else if m.rollout_count > 0 {
        Activity::Open
    } else {
        Activity::Idle
    }
}

/// How long ago a server was active; a dash where that is not known, or lies in the
/// future. Both times are in nanoseconds since the epoch.
pub open spec fn last_text(latest_mtime: Option<i128>, now: i128) -> Seq<char> {
    match latest_mtime {
        Some(t) => if now >= t {
            age_text(((now - t) / 1_000_000_000) as u64)
        } else {
            "—"@
        },
        None => "—"@,
    }
}

/// The line of a server. `profile` is its profile, shortened for the panel.
pub open spec fn line_model(m: McpServer, profile: Option<Seq<char>>, now: i128) -> McpLineModel {
    McpLineModel {
        parent: " "@ + padded_right(m.parent_cli@, 7),
        profile: padded_right(
            match profile {
                Some(p) => p,
                None => "default"@,
            },
            13,
        ),
        counts: padded_left(decimal(m.active_count as nat), 3) + "/"@ + padded_right(
            decimal(m.rollout_count as nat),
            3,
        ) + " "@,
        last: last_text(m.latest_mtime, now),
        activity: activity_of(m),
    }
}

/// Whether the time from one moment to another can be told in seconds of 64 bits.
pub open spec fn is_near(latest_mtime: Option<i128>, now: i128) -> bool {
    match latest_mtime {
        Some(t) => now - t <= i128::MAX && (now - t) / 1_000_000_000 <= u64::MAX,
        None => true,
    }
}

fn last_label(latest_mtime: Option<i128>, now: i128) -> (r: String)
    requires
        is_near(latest_mtime, now),
    ensures
        r@ == last_text(latest_mtime, now),
{
    match latest_mtime {
        Some(t) => if now >= t {
            let secs = ((now - t) / 1_000_000_000) as u64;
            fmt_age(secs)
        } else {
            "—".to_owned()
        },
        None => "—".to_owned(),
    }
}

/// The line of a server. `profile` is its profile, shortened for the panel.
pub fn line_of(m: &McpServer, profile: Option<&str>, now: i128) -> (r: McpLine)
    requires
        is_near(m.latest_mtime, now),
    ensures
        r@ == line_model(
            *m,
            match profile {
                Some(p) => Some(p@),
                None => None,
            },
            now,
        ),
{
    let mut parent = " ".to_owned();
    let cli = pad_right(m.parent_cli, 7);
    parent.append(cli.as_str());
    let label = match profile {
        Some(p) => pad_right(p, 13),
        None => pad_right("default", 13),
    };
    let active = decimal_text(m.active_count as u64);
    let mut counts = pad_left(active.as_str(), 3);
    counts.append("/");
    let open = decimal_text(m.rollout_count as u64);
    let total = pad_right(open.as_str(), 3);
    counts.append(total.as_str());
    counts.append(" ");
    McpLine {
        parent,
        profile: label,
        counts,
        last: last_label(m.latest_mtime, now),
        activity: if m.active_count > 0 {
            Activity::Active
        } else if m.rollout_count > 0 {
            Activity::Open
        } else {
            Activity::Idle
        },
    }
}

/// A row of the panel.
#[derive(Debug)]
pub enum McpRow {
    Header,
    NoServers,
    Server(McpLine),
    NotSuppressed,
}

pub ghost enum McpRowModel {
    Header,
    NoServers,
    Server(McpLineModel),
    NotSuppressed,
}

impl View for McpRow {
    type V = McpRowModel;

    open spec fn view(&self) -> McpRowModel {
        match self {
            McpRow::Header => McpRowModel::Header,
            McpRow::NoServers => McpRowModel::NoServers,
            McpRow::Server(line) => McpRowModel::Server(line@),
            McpRow::NotSuppressed => McpRowModel::NotSuppressed,
        }
    }
}

/// The rows of the servers.
pub open spec fn server_rows(
    servers: Seq<McpServer>,
    profiles: Seq<Option<String>>,
    now: i128,
) -> Seq<McpRowModel> {
    Seq::new(
        servers.len(),
        |i: int| McpRowModel::Server(line_model(servers[i], text_of(profiles[i]), now)),
    )
}

/// The rows of the panel: the header, and the servers with a note while their sessions
/// are not hidden, or that there are none.
pub open spec fn row_models(
    servers: Seq<McpServer>,
    profiles: Seq<Option<String>>,
    now: i128,
    suppressed: bool,
) -> Seq<McpRowModel> {
    let header = seq![McpRowModel::Header];
    if servers.len() == 0 {
        header.push(McpRowModel::NoServers)
    } else if suppressed {
        header + server_rows(servers, profiles, now)
    } else {
        (header + server_rows(servers, profiles, now)).push(McpRowModel::NotSuppressed)
    }
}

/// The rows of the panel. `profiles` gives the profile of each server, shortened for
/// the panel.
pub fn panel_rows(
    servers: &Vec<McpServer>,
    profiles: &Vec<Option<String>>,
    now: i128,
    suppressed: bool,
) -> (r: Vec<McpRow>)
    requires
        profiles@.len() == servers@.len(),
        forall|i: int| 0 <= i < servers@.len() ==> is_near((#[trigger] servers@[i]).latest_mtime, now),
    ensures
        r@.map_values(|row: McpRow| row@) == row_models(servers@, profiles@, now, suppressed),
{
    let mut out: Vec<McpRow> = Vec::new();
    out.push(McpRow::Header);
    if servers.len() == 0 {
        out.push(McpRow::NoServers);
        assert(out@.map_values(|row: McpRow| row@) =~= row_models(servers@, profiles@, now, suppressed));
        return out;
    }
    let ghost wanted = server_rows(servers@, profiles@, now);
    let mut i: usize = 0;
    while i < servers.len()
        invariant
            i <= servers@.len(),
            profiles@.len() == servers@.len(),
            forall|i: int| 0 <= i < servers@.len() ==> is_near((#[trigger] servers@[i]).latest_mtime, now),
            wanted == server_rows(servers@, profiles@, now),
            out@.len() == i + 1,
            out@[0]@ == McpRowModel::Header,
            forall|k: int| 1 <= k < out@.len() ==> (#[trigger] out@[k])@ == wanted[k - 1],
        decreases servers@.len() - i,
    {
        let line = match &profiles[i] {
            Some(p) => line_of(&servers[i], Some(p.as_str()), now),
            None => line_of(&servers[i], None, now),
        };
        out.push(McpRow::Server(line));
        i += 1;
    }
    if !suppressed {
        out.push(McpRow::NotSuppressed);
    }
    assert(out@.map_values(|row: McpRow| row@) =~= row_models(servers@, profiles@, now, suppressed));
    out
}

/// An age is told in the largest of seconds, minutes, hours and days that it fills, by how
/// many whole ones it holds.
pub proof fn law_age_is_told_in_its_largest_unit(secs: u64, n: nat)
    ensures
        secs < 60 ==> age_text(secs) == decimal(secs as nat) + "s ago"@,
        60 <= secs < 3600 && n * 60 <= secs < n * 60 + 60 ==> age_text(secs) == decimal(n)
            + "m ago"@,
        3600 <= secs < 86400 && n * 3600 <= secs < n * 3600 + 3600 ==> age_text(secs) == decimal(n)
            + "h ago"@,
        86400 <= secs && n * 86400 <= secs < n * 86400 + 86400 ==> age_text(secs) == decimal(n)
            + "d ago"@,
{
}

/// What a line shows of a server: who started it, its profile, its rollouts at work and
/// open, and how long ago it was last active.
pub proof fn law_server_line(m: McpServer, profile: Option<Seq<char>>, now: i128, secs: u64)
    ensures
        ({
            let line = line_model(m, profile, now);
            &&& line.parent == seq![' '] + padded_right(m.parent_cli@, 7)
            &&& profile matches Some(p) ==> line.profile == padded_right(p, 13)
            &&& profile is None ==> line.profile == padded_right("default"@, 13)
            &&& line.counts == padded_left(decimal(m.active_count as nat), 3) + seq!['/']
                + padded_right(decimal(m.rollout_count as nat), 3) + seq![' ']
            &&& m.latest_mtime is None ==> line.last == "—"@
            &&& m.latest_mtime matches Some(t) ==> (now < t ==> line.last == "—"@)
            &&& m.latest_mtime matches Some(t) ==> (secs * 1_000_000_000 <= now - t < secs
                * 1_000_000_000 + 1_000_000_000 ==> line.last == age_text(secs))
            &&& m.active_count > 0 ==> line.activity == Activity::Active
            &&& m.active_count == 0 && m.rollout_count > 0 ==> line.activity == Activity::Open
            &&& m.active_count == 0 && m.rollout_count == 0 ==> line.activity == Activity::Idle
        }),
{
    reveal_strlit(" ");
    reveal_strlit("/");
    assert(" "@ =~= seq![' ']);
    assert("/"@ =~= seq!['/']);
}

/// The panel has a header, then a line per server in their order, then a note while their
/// sessions are not hidden; without servers it says so.
pub proof fn law_panel_rows(
    servers: Seq<McpServer>,
    profiles: Seq<Option<String>>,
    now: i128,
    suppressed: bool,
    i: int,
)
    requires
        profiles.len() == servers.len(),
    ensures
        ({
            let rows = row_models(servers, profiles, now, suppressed);
            &&& rows[0] == McpRowModel::Header
            &&& servers.len() == 0 ==> rows.len() == 2 && rows[1] == McpRowModel::NoServers
            &&& servers.len() > 0 && suppressed ==> rows.len() == servers.len() + 1
            &&& servers.len() > 0 && !suppressed ==> rows.len() == servers.len() + 2 && rows.last()
                == McpRowModel::NotSuppressed
            &&& 0 <= i < servers.len() ==> rows[i + 1] == McpRowModel::Server(
                line_model(
                    servers[i],
                    match profiles[i] {
                        Some(p) => Some(p@),
                        None => None,
                    },
                    now,
                ),
            )
        }),
{
}

/// A line shows its own fields.
pub proof fn law_line_shows_its_fields(l: McpLine)
    ensures
        l@.parent == l.parent@,
        l@.profile == l.profile@,
        l@.counts == l.counts@,
        l@.last == l.last@,
        l@.activity == l.activity,
{
}

/// The words of the panel.
pub proof fn law_panel_words()
    ensures
        HEADER@ == " PARENT  PROFILE      ACT/TOT LAST"@,
        NO_SERVERS@ == " no mcp servers"@,
        NOT_SUPPRESSED@ == " suppress: off (M)"@,
{
}

} // verus!
