//! The overlay that lists the keys.
use super::layout::{is_popup, popup, Area};
use crate::text::{pad_right, padded_right};
use vstd::prelude::*;
use vstd::string::*;

verus! {

/// The width of the overlay.
pub const WIDTH: u16 = 60;

/// A key and what it does; a heading does nothing.
#[derive(Debug, Clone, Copy)]
pub struct Entry {
    pub key: &'static str,
    pub desc: &'static str,
}

/// A key and what it does, as texts.
pub open spec fn pair(e: Entry) -> (Seq<char>, Seq<char>) {
    (e.key@, e.desc@)
}

/// The keys and what they do.
pub open spec fn entry_texts() -> Seq<(Seq<char>, Seq<char>)> {
    seq![
        ("Navigation"@, ""@),
        ("  ↑↓ / j k"@, "select session"@),
        ("  ↵"@, "jump to tmux pane (when in tmux)"@),
        ("  /"@, "filter sessions"@),
        ("  Esc"@, "clear filter / close overlay"@),
        ("Actions"@, ""@),
        ("  x"@, "kill selected session"@),
        ("  X"@, "kill orphan ports"@),
        ("  r"@, "force refresh"@),
        ("  q"@, "quit"@),
        ("Views"@, ""@),
        ("  v"@, "open view menu"@),
        ("  c"@, "open config"@),
        ("  t / T"@, "cycle theme / toggle tree"@),
        ("  l"@, "toggle timeline"@),
        ("  f"@, "toggle file audit"@),
        ("  1-7"@, "toggle panels (context/quota/tokens/projects/ports/sessions/mcp)"@),
        ("  M"@, "toggle mcp-server suppression in sessions panel"@),
        ("Help"@, ""@),
        ("  ?"@, "this help"@),
    ]
}

fn entry(key: &'static str, desc: &'static str) -> (r: Entry)
    ensures
        pair(r) == (key@, desc@),
{
    Entry { key, desc }
}

/// The keys and what they do.
pub fn entries() -> (r: Vec<Entry>)
    ensures
        r@.map_values(|e: Entry| pair(e)) == entry_texts(),
{
    let out = vec![
        entry("Navigation", ""),
        entry("  ↑↓ / j k", "select session"),
        entry("  ↵", "jump to tmux pane (when in tmux)"),
        entry("  /", "filter sessions"),
        entry("  Esc", "clear filter / close overlay"),
        entry("Actions", ""),
        entry("  x", "kill selected session"),
        entry("  X", "kill orphan ports"),
        entry("  r", "force refresh"),
        entry("  q", "quit"),
        entry("Views", ""),
        entry("  v", "open view menu"),
        entry("  c", "open config"),
        entry("  t / T", "cycle theme / toggle tree"),
        entry("  l", "toggle timeline"),
        entry("  f", "toggle file audit"),
        entry("  1-7", "toggle panels (context/quota/tokens/projects/ports/sessions/mcp)"),
        entry("  M", "toggle mcp-server suppression in sessions panel"),
        entry("Help", ""),
        entry("  ?", "this help"),
    ];
    assert(out@.map_values(|e: Entry| pair(e)) =~= entry_texts());
    out
}

/// A line of the overlay.
#[derive(Debug)]
pub enum HelpLine {
    Heading(String),
    Key { key: String, desc: String },
    Blank,
    Footer(String),
}

pub ghost enum HelpLineModel {
    Heading(Seq<char>),
    Key { key: Seq<char>, desc: Seq<char> },
    Blank,
    Footer(Seq<char>),
}

impl View for HelpLine {
    type V = HelpLineModel;

    open spec fn view(&self) -> HelpLineModel {
        match self {
            HelpLine::Heading(text) => HelpLineModel::Heading(text@),
            HelpLine::Key { key, desc } => HelpLineModel::Key { key: key@, desc: desc@ },
            HelpLine::Blank => HelpLineModel::Blank,
            HelpLine::Footer(text) => HelpLineModel::Footer(text@),
        }
    }
}

/// The line of an entry: a heading, or a key in a column of its own.
pub open spec fn entry_line(e: (Seq<char>, Seq<char>)) -> HelpLineModel {
    if e.1.len() == 0 {
        HelpLineModel::Heading(e.0)
    } else {
        HelpLineModel::Key { key: padded_right(e.0, 14), desc: e.1 }
    }
}

/// The lines of the overlay.
pub open spec fn help_lines(list: Seq<(Seq<char>, Seq<char>)>) -> Seq<HelpLineModel> {
    list.map_values(|e: (Seq<char>, Seq<char>)| entry_line(e)) + seq![
        HelpLineModel::Blank,
        HelpLineModel::Footer(" Press any key to close "@),
    ]
}

/// The lines of the overlay.
pub fn lines() -> (r: Vec<HelpLine>)
    ensures
        r@.map_values(|l: HelpLine| l@) == help_lines(entry_texts()),
{
    let list = entries();
    let ghost texts = entry_texts();
    let mut out: Vec<HelpLine> = Vec::new();
    let mut i: usize = 0;
    while i < list.len()
        invariant
            i <= list@.len(),
            texts == list@.map_values(|e: Entry| pair(e)),
            out@.len() == i,
            forall|k: int| 0 <= k < i ==> (#[trigger] out@[k])@ == entry_line(texts[k]),
        decreases list@.len() - i,
    {
        let e = list[i];
        assert(texts[i as int] == pair(e));
        if e.desc.is_empty() {
            out.push(HelpLine::Heading(e.key.to_owned()));
        } else {
            out.push(HelpLine::Key { key: pad_right(e.key, 14), desc: e.desc.to_owned() });
        }
        i += 1;
    }
    out.push(HelpLine::Blank);
    out.push(HelpLine::Footer(" Press any key to close ".to_owned()));
    assert(out@.map_values(|l: HelpLine| l@) =~= help_lines(texts));
    out
}

/// Where the overlay lies on a screen.
pub fn help_popup(screen_w: u16, screen_h: u16) -> (r: Area)
    ensures
        is_popup(r, screen_w, screen_h, WIDTH, entry_texts().len() as u16),
{
    popup(screen_w, screen_h, WIDTH, 20)
}

/// A key stands in a column of fourteen characters before what it does; a heading stands
/// alone.
pub proof fn law_help_lines(key: Seq<char>, desc: Seq<char>, i: int)
    ensures
        desc.len() == 0 ==> entry_line((key, desc)) == HelpLineModel::Heading(key),
        desc.len() > 0 ==> entry_line((key, desc)) == (HelpLineModel::Key {
            key: padded_right(key, 14),
            desc,
        }),
        help_lines(entry_texts()).len() == entry_texts().len() + 2,
        0 <= i < entry_texts().len() ==> help_lines(entry_texts())[i] == entry_line(
            entry_texts()[i],
        ),
        help_lines(entry_texts())[20] == HelpLineModel::Blank,
        help_lines(entry_texts())[21] == HelpLineModel::Footer(" Press any key to close "@),
{
}

/// The keys that the overlay lists, and what they do.
pub proof fn law_keys_are_listed()
    ensures
        entry_texts().len() == 20,
        entry_texts().contains(("  ↑↓ / j k"@, "select session"@)),
        entry_texts().contains(("  ↵"@, "jump to tmux pane (when in tmux)"@)),
        entry_texts().contains(("  /"@, "filter sessions"@)),
        entry_texts().contains(("  Esc"@, "clear filter / close overlay"@)),
        entry_texts().contains(("  x"@, "kill selected session"@)),
        entry_texts().contains(("  X"@, "kill orphan ports"@)),
        entry_texts().contains(("  r"@, "force refresh"@)),
        entry_texts().contains(("  q"@, "quit"@)),
        entry_texts().contains(("  v"@, "open view menu"@)),
        entry_texts().contains(("  c"@, "open config"@)),
        entry_texts().contains(("  t / T"@, "cycle theme / toggle tree"@)),
        entry_texts().contains(("  l"@, "toggle timeline"@)),
        entry_texts().contains(("  f"@, "toggle file audit"@)),
        entry_texts().contains(
            ("  1-7"@, "toggle panels (context/quota/tokens/projects/ports/sessions/mcp)"@),
        ),
        entry_texts().contains(("  M"@, "toggle mcp-server suppression in sessions panel"@)),
        entry_texts().contains(("  ?"@, "this help"@)),
        entry_texts()[0] == ("Navigation"@, ""@),
        entry_texts()[5] == ("Actions"@, ""@),
        entry_texts()[10] == ("Views"@, ""@),
        entry_texts()[18] == ("Help"@, ""@),
{
    let all = entry_texts();
    assert(all[1].0 == "  ↑↓ / j k"@ && all[2].0 == "  ↵"@ && all[3].0 == "  /"@ && all[4].0 == "  Esc"@);
    assert(all[6].0 == "  x"@ && all[7].0 == "  X"@ && all[8].0 == "  r"@ && all[9].0 == "  q"@);
    assert(all[11].0 == "  v"@ && all[12].0 == "  c"@ && all[13].0 == "  t / T"@ && all[14].0 == "  l"@);
    assert(all[15].0 == "  f"@ && all[16].0 == "  1-7"@ && all[17].0 == "  M"@ && all[19].0 == "  ?"@);
}

/// A line shows its own parts.
pub proof fn law_line_shows_its_parts(text: String, desc: String, e: Entry)
    ensures
        HelpLine::Heading(text)@ == HelpLineModel::Heading(text@),
        (HelpLine::Key { key: text, desc })@ == (HelpLineModel::Key { key: text@, desc: desc@ }),
        HelpLine::Blank@ == HelpLineModel::Blank,
        HelpLine::Footer(text)@ == HelpLineModel::Footer(text@),
        pair(e) == (e.key@, e.desc@),
{
}

} // verus!
