//! The overlay that switches views on and off.
use super::layout::{is_popup, popup, Area};
use crate::app::ViewFlags;
use crate::text::{pad_right, padded_right};
use vstd::prelude::*;
use vstd::string::*;

verus! {

/// The width of the overlay.
pub const WIDTH: u16 = 44;

/// What an item of the overlay shows of itself.
#[derive(Debug, Clone, Copy, PartialEq, Eq, Structural)]
pub enum ViewState {
    On,
    Off,
    /// The item does something instead of being on or off.
    Action,
}

/// An item of the overlay.
#[derive(Debug, Clone, Copy)]
pub struct ViewItem {
    /// The key that is accepted while the overlay is open.
    pub key: char,
    pub label: &'static str,
    pub state: ViewState,
}

pub ghost struct ViewItemModel {
    pub key: char,
    pub label: Seq<char>,
    pub state: ViewState,
}

impl View for ViewItem {
    type V = ViewItemModel;

    open spec fn view(&self) -> ViewItemModel {
        ViewItemModel { key: self.key, label: self.label@, state: self.state }
    }
}

/// On or off.
pub open spec fn state_of(on: bool) -> ViewState {
    if on {
        ViewState::On
    } else {
        ViewState::Off
    }
}

/// The items of the overlay.
pub open spec fn item_models(v: ViewFlags) -> Seq<ViewItemModel> {
    seq![
        ViewItemModel { key: 'T', label: "tree view"@, state: state_of(v.tree_view) },
        ViewItemModel { key: 'l', label: "timeline"@, state: state_of(v.show_timeline) },
        ViewItemModel { key: 'f', label: "file audit"@, state: state_of(v.show_file_audit) },
        ViewItemModel { key: '1', label: "context panel"@, state: state_of(v.show_context) },
        ViewItemModel { key: '2', label: "quota panel"@, state: state_of(v.show_quota) },
        ViewItemModel { key: '3', label: "tokens panel"@, state: state_of(v.show_tokens) },
        ViewItemModel { key: '4', label: "projects panel"@, state: state_of(v.show_projects) },
        ViewItemModel { key: '5', label: "ports panel"@, state: state_of(v.show_ports) },
        ViewItemModel { key: '6', label: "sessions panel"@, state: state_of(v.show_sessions) },
        ViewItemModel { key: '7', label: "mcp servers panel"@, state: state_of(v.show_mcp) },
        ViewItemModel { key: 'M', label: "mcp session hide"@, state: state_of(v.mcp_suppress_sessions) },
        ViewItemModel { key: 't', label: "cycle theme"@, state: ViewState::Action },
    ]
}

fn switch(key: char, label: &'static str, on: bool) -> (r: ViewItem)
    ensures
        r@ == (ViewItemModel { key, label: label@, state: state_of(on) }),
{
    let state = if on {
        ViewState::On
    } else {
        ViewState::Off
    };
    ViewItem { key, label, state }
}

/// The items of the overlay.
pub fn items(v: &ViewFlags) -> (r: Vec<ViewItem>)
    ensures
        r@.map_values(|i: ViewItem| i@) == item_models(*v),
{
    let out = vec![
        switch('T', "tree view", v.tree_view),
        switch('l', "timeline", v.show_timeline),
        switch('f', "file audit", v.show_file_audit),
        switch('1', "context panel", v.show_context),
        switch('2', "quota panel", v.show_quota),
        switch('3', "tokens panel", v.show_tokens),
        switch('4', "projects panel", v.show_projects),
        switch('5', "ports panel", v.show_ports),
        switch('6', "sessions panel", v.show_sessions),
        switch('7', "mcp servers panel", v.show_mcp),
        switch('M', "mcp session hide", v.mcp_suppress_sessions),
        ViewItem { key: 't', label: "cycle theme", state: ViewState::Action },
    ];
    assert(out@.map_values(|i: ViewItem| i@) =~= item_models(*v));
    out
}

/// No two items of the overlay have the same key.
pub proof fn law_keys_are_distinct(v: ViewFlags, i: int, j: int)
    requires
        0 <= i < j < item_models(v).len(),
    ensures
        item_models(v)[i].key != item_models(v)[j].key,
{
}

/// A line of the overlay: the key, the label in a column of its own, and the state.
#[derive(Debug)]
pub struct ViewLine {
    pub key: String,
    pub label: String,
    pub state_text: &'static str,
    pub state: ViewState,
}

pub ghost struct ViewLineModel {
    pub key: Seq<char>,
    pub label: Seq<char>,
    pub state_text: Seq<char>,
    pub state: ViewState,
}

impl View for ViewLine {
    type V = ViewLineModel;

    open spec fn view(&self) -> ViewLineModel {
        ViewLineModel {
            key: self.key@,
            label: self.label@,
            state_text: self.state_text@,
            state: self.state,
        }
    }
}

/// The line of an item.
pub open spec fn item_line(item: ViewItemModel) -> ViewLineModel {
    ViewLineModel {
        key: "  "@.push(item.key) + "  "@,
        label: padded_right(item.label, 22),
        state_text: match item.state {
            ViewState::On => "on"@,
            ViewState::Off => "off"@,
            ViewState::Action => "→"@,
        },
        state: item.state,
    }
}

/// The line of an item.
pub fn line_of(item: &ViewItem) -> (r: ViewLine)
    ensures
        r@ == item_line(item@),
{
    let mut key = "  ".to_owned();
    key.push(item.key);
    key.append("  ");
    let state_text = match item.state {
        ViewState::On => "on",
        ViewState::Off => "off",
        ViewState::Action => "→",
    };
    ViewLine { key, label: pad_right(item.label, 22), state_text, state: item.state }
}

/// The last line of the overlay.
pub const FOOTER: &'static str = " key = toggle  ·  Esc = close ";

/// The lines of the overlay, without the footer.
pub fn lines(v: &ViewFlags) -> (r: Vec<ViewLine>)
    ensures
        r@.map_values(|l: ViewLine| l@) == item_models(*v).map_values(|i: ViewItemModel| item_line(i)),
{
    let list = items(v);
    let ghost models = item_models(*v);
    let mut out: Vec<ViewLine> = Vec::new();
    let mut i: usize = 0;
    while i < list.len()
        invariant
            i <= list@.len(),
            models == list@.map_values(|i: ViewItem| i@),
            out@.len() == i,
            forall|k: int| 0 <= k < i ==> (#[trigger] out@[k])@ == item_line(models[k]),
        decreases list@.len() - i,
    {
        assert(models[i as int] == list@[i as int]@);
        out.push(line_of(&list[i]));
        i += 1;
    }
    assert(out@.map_values(|l: ViewLine| l@) =~= models.map_values(|i: ViewItemModel| item_line(i)));
    out
}

/// Where the overlay lies on a screen.
pub fn view_popup(screen_w: u16, screen_h: u16) -> (r: Area)
    ensures
        is_popup(r, screen_w, screen_h, WIDTH, 12),
{
    popup(screen_w, screen_h, WIDTH, 12)
}

/// Each item shows whether its view is on; the last one does something instead.
pub proof fn law_items_show_their_views(v: ViewFlags)
    ensures
        item_models(v).len() == 12,
        item_models(v)[0].key == 'T' && item_models(v)[0].label == "tree view"@,
        item_models(v)[1].key == 'l' && item_models(v)[1].label == "timeline"@,
        item_models(v)[2].key == 'f' && item_models(v)[2].label == "file audit"@,
        item_models(v)[3].key == '1' && item_models(v)[3].label == "context panel"@,
        item_models(v)[4].key == '2' && item_models(v)[4].label == "quota panel"@,
        item_models(v)[5].key == '3' && item_models(v)[5].label == "tokens panel"@,
        item_models(v)[6].key == '4' && item_models(v)[6].label == "projects panel"@,
        item_models(v)[7].key == '5' && item_models(v)[7].label == "ports panel"@,
        item_models(v)[8].key == '6' && item_models(v)[8].label == "sessions panel"@,
        item_models(v)[9].key == '7' && item_models(v)[9].label == "mcp servers panel"@,
        item_models(v)[10].key == 'M' && item_models(v)[10].label == "mcp session hide"@,
        item_models(v)[11].key == 't' && item_models(v)[11].label == "cycle theme"@,
        item_models(v)[0].state == ViewState::On <==> v.tree_view,
        item_models(v)[1].state == ViewState::On <==> v.show_timeline,
        item_models(v)[2].state == ViewState::On <==> v.show_file_audit,
        item_models(v)[3].state == ViewState::On <==> v.show_context,
        item_models(v)[4].state == ViewState::On <==> v.show_quota,
        item_models(v)[5].state == ViewState::On <==> v.show_tokens,
        item_models(v)[6].state == ViewState::On <==> v.show_projects,
        item_models(v)[7].state == ViewState::On <==> v.show_ports,
        item_models(v)[8].state == ViewState::On <==> v.show_sessions,
        item_models(v)[9].state == ViewState::On <==> v.show_mcp,
        item_models(v)[10].state == ViewState::On <==> v.mcp_suppress_sessions,
        item_models(v)[11].state == ViewState::Action,
        forall|i: int|
            0 <= i < 11 ==> (#[trigger] item_models(v)[i]).state == ViewState::On
                || item_models(v)[i].state == ViewState::Off,
{
}

/// A line shows the key between spaces, the label in a column of twenty-two characters, and
/// the state.
pub proof fn law_item_line(item: ViewItemModel)
    ensures
        item_line(item).key == seq![' ', ' ', item.key, ' ', ' '],
        item_line(item).label == padded_right(item.label, 22),
        item_line(item).state == item.state,
        item.state == ViewState::On ==> item_line(item).state_text == "on"@,
        item.state == ViewState::Off ==> item_line(item).state_text == "off"@,
        item.state == ViewState::Action ==> item_line(item).state_text == "→"@,
{
    reveal_strlit("  ");
    assert(item_line(item).key =~= seq![' ', ' ', item.key, ' ', ' ']);
}

/// An item and its line show their own fields.
pub proof fn law_lines_show_their_fields(i: ViewItem, l: ViewLine)
    ensures
        i@.label == i.label@,
        i@.key == i.key,
        i@.state == i.state,
        l@.key == l.key@,
        l@.label == l.label@,
        l@.state_text == l.state_text@,
        l@.state == l.state,
{
}

/// The last line says how to leave, and the overlay is as wide as its lines need.
pub proof fn law_overlay_words()
    ensures
        FOOTER@ == " key = toggle  ·  Esc = close "@,
        WIDTH == 44,
{
}

} // verus!
