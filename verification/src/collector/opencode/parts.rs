//! The parts of OpenCode messages: chat lines and tool calls.
use super::rows::{session_ids, DbSession};
use crate::collector::sanitize::{redact_secrets, redacted, sanitize_terminal_text, sanitized};
use crate::json::{parse_json, parsed_json, trees, Json, JsonTree};
use crate::model::{
    chat_models, tool_models, ChatMessage, ChatMessageModel, ChatRole, ToolCall, ToolCallModel,
};
use crate::text::same;
use crate::text::scan::{trim, trimmed};
use vstd::prelude::*;
use vstd::string::*;

verus! {

/// What a part of a message adds to a session.
#[derive(Debug)]
pub enum Part {
    Chat(ChatMessage),
    Tool(ToolCall),
    Nothing,
}

pub ghost enum PartModel {
    Chat(ChatMessageModel),
    Tool(ToolCallModel),
    Nothing,
}

impl View for Part {
    type V = PartModel;

    open spec fn view(&self) -> PartModel {
        match self {
            Part::Chat(m) => PartModel::Chat(m@),
            Part::Tool(t) => PartModel::Tool(t@),
            Part::Nothing => PartModel::Nothing,
        }
    }
}

/// The argument to show for a tool call: the command, the file, the pattern or the
/// description where the input has one, in this order, and else its first member
/// where that is a string.
pub open spec fn tool_arg(input: JsonTree) -> Seq<char> {
    match input {
        JsonTree::Object(fields) => {
            if input.field("command"@) is Str {
                input.field("command"@)->Str_0
            } else if input.field("filePath"@) is Str {
                input.field("filePath"@)->Str_0
            } else if input.field("path"@) is Str {
                input.field("path"@)->Str_0
            } else if input.field("pattern"@) is Str {
                input.field("pattern"@)->Str_0
            } else if input.field("description"@) is Str {
                input.field("description"@)->Str_0
            } else if fields.len() > 0 {
                fields[0].1.text_or_empty()
            } else {
                Seq::empty()
            }
        },
        _ => Seq::empty(),
    }
}

/// How long a tool ran, from the times of its start and its end.
pub open spec fn span_ms(start: u64, end: u64) -> u64 {
    if end >= start {
        (end - start) as u64
    } else {
        0
    }
}

/// What a part of a message adds: a chat line for text and reasoning that is not
/// blank, a tool call for a tool with a name, and nothing otherwise.
pub open spec fn part_of(part: JsonTree, role: Seq<char>) -> PartModel {
    let kind = part.field("type"@).text_or_empty();
    if kind == "text"@ || kind == "reasoning"@ {
        match part.field("text"@) {
            JsonTree::Str(text) => if trimmed(text).len() > 0 {
                PartModel::Chat(
                    ChatMessageModel {
                        role: if role == "user"@ {
                            ChatRole::User
                        } else {
                            ChatRole::Assistant
                        },
                        text: redacted(sanitized(text)),
                    },
                )
            } else {
                PartModel::Nothing
            },
            _ => PartModel::Nothing,
        }
    } else if kind == "tool"@ && part.field("tool"@).text_or_empty().len() > 0 {
        let state = part.field("state"@);
        PartModel::Tool(
            ToolCallModel {
                name: part.field("tool"@).text_or_empty(),
                arg: tool_arg(state.field("input"@)),
                duration_ms: span_ms(
                    state.field("time"@).field("start"@).unsigned_or_zero(),
                    state.field("time"@).field("end"@).unsigned_or_zero(),
                ),
            },
        )
    } else {
        PartModel::Nothing
    }
}

/// What a row adds to the session `id`: nothing where the row belongs to another
/// session, or where its data are no JSON.
pub open spec fn part_of_row(row: JsonTree, id: Seq<char>) -> PartModel {
    if row.field("session_id"@).text_or_empty() == id {
        match parsed_json(row.field("part_data"@).text_or_empty()) {
            Some(part) => part_of(part, row.field("role"@).text_or_empty()),
            None => PartModel::Nothing,
        }
    } else {
        PartModel::Nothing
    }
}

/// The chat lines of the session `id`, in the order of the rows.
pub open spec fn chat_of(rows: Seq<JsonTree>, id: Seq<char>) -> Seq<ChatMessageModel>
    decreases rows.len(),
{
    if rows.len() == 0 {
        Seq::empty()
    } else {
        let before = chat_of(rows.drop_last(), id);
        match part_of_row(rows.last(), id) {
            PartModel::Chat(m) => before.push(m),
            _ => before,
        }
    }
}

/// The tool calls of the session `id`, in the order of the rows.
pub open spec fn tools_of(rows: Seq<JsonTree>, id: Seq<char>) -> Seq<ToolCallModel>
    decreases rows.len(),
{
    if rows.len() == 0 {
        Seq::empty()
    } else {
        let before = tools_of(rows.drop_last(), id);
        match part_of_row(rows.last(), id) {
            PartModel::Tool(t) => before.push(t),
            _ => before,
        }
    }
}

fn member_text<'a>(input: &'a Json, key: &str) -> (r: Option<&'a str>)
    ensures
        match r {
            Some(s) => input@.field(key@) == JsonTree::Str(s@),
            None => !(input@.field(key@) is Str),
        },
{
    input.field(key).as_str()
}

fn read_tool_arg(input: &Json) -> (r: String)
    ensures
        r@ == tool_arg(input@),
{
    match input {
        Json::Object(fields) => {
            if let Some(s) = member_text(input, "command") {
                return s.to_owned();
            }
            if let Some(s) = member_text(input, "filePath") {
                return s.to_owned();
            }
            if let Some(s) = member_text(input, "path") {
                return s.to_owned();
            }
            if let Some(s) = member_text(input, "pattern") {
                return s.to_owned();
            }
            if let Some(s) = member_text(input, "description") {
                return s.to_owned();
            }
            if fields.len() > 0 {
                assert(input@->Object_0[0].1 == fields@[0].1@);
                fields[0].1.str_or_empty().to_owned()
            } else {
                String::new()
            }
        },
        _ => String::new(),
    }
}

/// What a part of a message adds to its session.
pub fn read_part(part: &Json, role: &str) -> (r: Part)
    ensures
        r@ == part_of(part@, role@),
{
    let kind = part.field("type").str_or_empty();
    if same(kind, "text") || same(kind, "reasoning") {
        match part.field("text").as_str() {
            Some(text) => {
                let bare = trim(text);
                if bare.as_str().is_empty() {
                    Part::Nothing
                } else {
                    let clean = sanitize_terminal_text(text);
                    Part::Chat(
                        ChatMessage {
                            role: if same(role, "user") {
                                ChatRole::User
                            } else {
                                ChatRole::Assistant
                            },
                            text: redact_secrets(clean.as_str()),
                        },
                    )
                }
            },
            None => Part::Nothing,
        }
    } else if same(kind, "tool") {
        let name = part.field("tool").str_or_empty();
        if name.is_empty() {
            return Part::Nothing;
        }
        let state = part.field("state");
        let start = state.field("time").field("start").u64_or_zero();
        let end = state.field("time").field("end").u64_or_zero();
        Part::Tool(
            ToolCall {
                name: name.to_owned(),
                arg: read_tool_arg(state.field("input")),
                duration_ms: end.saturating_sub(start),
            },
        )
    } else {
        Part::Nothing
    }
}

/// The chat lines and tool calls of one session.
#[derive(Debug)]
pub struct SessionParts {
    pub id: String,
    pub chat: Vec<ChatMessage>,
    pub tools: Vec<ToolCall>,
}

/// The chat lines and tool calls of the session `id`.
pub fn parts_of_session(rows: &Vec<Json>, id: &str) -> (r: SessionParts)
    ensures
        r.id@ == id@,
        chat_models(r.chat@) == chat_of(trees(rows@), id@),
        tool_models(r.tools@) == tools_of(trees(rows@), id@),
{
    let ghost all = trees(rows@);
    let mut chat: Vec<ChatMessage> = Vec::new();
    let mut tools: Vec<ToolCall> = Vec::new();
    let mut i: usize = 0;
    assert(chat_models(chat@) =~= chat_of(all.take(0), id@));
    assert(tool_models(tools@) =~= tools_of(all.take(0), id@));
    while i < rows.len()
        invariant
            i <= rows@.len(),
            all == trees(rows@),
            chat_models(chat@) == chat_of(all.take(i as int), id@),
            tool_models(tools@) == tools_of(all.take(i as int), id@),
        decreases rows@.len() - i,
    {
        let row = &rows[i];
        let ghost now = all.take(i + 1);
        assert(now.last() == row@);
        assert(now.drop_last() =~= all.take(i as int));
        if same(row.field("session_id").str_or_empty(), id) {
            match parse_json(row.field("part_data").str_or_empty()) {
                Some(part) => {
                    match read_part(&part, row.field("role").str_or_empty()) {
                        Part::Chat(m) => {
                            assert(chat_models(chat@.push(m)) =~= chat_models(chat@).push(m@));
                            chat.push(m);
                        },
                        Part::Tool(t) => {
                            assert(tool_models(tools@.push(t)) =~= tool_models(tools@).push(t@));
                            tools.push(t);
                        },
                        Part::Nothing => {},
                    }
                },
                None => {},
            }
        }
        i += 1;
    }
    assert(all.take(i as int) =~= all);
    SessionParts { id: id.to_owned(), chat, tools }
}

/// Whether a table holds, for each of the given sessions, what the rows say of it.
pub open spec fn parts_table(table: Seq<SessionParts>, ids: Seq<Seq<char>>, rows: Seq<JsonTree>) -> bool {
    &&& table.len() == ids.len()
    &&& forall|i: int|
        0 <= i < table.len() ==> {
            &&& (#[trigger] table[i]).id@ == ids[i]
            &&& chat_models(table[i].chat@) == chat_of(rows, ids[i])
            &&& tool_models(table[i].tools@) == tools_of(rows, ids[i])
        }
}

/// The chat lines and tool calls of each of the given sessions.
pub fn query_parts(sessions: &Vec<DbSession>, rows: &Vec<Json>) -> (r: Vec<SessionParts>)
    ensures
        parts_table(r@, session_ids(sessions@), trees(rows@)),
{
    let mut out: Vec<SessionParts> = Vec::new();
    let mut i: usize = 0;
    while i < sessions.len()
        invariant
            i <= sessions@.len(),
            parts_table(out@, session_ids(sessions@).take(i as int), trees(rows@)),
        decreases sessions@.len() - i,
    {
        let parts = parts_of_session(rows, sessions[i].id.as_str());
        out.push(parts);
        i += 1;
    }
    assert(session_ids(sessions@).take(i as int) =~= session_ids(sessions@));
    out
}

/// The position of the session `id` in a table, where it is there.
pub open spec fn parts_index(table: Seq<SessionParts>, id: Seq<char>) -> Option<int>
    decreases table.len(),
{
    if table.len() == 0 {
        None
    } else {
        match parts_index(table.drop_last(), id) {
            Some(i) => Some(i),
            None => if table.last().id@ == id {
                Some(table.len() - 1)
            } else {
                None
            },
        }
    }
}

/// The chat lines that a table holds for the session `id`; none where it is not there.
pub open spec fn table_chat(table: Seq<SessionParts>, id: Seq<char>) -> Seq<ChatMessageModel> {
    match parts_index(table, id) {
        Some(i) => chat_models(table[i].chat@),
        None => Seq::empty(),
    }
}

/// The tool calls that a table holds for the session `id`; none where it is not there.
pub open spec fn table_tools(table: Seq<SessionParts>, id: Seq<char>) -> Seq<ToolCallModel> {
    match parts_index(table, id) {
        Some(i) => tool_models(table[i].tools@),
        None => Seq::empty(),
    }
}

/// The position that is found is the first one.
pub proof fn lemma_parts_index(table: Seq<SessionParts>, id: Seq<char>)
    ensures
        match parts_index(table, id) {
            Some(i) => 0 <= i < table.len() && table[i].id@ == id && forall|k: int|
                0 <= k < i ==> (#[trigger] table[k]).id@ != id,
            None => forall|k: int| 0 <= k < table.len() ==> (#[trigger] table[k]).id@ != id,
        },
    decreases table.len(),
{
    if table.len() > 0 {
        let front = table.drop_last();
        lemma_parts_index(front, id);
        assert forall|k: int| 0 <= k < front.len() implies front[k] == #[trigger] table[k] by {}
    }
}

/// What is read back of a session that was asked for is what the rows say of it.
pub proof fn law_parts_are_found(
    table: Seq<SessionParts>,
    ids: Seq<Seq<char>>,
    rows: Seq<JsonTree>,
    id: Seq<char>,
)
    requires
        parts_table(table, ids, rows),
        ids.contains(id),
    ensures
        table_chat(table, id) == chat_of(rows, id),
        table_tools(table, id) == tools_of(rows, id),
{
    lemma_parts_index(table, id);
    let i = ids.index_of(id);
    assert(table[i].id@ == id);
}

/// The position of the session `id` in a table, where it is there.
pub fn find_parts(table: &Vec<SessionParts>, id: &str) -> (r: Option<usize>)
    ensures
        match r {
            Some(i) => parts_index(table@, id@) == Some(i as int) && i < table@.len(),
            None => parts_index(table@, id@) is None,
        },
{
    proof {
        lemma_parts_index(table@, id@);
    }
    let mut i: usize = 0;
    while i < table.len()
        invariant
            i <= table@.len(),
            forall|k: int| 0 <= k < i ==> (#[trigger] table@[k]).id@ != id@,
            match parts_index(table@, id@) {
                Some(i) => 0 <= i < table@.len() && table@[i].id@ == id@ && forall|k: int|
                    0 <= k < i ==> (#[trigger] table@[k]).id@ != id@,
                None => forall|k: int| 0 <= k < table@.len() ==> (#[trigger] table@[k]).id@ != id@,
            },
        decreases table@.len() - i,
    {
        if same(table[i].id.as_str(), id) {
            return Some(i);
        }
        i += 1;
    }
    None
}

/// A part with text that is not blank adds a chat line: of the user where the message is
/// the user's, and else of the assistant, cleaned and without secrets.
pub proof fn law_text_becomes_a_chat_line(part: JsonTree, role: Seq<char>, text: Seq<char>)
    requires
        part.field("type"@) == JsonTree::Str("text"@) || part.field("type"@) == JsonTree::Str(
            "reasoning"@,
        ),
    ensures
        part.field("text"@) == JsonTree::Str(text) && trimmed(text).len() > 0 ==> {
            &&& part_of(part, role) matches PartModel::Chat(m)
            &&& m.text == redacted(sanitized(text))
            &&& role == "user"@ ==> m.role == ChatRole::User
            &&& role != "user"@ ==> m.role == ChatRole::Assistant
        },
        part.field("text"@) == JsonTree::Str(text) && trimmed(text).len() == 0 ==> part_of(part, role)
            == PartModel::Nothing,
        !(part.field("text"@) is Str) ==> part_of(part, role) == PartModel::Nothing,
{
}

/// A part of a tool with a name adds a tool call, with the time from its start to its end.
pub proof fn law_tool_becomes_a_tool_call(part: JsonTree, role: Seq<char>)
    requires
        part.field("type"@) == JsonTree::Str("tool"@),
    ensures
        ({
            let name = part.field("tool"@).text_or_empty();
            let state = part.field("state"@);
            let start = state.field("time"@).field("start"@).unsigned_or_zero();
            let end = state.field("time"@).field("end"@).unsigned_or_zero();
            &&& name.len() == 0 ==> part_of(part, role) == PartModel::Nothing
            &&& name.len() > 0 ==> {
                &&& part_of(part, role) matches PartModel::Tool(t)
                &&& t.name == name
                &&& t.arg == tool_arg(state.field("input"@))
                &&& start <= end ==> start + t.duration_ms == end
                &&& start > end ==> t.duration_ms == 0
            }
        }),
{
    reveal_strlit("tool");
    reveal_strlit("text");
    reveal_strlit("reasoning");
    assert("tool"@[1] != "text"@[1]);
    assert("tool"@.len() != "reasoning"@.len());
}

/// A part of any other kind adds nothing.
pub proof fn law_other_parts_add_nothing(part: JsonTree, role: Seq<char>)
    requires
        part.field("type"@) != JsonTree::Str("text"@),
        part.field("type"@) != JsonTree::Str("reasoning"@),
        part.field("type"@) != JsonTree::Str("tool"@),
    ensures
        part_of(part, role) == PartModel::Nothing,
{
    reveal_strlit("text");
    reveal_strlit("reasoning");
    reveal_strlit("tool");
    let kind = part.field("type"@).text_or_empty();
    assert(kind != "text"@ && kind != "reasoning"@ && kind != "tool"@);
}

/// The argument that is shown of a tool call: the command before the file, the file before
/// the path, the path before the pattern, the pattern before the description, and any of
/// them before the first member.
pub proof fn law_most_telling_argument_is_shown(input: JsonTree, text: Seq<char>)
    ensures
        ({
            let command = input.field("command"@);
            let file = input.field("filePath"@);
            let path = input.field("path"@);
            let pattern = input.field("pattern"@);
            let desc = input.field("description"@);
            let str = JsonTree::Str(text);
            &&& command == str ==> tool_arg(input) == text
            &&& !(command is Str) && file == str ==> tool_arg(input) == text
            &&& !(command is Str) && !(file is Str) && path == str ==> tool_arg(input) == text
            &&& !(command is Str) && !(file is Str) && !(path is Str) && pattern == str ==> tool_arg(
                input,
            ) == text
            &&& !(command is Str) && !(file is Str) && !(path is Str) && !(pattern is Str) && desc
                == str ==> tool_arg(input) == text
            &&& !(command is Str) && !(file is Str) && !(path is Str) && !(pattern is Str) && !(
            desc is Str) ==> {
                &&& input matches JsonTree::Object(fields) ==> {
                    &&& fields.len() > 0 && fields[0].1 == str ==> tool_arg(input) == text
                    &&& fields.len() > 0 && !(fields[0].1 is Str) ==> tool_arg(input).len() == 0
                    &&& fields.len() == 0 ==> tool_arg(input).len() == 0
                }
                &&& !(input is Object) ==> tool_arg(input).len() == 0
            }
        }),
{
}

/// The rows of a session add to it one after the other; rows of other sessions, and rows
/// whose data are no JSON, add nothing.
pub proof fn law_rows_add_to_their_session(rows: Seq<JsonTree>, row: JsonTree, id: Seq<char>)
    ensures
        chat_of(Seq::empty(), id).len() == 0,
        tools_of(Seq::empty(), id).len() == 0,
        row.field("session_id"@).text_or_empty() != id || parsed_json(
            row.field("part_data"@).text_or_empty(),
        ) is None ==> chat_of(rows.push(row), id) == chat_of(rows, id) && tools_of(
            rows.push(row),
            id,
        ) == tools_of(rows, id),
        row.field("session_id"@).text_or_empty() == id ==> match parsed_json(
            row.field("part_data"@).text_or_empty(),
        ) {
            Some(part) => match part_of(part, row.field("role"@).text_or_empty()) {
                PartModel::Chat(m) => chat_of(rows.push(row), id) == chat_of(rows, id).push(m)
                    && tools_of(rows.push(row), id) == tools_of(rows, id),
                PartModel::Tool(t) => tools_of(rows.push(row), id) == tools_of(rows, id).push(t)
                    && chat_of(rows.push(row), id) == chat_of(rows, id),
                PartModel::Nothing => chat_of(rows.push(row), id) == chat_of(rows, id) && tools_of(
                    rows.push(row),
                    id,
                ) == tools_of(rows, id),
            },
            None => true,
        },
{
    assert(rows.push(row).drop_last() =~= rows);
}

} // verus!
