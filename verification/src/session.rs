//! Conversation state and JSONL persistence.
//!
//! History is provider-agnostic [`Message`]s, so the active model can change
//! between turns and the next adapter just re-serialises the same history.
//! Sessions persist as one JSON message per line under `.ade/sessions/`.
use vstd::prelude::*;

use crate::error::{outcome, Error, ErrorModel};
use crate::json::{array, json_read, json_text, plain_within, Json, JsonModel, Members};
use crate::paths::{join, joined};
use crate::provider::types::{Message, MessageModel, Role, ToolCall, ToolCallModel};
use crate::text::{
    cat3, lemma_index_of_char_unique, lemma_trim_line, lemma_views_push, lines, lines_of,
    push_char, same, strip_cr, trim, trim_of, views,
};

verus! {

#[derive(Debug)]
pub struct Session {
    pub messages: Vec<Message>,
}

impl View for Session {
    type V = Seq<MessageModel>;

    open spec fn view(&self) -> Seq<MessageModel> {
        views(self.messages@)
    }
}

impl Clone for Session {
    fn clone(&self) -> (r: Session)
        ensures
            r@ == self@,
    {
        let r = Session { messages: self.messages.clone() };
        assert(r@ =~= self@);
        r
    }
}

impl Default for Session {
    fn default() -> (r: Session)
        ensures
            r@ == Seq::<MessageModel>::empty(),
    {
        let r = Session { messages: Vec::new() };
        assert(r@ =~= Seq::empty());
        r
    }
}

/// The name of a role in a session file.
pub open spec fn role_name_of(role: Role) -> Seq<char> {
    match role {
        Role::System => "system"@,
        Role::User => "user"@,
        Role::Assistant => "assistant"@,
        Role::Tool => "tool"@,
    }
}

/// A JSON value names `s`: it is that string, or an object that has nothing but a null
/// under it.
pub open spec fn names(v: JsonModel, s: Seq<char>) -> bool {
    v == JsonModel::Str(s) || v == JsonModel::Obj(map![s => JsonModel::Null])
}

/// The role that a JSON value names.
pub open spec fn role_of(v: JsonModel) -> Option<Role> {
    if names(v, "system"@) {
        Some(Role::System)
    } else if names(v, "user"@) {
        Some(Role::User)
    } else if names(v, "assistant"@) {
        Some(Role::Assistant)
    } else if names(v, "tool"@) {
        Some(Role::Tool)
    } else {
        None
    }
}

/// A tool call as JSON.
pub open spec fn call_json_of(c: ToolCallModel) -> JsonModel {
    JsonModel::Obj(
        map![
            "id"@ => JsonModel::Str(c.id),
            "name"@ => JsonModel::Str(c.name),
            "arguments"@ => c.arguments,
        ],
    )
}

/// A message as JSON. It has members for its tool calls and for the call that it
/// answers only where it has any.
pub open spec fn message_json_of(m: MessageModel) -> JsonModel {
    let plain = map![
        "role"@ => JsonModel::Str(role_name_of(m.role)),
        "content"@ => JsonModel::Str(m.content),
    ];
    let with_calls = if m.tool_calls.len() > 0 {
        plain.insert(
            "tool_calls"@,
            JsonModel::Arr(Seq::new(m.tool_calls.len(), |i: int| call_json_of(m.tool_calls[i]))),
        )
    } else {
        plain
    };
    JsonModel::Obj(
        match m.tool_call_id {
            Some(id) => with_calls.insert("tool_call_id"@, JsonModel::Str(id)),
            None => with_calls,
        },
    )
}

fn role_name(role: Role) -> (r: String)
    ensures
        r@ == role_name_of(role),
{
    match role {
        Role::System => "system".to_owned(),
        Role::User => "user".to_owned(),
        Role::Assistant => "assistant".to_owned(),
        Role::Tool => "tool".to_owned(),
    }
}

/// A message as JSON.
pub fn message_json(m: &Message) -> (r: Json)
    ensures
        r@ == message_json_of(m@),
{
    let mut o = Members::new();
    o.put_text("role", role_name(m.role).as_str());
    o.put_text("content", m.content.as_str());
    if m.tool_calls.len() > 0 {
        let mut calls: Vec<Json> = Vec::new();
        let mut i: usize = 0;
        while i < m.tool_calls.len()
            invariant
                i <= m.tool_calls@.len(),
                calls@.len() == i,
                forall|k: int|
                    0 <= k < i ==> (#[trigger] calls@[k])@ == call_json_of(m.tool_calls@[k]@),
            decreases m.tool_calls@.len() - i,
        {
            let mut c = Members::new();
            c.put_text("id", m.tool_calls[i].id.as_str());
            c.put_text("name", m.tool_calls[i].name.as_str());
            c.put("arguments", m.tool_calls[i].arguments.clone());
            calls.push(c.done());
            i += 1;
        }
        assert(views(calls@) =~= Seq::new(
            m@.tool_calls.len(),
            |i: int| call_json_of(m@.tool_calls[i]),
        ));
        o.put("tool_calls", array(calls));
    }
    if let Some(id) = &m.tool_call_id {
        o.put_text("tool_call_id", id.as_str());
    }
    o.done()
}

/// What is said of a member that is not there.
pub open spec fn missing_field(key: Seq<char>) -> Seq<char> {
    "missing field `"@ + key + "`"@
}

/// What is said of a member that holds something else than it should.
pub open spec fn invalid_field(key: Seq<char>) -> Seq<char> {
    "invalid field `"@ + key + "`"@
}

/// The part of a record under `key`, or at position `i` where the record is written as
/// an array.
pub open spec fn part(v: JsonModel, key: Seq<char>, i: int) -> Option<JsonModel> {
    match v {
        JsonModel::Arr(s) => if i < s.len() {
            Some(s[i])
        } else {
            None
        },
        _ => v.get(key),
    }
}

/// An array of more than `n` items.
pub open spec fn is_longer(v: JsonModel, n: int) -> bool {
    v matches JsonModel::Arr(s) && s.len() > n
}

/// The string in a part of a record.
pub open spec fn text_part(v: JsonModel, key: Seq<char>, i: int) -> Result<Seq<char>, Seq<char>> {
    match part(v, key, i) {
        Some(JsonModel::Str(s)) => Ok(s),
        Some(_) => Err(invalid_field(key)),
        None => Err(missing_field(key)),
    }
}

/// The tool call that a JSON value holds, or why it holds none. Its parts are its id, its
/// name and its arguments.
pub open spec fn call_of(v: JsonModel) -> Result<ToolCallModel, Seq<char>> {
    if is_longer(v, 3) {
        Err("too many items in a tool call"@)
    } else {
        match text_part(v, "id"@, 0) {
            Ok(id) => match text_part(v, "name"@, 1) {
                Ok(name) => match part(v, "arguments"@, 2) {
                    Some(arguments) => Ok(ToolCallModel { id, name, arguments }),
                    None => Err(missing_field("arguments"@)),
                },
                Err(e) => Err(e),
            },
            Err(e) => Err(e),
        }
    }
}

/// The tool calls that JSON values hold: the first that holds none is the error.
pub open spec fn calls_of(s: Seq<JsonModel>) -> Result<Seq<ToolCallModel>, Seq<char>>
    decreases s.len(),
{
    if s.len() == 0 {
        Ok(Seq::empty())
    } else {
        match calls_of(s.drop_last()) {
            Ok(before) => match call_of(s.last()) {
                Ok(c) => Ok(before.push(c)),
                Err(e) => Err(e),
            },
            Err(e) => Err(e),
        }
    }
}

/// The role of a message. Every message has one.
pub open spec fn role_part(v: JsonModel) -> Result<Role, Seq<char>> {
    match part(v, "role"@, 0) {
        Some(p) => match role_of(p) {
            Some(role) => Ok(role),
            None => Err(invalid_field("role"@)),
        },
        None => Err(missing_field("role"@)),
    }
}

/// The content of a message, empty where there is no such part.
pub open spec fn content_part(v: JsonModel) -> Result<Seq<char>, Seq<char>> {
    match part(v, "content"@, 1) {
        Some(JsonModel::Str(s)) => Ok(s),
        Some(_) => Err(invalid_field("content"@)),
        None => Ok(Seq::empty()),
    }
}

/// The tool calls of a message, none where there is no such part.
pub open spec fn calls_part(v: JsonModel) -> Result<Seq<ToolCallModel>, Seq<char>> {
    match part(v, "tool_calls"@, 2) {
        Some(JsonModel::Arr(s)) => calls_of(s),
        Some(_) => Err(invalid_field("tool_calls"@)),
        None => Ok(Seq::empty()),
    }
}

/// The call that a message answers, none where there is no such part or it is null.
pub open spec fn id_part(v: JsonModel) -> Result<Option<Seq<char>>, Seq<char>> {
    match part(v, "tool_call_id"@, 3) {
        Some(JsonModel::Str(s)) => Ok(Some(s)),
        Some(JsonModel::Null) => Ok(None),
        Some(_) => Err(invalid_field("tool_call_id"@)),
        None => Ok(None),
    }
}

/// The message that a JSON value holds, or why it holds none. Its parts are its role, its
/// content, its tool calls and the call that it answers.
pub open spec fn message_of(v: JsonModel) -> Result<MessageModel, Seq<char>> {
    if is_longer(v, 4) {
        Err("too many items in a message"@)
    } else {
        match role_part(v) {
            Ok(role) => match content_part(v) {
                Ok(content) => match calls_part(v) {
                    Ok(tool_calls) => match id_part(v) {
                        Ok(tool_call_id) => Ok(
                            MessageModel { role, content, tool_calls, tool_call_id },
                        ),
                        Err(e) => Err(e),
                    },
                    Err(e) => Err(e),
                },
                Err(e) => Err(e),
            },
            Err(e) => Err(e),
        }
    }
}

fn missing(key: &str) -> (r: String)
    ensures
        r@ == missing_field(key@),
{
    cat3("missing field `", key, "`")
}

fn invalid(key: &str) -> (r: String)
    ensures
        r@ == invalid_field(key@),
{
    cat3("invalid field `", key, "`")
}

/// The model of what came of reading a part of a message.
pub open spec fn read_view<T: View>(r: Result<T, String>) -> Result<T::V, Seq<char>> {
    match r {
        Ok(v) => Ok(v@),
        Err(e) => Err(e@),
    }
}

fn part_of<'a>(v: &'a Json, key: &str, i: usize) -> (r: Option<&'a Json>)
    ensures
        match r {
            Some(p) => part(v@, key@, i as int) == Some(p@),
            None => part(v@, key@, i as int) is None,
        },
{
    match v.items() {
        Some(items) => if i < items.len() {
            Some(&items[i])
        } else {
            None
        },
        None => v.get(key),
    }
}

fn longer(v: &Json, n: usize) -> (r: bool)
    ensures
        r == is_longer(v@, n as int),
{
    match v.items() {
        Some(items) => items.len() > n,
        None => false,
    }
}

fn text_from(v: &Json, key: &str, i: usize) -> (r: Result<String, String>)
    ensures
        read_view(r) == text_part(v@, key@, i as int),
{
    match part_of(v, key, i) {
        Some(p) => match p.text() {
            Some(s) => Ok(s.to_owned()),
            None => Err(invalid(key)),
        },
        None => Err(missing(key)),
    }
}

fn call_from(v: &Json) -> (r: Result<ToolCall, String>)
    ensures
        read_view(r) == call_of(v@),
{
    if longer(v, 3) {
        return Err("too many items in a tool call".to_owned());
    }
    let id = match text_from(v, "id", 0) {
        Ok(id) => id,
        Err(e) => return Err(e),
    };
    let name = match text_from(v, "name", 1) {
        Ok(name) => name,
        Err(e) => return Err(e),
    };
    match part_of(v, "arguments", 2) {
        Some(arguments) => Ok(ToolCall { id, name, arguments: arguments.clone() }),
        None => Err(missing("arguments")),
    }
}

proof fn lemma_call_error_stays(s: Seq<JsonModel>, n: int)
    requires
        0 <= n <= s.len(),
        calls_of(s.take(n)) is Err,
    ensures
        calls_of(s) == calls_of(s.take(n)),
    decreases s.len() - n,
{
    if n == s.len() {
        assert(s.take(n) =~= s);
    } else {
        assert(s.take(n + 1).drop_last() =~= s.take(n));
        lemma_call_error_stays(s, n + 1);
    }
}

fn calls_from(v: &Json) -> (r: Result<Vec<ToolCall>, String>)
    ensures
        match r {
            Ok(calls) => calls_part(v@) == Ok::<Seq<ToolCallModel>, Seq<char>>(views(calls@)),
            Err(e) => calls_part(v@) == Err::<Seq<ToolCallModel>, Seq<char>>(e@),
        },
{
    broadcast use lemma_views_push;

    let mut calls: Vec<ToolCall> = Vec::new();
    assert(views(calls@) =~= Seq::empty());
    let p = match part_of(v, "tool_calls", 2) {
        Some(p) => p,
        None => return Ok(calls),
    };
    let items = match p.items() {
        Some(items) => items,
        None => return Err(invalid("tool_calls")),
    };
    let ghost all = views(items@);
    let mut i: usize = 0;
    assert(all.take(0) =~= Seq::empty());
    while i < items.len()
        invariant
            all == views(items@),
            calls_part(v@) == calls_of(all),
            i <= items@.len(),
            calls_of(all.take(i as int)) == Ok::<Seq<ToolCallModel>, Seq<char>>(views(calls@)),
        decreases items@.len() - i,
    {
        broadcast use lemma_views_push;

        assert(all.take(i + 1).drop_last() =~= all.take(i as int));
        assert(all.take(i + 1).last() == items@[i as int]@);
        match call_from(&items[i]) {
            Ok(c) => calls.push(c),
            Err(e) => {
                proof {
                    lemma_call_error_stays(all, i + 1);
                }
                return Err(e);
            },
        }
        i += 1;
    }
    assert(all.take(i as int) =~= all);
    Ok(calls)
}

fn role_from(v: &Json) -> (r: Result<Role, String>)
    ensures
        match r {
            Ok(role) => role_part(v@) == Ok::<Role, Seq<char>>(role),
            Err(e) => role_part(v@) == Err::<Role, Seq<char>>(e@),
        },
{
    let p = match part_of(v, "role", 0) {
        Some(p) => p,
        None => return Err(missing("role")),
    };
    if is_named(p, "system") {
        Ok(Role::System)
    } else if is_named(p, "user") {
        Ok(Role::User)
    } else if is_named(p, "assistant") {
        Ok(Role::Assistant)
    } else if is_named(p, "tool") {
        Ok(Role::Tool)
    } else {
        Err(invalid("role"))
    }
}

fn is_named(v: &Json, s: &str) -> (r: bool)
    ensures
        r == names(v@, s@),
{
    match v.text() {
        Some(text) => same(text, s),
        None => match v.only(s) {
            Some(member) => {
                assert(map![s@ => member@][s@] == member@);
                member.is_null()
            },
            None => false,
        },
    }
}

/// The message that a JSON value holds, or why it holds none.
pub fn message_from(v: &Json) -> (r: Result<Message, String>)
    ensures
        read_view(r) == message_of(v@),
{
    if longer(v, 4) {
        return Err("too many items in a message".to_owned());
    }
    let role = match role_from(v) {
        Ok(role) => role,
        Err(e) => return Err(e),
    };
    let content = match part_of(v, "content", 1) {
        Some(p) => match p.text() {
            Some(s) => s.to_owned(),
            None => return Err(invalid("content")),
        },
        None => String::new(),
    };
    let tool_calls = match calls_from(v) {
        Ok(calls) => calls,
        Err(e) => return Err(e),
    };
    let tool_call_id = match part_of(v, "tool_call_id", 3) {
        Some(p) => match p.text() {
            Some(s) => Some(s.to_owned()),
            None => if p.is_null() {
                None
            } else {
                return Err(invalid("tool_call_id"));
            },
        },
        None => None,
    };
    Ok(Message { role, content, tool_calls, tool_call_id })
}

/// A session file: each line of it, and a line feed behind each.
pub open spec fn file_of(lines: Seq<Seq<char>>) -> Seq<char>
    decreases lines.len(),
{
    if lines.len() == 0 {
        Seq::empty()
    } else {
        file_of(lines.drop_last()) + lines.last().push('\n')
    }
}

/// The lines of a session file that hold messages: those that are not blank.
pub open spec fn message_lines(lines: Seq<Seq<char>>) -> Seq<Seq<char>>
    decreases lines.len(),
{
    if lines.len() == 0 {
        Seq::empty()
    } else if trim_of(lines.last()).len() == 0 {
        message_lines(lines.drop_last())
    } else {
        message_lines(lines.drop_last()).push(lines.last())
    }
}

/// What came of reading a session file.
#[derive(Debug)]
pub enum SessionRead {
    /// There is no such file.
    Missing,
    /// The file could not be read; the message of the failure.
    Unreadable(String),
    Text(String),
}

/// The messages that were read from the lines of a session: the first line that
/// holds none is the error.
pub open spec fn all_read(parsed: Seq<Result<MessageModel, Seq<char>>>) -> Result<
    Seq<MessageModel>,
    ErrorModel,
>
    decreases parsed.len(),
{
    if parsed.len() == 0 {
        Ok(Seq::empty())
    } else {
        match all_read(parsed.drop_last()) {
            Ok(before) => match parsed.last() {
                Ok(m) => Ok(before.push(m)),
                Err(e) => Err(ErrorModel::Json(e)),
            },
            Err(e) => Err(e),
        }
    }
}

/// The message on a line of a session file, or why there is none.
pub open spec fn line_message(line: Seq<char>) -> Result<MessageModel, Seq<char>> {
    match json_read(line) {
        Ok(v) => message_of(v),
        Err(e) => Err(e),
    }
}

/// The messages that a session file holds, one per line that is not blank.
pub open spec fn session_of(text: Seq<char>) -> Result<Seq<MessageModel>, ErrorModel> {
    let lines = message_lines(lines_of(text));
    all_read(Seq::new(lines.len(), |i: int| line_message(lines[i])))
}

/// The session that was read. A missing file yields an empty one.
pub open spec fn loaded(read: SessionRead) -> Result<Seq<MessageModel>, ErrorModel> {
    match read {
        SessionRead::Missing => Ok(Seq::empty()),
        SessionRead::Unreadable(e) => Err(ErrorModel::Io(e@)),
        SessionRead::Text(text) => session_of(text@),
    }
}

/// The JSON texts of messages.
pub open spec fn texts_of(messages: Seq<MessageModel>) -> Seq<Seq<char>> {
    Seq::new(messages.len(), |i: int| json_text(message_json_of(messages[i])))
}

/// The arguments of all tool calls hold no fraction and are not nested too deeply to be
/// read back.
pub open spec fn are_plain(messages: Seq<MessageModel>) -> bool {
    forall|i: int, j: int|
        0 <= i < messages.len() && 0 <= j < messages[i].tool_calls.len() ==> plain_within(
            (#[trigger] messages[i].tool_calls[j]).arguments,
            124,
        )
}

fn read_line(line: &str) -> (r: Result<Message, String>)
    ensures
        read_view(r) == line_message(line@),
{
    match Json::parse(line) {
        Ok(v) => message_from(&v),
        Err(e) => Err(e),
    }
}

impl Session {
    pub fn new() -> (r: Session)
        ensures
            r@ == Seq::<MessageModel>::empty(),
    {
        Session::default()
    }

    pub fn push(&mut self, m: Message)
        ensures
            final(self)@ == old(self)@.push(m@),
    {
        broadcast use lemma_views_push;

        self.messages.push(m);
    }

    /// Default session directory for a project.
    pub open spec fn dir_of(project_root: Seq<char>) -> Seq<char> {
        joined(joined(project_root, ".ade"@), "sessions"@)
    }

    /// Default session directory for a project.
    pub fn dir(project_root: &str) -> (r: String)
        ensures
            r@ == Session::dir_of(project_root@),
    {
        join(join(project_root, ".ade").as_str(), "sessions")
    }

    /// The content of the session's file. Sessions are small: a save rewrites the whole
    /// file, one JSON line each. Loading the file gives the session back, where the
    /// arguments of its tool calls hold no fraction and are not nested too deeply.
    pub fn save(&self) -> (r: String)
        ensures
            r@ == file_of(texts_of(self@)),
            are_plain(self@) ==> session_of(r@) == Ok::<Seq<MessageModel>, ErrorModel>(self@),
    {
        let ghost texts = texts_of(self@);
        let mut out = String::new();
        let mut i: usize = 0;
        assert(texts.take(0) =~= Seq::empty());
        while i < self.messages.len()
            invariant
                texts == texts_of(self@),
                i <= self.messages@.len(),
                out@ == file_of(texts.take(i as int)),
                forall|k: int| 0 <= k < i ==> is_record(#[trigger] texts[k]),
                are_plain(self@) ==> forall|k: int|
                    0 <= k < i ==> line_message(#[trigger] texts[k]) == Ok::<
                        MessageModel,
                        Seq<char>,
                    >(self@[k]),
            decreases self.messages@.len() - i,
        {
            assert(texts.take(i + 1).drop_last() =~= texts.take(i as int));
            let ghost before = out@;
            let line = message_json(&self.messages[i]).render();
            assert(self@[i as int] == self.messages@[i as int]@);
            proof {
                lemma_trim_line(line@);
                law_message_reads_back(self@[i as int]);
                if are_plain(self@) {
                    lemma_plain_message(self@[i as int]);
                }
            }
            out.append(line.as_str());
            push_char(&mut out, '\n');
            assert(out@ =~= before + texts[i as int].push('\n'));
            i += 1;
        }
        assert(texts.take(i as int) =~= texts);
        proof {
            if are_plain(self@) {
                lemma_session_reads_back(self@);
            }
        }
        out
    }

    /// The session, from what came of reading its file. A missing file yields an empty
    /// session.
    pub fn load(read: SessionRead) -> (r: Result<Session, Error>)
        ensures
            outcome(r) == loaded(read),
    {
        let text = match read {
            SessionRead::Missing => return Ok(Session::new()),
            SessionRead::Unreadable(e) => return Err(Error::Io(e)),
            SessionRead::Text(text) => text,
        };
        let split = lines(text.as_str());
        let ghost all = views(split@);
        let ghost found = message_lines(all);
        let ghost parsed = Seq::new(found.len(), |i: int| line_message(found[i]));
        let mut s = Session::new();
        let mut i: usize = 0;
        assert(all.take(0) =~= Seq::empty());
        assert(parsed.take(0) =~= Seq::empty());
        while i < split.len()
            invariant
                all == views(split@),
                found == message_lines(all),
                parsed == Seq::new(found.len(), |i: int| line_message(found[i])),
                loaded(read) == all_read(parsed),
                i <= split@.len(),
                message_lines(all.take(i as int)).len() <= found.len(),
                message_lines(all.take(i as int)) == found.take(
                    message_lines(all.take(i as int)).len() as int,
                ),
                all_read(parsed.take(message_lines(all.take(i as int)).len() as int)) == Ok::<
                    Seq<MessageModel>,
                    ErrorModel,
                >(s@),
            decreases split@.len() - i,
        {
            let ghost n = message_lines(all.take(i as int)).len() as int;
            assert(all.take(i + 1).drop_last() =~= all.take(i as int));
            assert(all.take(i + 1).last() == split@[i as int]@);
            proof {
                lemma_message_lines_prefix(all, i + 1);
            }
            if !trim(split[i].as_str()).as_str().is_empty() {
                assert(found[n] == split@[i as int]@) by {
                    assert(found.take(n + 1)[n] == found[n]);
                }
                assert(parsed.take(n + 1).drop_last() =~= parsed.take(n));
                match read_line(split[i].as_str()) {
                    Ok(m) => s.push(m),
                    Err(e) => {
                        proof {
                            lemma_error_stays(parsed, n + 1);
                        }
                        return Err(Error::Json(e));
                    },
                }
            }
            i += 1;
        }
        assert(all.take(i as int) =~= all);
        assert(parsed.take(parsed.len() as int) =~= parsed);
        Ok(s)
    }
}

/// The lines of the front of a file come first.
proof fn lemma_message_lines_prefix(lines: Seq<Seq<char>>, n: int)
    requires
        0 <= n <= lines.len(),
    ensures
        message_lines(lines.take(n)).len() <= message_lines(lines).len(),
        message_lines(lines.take(n)) == message_lines(lines).take(
            message_lines(lines.take(n)).len() as int,
        ),
    decreases lines.len(),
{
    if n == lines.len() {
        assert(lines.take(n) =~= lines);
        assert(message_lines(lines).take(message_lines(lines).len() as int) =~= message_lines(
            lines,
        ));
    } else {
        let front = lines.drop_last();
        lemma_message_lines_prefix(front, n);
        assert(front.take(n) =~= lines.take(n));
        let k = message_lines(lines.take(n)).len() as int;
        assert(message_lines(lines).take(k) =~= message_lines(front).take(k));
    }
}

proof fn lemma_error_stays(parsed: Seq<Result<MessageModel, Seq<char>>>, n: int)
    requires
        0 <= n <= parsed.len(),
        all_read(parsed.take(n)) is Err,
    ensures
        all_read(parsed) == all_read(parsed.take(n)),
    decreases parsed.len() - n,
{
    if n == parsed.len() {
        assert(parsed.take(n) =~= parsed);
    } else {
        assert(parsed.take(n + 1).drop_last() =~= parsed.take(n));
        lemma_error_stays(parsed, n + 1);
    }
}

/// A line that can stand in a session file: it is not blank, holds no line feed
/// and does not end with a carriage return.
pub open spec fn is_record(line: Seq<char>) -> bool {
    &&& trim_of(line).len() > 0
    &&& forall|i: int| 0 <= i < line.len() ==> line[i] != '\n'
    &&& line.last() != '\r'
}

/// What is saved is what is loaded: the lines of a session file are the JSON texts
/// it was written from, in order.
pub proof fn law_lines_round_trip(texts: Seq<Seq<char>>)
    requires
        forall|i: int| 0 <= i < texts.len() ==> is_record(#[trigger] texts[i]),
    ensures
        message_lines(lines_of(file_of(texts))) == texts,
{
    lemma_file_lines(texts);
    lemma_all_records(texts);
}

proof fn lemma_all_records(texts: Seq<Seq<char>>)
    requires
        forall|i: int| 0 <= i < texts.len() ==> is_record(#[trigger] texts[i]),
    ensures
        message_lines(texts) == texts,
    decreases texts.len(),
{
    if texts.len() > 0 {
        assert forall|i: int| 0 <= i < texts.drop_last().len() implies is_record(
            #[trigger] texts.drop_last()[i],
        ) by {
            assert(texts.drop_last()[i] == texts[i]);
        }
        lemma_all_records(texts.drop_last());
        assert(is_record(texts[texts.len() - 1]));
        assert(message_lines(texts) =~= texts);
    } else {
        assert(message_lines(texts) =~= texts);
    }
}

proof fn lemma_file_lines(texts: Seq<Seq<char>>)
    requires
        forall|i: int| 0 <= i < texts.len() ==> is_record(#[trigger] texts[i]),
    ensures
        lines_of(file_of(texts)) == texts,
    decreases texts.len(),
{
    if texts.len() == 0 {
        assert(lines_of(file_of(texts)) =~= texts);
    } else {
        let rest = texts.skip(1);
        assert forall|i: int| 0 <= i < rest.len() implies is_record(#[trigger] rest[i]) by {
            assert(rest[i] == texts[i + 1]);
        }
        lemma_file_lines(rest);
        lemma_file_front(texts);
        let file = file_of(texts);
        let first = texts[0];
        let n = first.len() as int;
        assert(is_record(first));
        assert(file[n] == '\n');
        assert forall|j: int| 0 <= j < n implies file[j] != '\n' by {
            assert(file[j] == first[j]);
        }
        lemma_index_of_char_unique(file, '\n', n);
        assert(file.take(n) =~= first);
        assert(file.skip(n + 1) =~= file_of(rest));
        assert(strip_cr(first) == first);
        assert(seq![first] + rest =~= texts);
    }
}

proof fn lemma_file_front(texts: Seq<Seq<char>>)
    requires
        texts.len() > 0,
    ensures
        file_of(texts) == texts[0].push('\n') + file_of(texts.skip(1)),
    decreases texts.len(),
{
    if texts.len() == 1 {
        assert(texts.drop_last() =~= Seq::empty());
        assert(texts.skip(1) =~= Seq::empty());
        assert(file_of(Seq::empty()) == Seq::<char>::empty());
        assert(file_of(texts) =~= texts[0].push('\n') + file_of(texts.skip(1)));
    } else {
        lemma_file_front(texts.drop_last());
        assert(texts.drop_last().skip(1) =~= texts.skip(1).drop_last());
        assert(file_of(texts) =~= texts[0].push('\n') + file_of(texts.skip(1)));
    }
}

/// Where every line holds a message, the session holds them all, in order.
pub proof fn law_load_keeps_all(messages: Seq<MessageModel>)
    ensures
        all_read(
            Seq::new(messages.len(), |i: int| Ok::<MessageModel, Seq<char>>(messages[i])),
        ) == Ok::<Seq<MessageModel>, ErrorModel>(messages),
    decreases messages.len(),
{
    let s = Seq::new(messages.len(), |i: int| Ok::<MessageModel, Seq<char>>(messages[i]));
    if messages.len() > 0 {
        let before = messages.drop_last();
        let t = Seq::new(before.len(), |i: int| Ok::<MessageModel, Seq<char>>(before[i]));
        law_load_keeps_all(before);
        assert(s.drop_last() =~= t);
        assert(before.push(messages.last()) =~= messages);
    } else {
        assert(all_read(s)->Ok_0 =~= messages);
    }
}

/// A message reads back from its JSON: every role, any content, its tool calls with
/// their arguments, and the call that it answers.
pub proof fn law_message_reads_back(m: MessageModel)
    ensures
        message_of(message_json_of(m)) == Ok::<MessageModel, Seq<char>>(m),
{
    reveal_strlit("role");
    reveal_strlit("content");
    reveal_strlit("tool_calls");
    reveal_strlit("tool_call_id");
    reveal_strlit("system");
    reveal_strlit("user");
    reveal_strlit("assistant");
    reveal_strlit("tool");
    assert("role"@.len() == 4 && "content"@.len() == 7);
    assert("tool_calls"@.len() == 10 && "tool_call_id"@.len() == 12);
    assert("system"@.len() == 6 && "user"@.len() == 4 && "assistant"@.len() == 9);
    assert("tool"@.len() == 4 && "user"@[0] != "tool"@[0]);
    let v = message_json_of(m);
    assert(role_of(JsonModel::Str(role_name_of(m.role))) == Some(m.role));
    assert(v.get("role"@) == Some(JsonModel::Str(role_name_of(m.role))));
    assert(v.get("content"@) == Some(JsonModel::Str(m.content)));
    let calls = Seq::new(m.tool_calls.len(), |i: int| call_json_of(m.tool_calls[i]));
    if m.tool_calls.len() > 0 {
        assert(v.get("tool_calls"@) == Some(JsonModel::Arr(calls)));
        lemma_calls_read_back(m.tool_calls);
    } else {
        assert(v.get("tool_calls"@) is None);
        assert(m.tool_calls =~= Seq::empty());
    }
    match m.tool_call_id {
        Some(id) => assert(v.get("tool_call_id"@) == Some(JsonModel::Str(id))),
        None => assert(v.get("tool_call_id"@) is None),
    }
}

proof fn lemma_calls_read_back(calls: Seq<ToolCallModel>)
    ensures
        calls_of(Seq::new(calls.len(), |i: int| call_json_of(calls[i]))) == Ok::<
            Seq<ToolCallModel>,
            Seq<char>,
        >(calls),
    decreases calls.len(),
{
    let s = Seq::new(calls.len(), |i: int| call_json_of(calls[i]));
    if calls.len() > 0 {
        let front = calls.drop_last();
        lemma_calls_read_back(front);
        assert(s.drop_last() =~= Seq::new(front.len(), |i: int| call_json_of(front[i])));
        reveal_strlit("id");
        reveal_strlit("name");
        reveal_strlit("arguments");
        assert("id"@.len() == 2 && "name"@.len() == 4 && "arguments"@.len() == 9);
        let c = calls.last();
        let v = call_json_of(c);
        assert(v.get("id"@) == Some(JsonModel::Str(c.id)));
        assert(v.get("name"@) == Some(JsonModel::Str(c.name)));
        assert(v.get("arguments"@) == Some(c.arguments));
        assert(front.push(c) =~= calls);
    } else {
        assert(calls =~= Seq::empty());
    }
}

proof fn lemma_plain_message(m: MessageModel)
    requires
        forall|j: int|
            0 <= j < m.tool_calls.len() ==> plain_within(
                (#[trigger] m.tool_calls[j]).arguments,
                124,
            ),
    ensures
        plain_within(message_json_of(m), 127),
{
    let calls = Seq::new(m.tool_calls.len(), |i: int| call_json_of(m.tool_calls[i]));
    assert forall|i: int| 0 <= i < calls.len() implies plain_within(#[trigger] calls[i], 125) by {
        let c = m.tool_calls[i];
        let o = call_json_of(c)->Obj_0;
        assert forall|k: Seq<char>| o.dom().contains(k) implies plain_within(
            #[trigger] o[k],
            124,
        ) by {}
    }
    assert(plain_within(JsonModel::Arr(calls), 126));
    let o = message_json_of(m)->Obj_0;
    assert forall|k: Seq<char>| o.dom().contains(k) implies plain_within(#[trigger] o[k], 126) by {}
}

/// A session reads back whole and in order, where each line does.
proof fn lemma_session_reads_back(messages: Seq<MessageModel>)
    requires
        forall|i: int|
            0 <= i < messages.len() ==> is_record(#[trigger] texts_of(messages)[i])
                && line_message(texts_of(messages)[i]) == Ok::<MessageModel, Seq<char>>(
                messages[i],
            ),
    ensures
        session_of(file_of(texts_of(messages))) == Ok::<Seq<MessageModel>, ErrorModel>(messages),
{
    let texts = texts_of(messages);
    law_lines_round_trip(texts);
    law_load_keeps_all(messages);
    let lines = message_lines(lines_of(file_of(texts)));
    assert(Seq::new(lines.len(), |i: int| line_message(lines[i])) =~= Seq::new(
        messages.len(),
        |i: int| Ok::<MessageModel, Seq<char>>(messages[i]),
    ));
}

} // verus!
