//! What a session file holds, and what is read from one.
use vstd::prelude::*;

use crate::error::ErrorModel;
use crate::json::{json_read, json_text, JsonModel};
use crate::provider::types::{MessageModel, Role, ToolCallModel};
use crate::session::{
    all_read, call_of, calls_of, file_of, loaded, message_json_of, message_lines, message_of,
    role_of, session_of, texts_of, Session, SessionRead,
};
use crate::text::{lines_of, trim_of};

verus! {

proof fn lemma_keys()
    ensures
        "role"@.len() == 4,
        "content"@.len() == 7,
        "tool_calls"@.len() == 10,
        "tool_call_id"@.len() == 12,
        "id"@.len() == 2,
        "name"@.len() == 4,
        "arguments"@.len() == 9,
{
    reveal_strlit("role");
    reveal_strlit("content");
    reveal_strlit("tool_calls");
    reveal_strlit("tool_call_id");
    reveal_strlit("id");
    reveal_strlit("name");
    reveal_strlit("arguments");
}

/// A message is written with its role, its content, every call that it makes and the call
/// that it answers; what it has none of does not show.
pub proof fn law_message_is_written(m: MessageModel, j: int)
    ensures
        ({
            let v = message_json_of(m);
            let calls = v.at("tool_calls"@);
            &&& v.at("role"@) == JsonModel::Str(
                match m.role {
                    Role::System => "system"@,
                    Role::User => "user"@,
                    Role::Assistant => "assistant"@,
                    Role::Tool => "tool"@,
                },
            )
            &&& v.at("content"@) == JsonModel::Str(m.content)
            &&& v.get("tool_calls"@) is Some <==> m.tool_calls.len() > 0
            &&& v.get("tool_call_id"@) is Some <==> m.tool_call_id is Some
            &&& m.tool_call_id matches Some(id) ==> v.at("tool_call_id"@) == JsonModel::Str(id)
            &&& m.tool_calls.len() > 0 ==> calls is Arr && calls->Arr_0.len() == m.tool_calls.len()
            &&& 0 <= j < m.tool_calls.len() ==> calls->Arr_0[j].at("id"@) == JsonModel::Str(
                m.tool_calls[j].id,
            ) && calls->Arr_0[j].at("name"@) == JsonModel::Str(m.tool_calls[j].name)
                && calls->Arr_0[j].at("arguments"@) == m.tool_calls[j].arguments
        }),
{
    lemma_keys();
}

/// A session file has a line for every message, in order: its JSON and a line feed.
pub proof fn law_file_has_a_line_each(messages: Seq<MessageModel>, m: MessageModel)
    ensures
        file_of(texts_of(Seq::empty())).len() == 0,
        file_of(texts_of(messages.push(m))) == file_of(texts_of(messages)) + json_text(
            message_json_of(m),
        ) + seq!['\n'],
{
    let before = texts_of(messages);
    let after = texts_of(messages.push(m));
    let text = json_text(message_json_of(m));
    assert(after =~= before.push(text));
    assert(after.drop_last() =~= before);
    assert(text.push('\n') =~= text + seq!['\n']);
    assert(file_of(before) + (text + seq!['\n']) =~= file_of(before) + text + seq!['\n']);
}

/// A message is read from its members: an object needs a role, and may lack the others.
pub proof fn law_message_is_read(v: JsonModel)
    requires
        v is Obj,
        v.at("tool_calls"@) is Null && v.get("tool_calls"@) is None,
    ensures
        ({
            let role = v.at("role"@);
            let content = v.at("content"@);
            let id = v.at("tool_call_id"@);
            let fits = (content is Str || v.get("content"@) is None) && (id is Str || id is Null);
            &&& v.get("role"@) is None ==> message_of(v) is Err
            &&& fits && role == JsonModel::Str("user"@) ==> message_of(v) is Ok && message_of(
                v,
            )->Ok_0.role == Role::User
            &&& fits && role == JsonModel::Str("assistant"@) ==> message_of(v) is Ok && message_of(
                v,
            )->Ok_0.role == Role::Assistant
            &&& fits && role == JsonModel::Str("system"@) ==> message_of(v) is Ok && message_of(
                v,
            )->Ok_0.role == Role::System
            &&& fits && role == JsonModel::Str("tool"@) ==> message_of(v) is Ok && message_of(
                v,
            )->Ok_0.role == Role::Tool
            &&& !fits ==> message_of(v) is Err
            &&& message_of(v) matches Ok(m) ==> {
                &&& content matches JsonModel::Str(text) ==> m.content == text
                &&& v.get("content"@) is None ==> m.content.len() == 0
                &&& id matches JsonModel::Str(text) ==> m.tool_call_id == Some(text)
                &&& id is Null ==> m.tool_call_id is None
                &&& m.tool_calls.len() == 0
            }
        }),
{
    reveal_strlit("system");
    reveal_strlit("user");
    reveal_strlit("assistant");
    reveal_strlit("tool");
    assert("system"@.len() == 6 && "user"@.len() == 4 && "assistant"@.len() == 9);
    assert("tool"@.len() == 4 && "user"@[0] == 'u' && "tool"@[0] == 't');
}

/// Blank lines do not count; any other line does.
pub proof fn law_blank_lines(lines: Seq<Seq<char>>, line: Seq<char>)
    ensures
        message_lines(Seq::empty()).len() == 0,
        trim_of(line).len() == 0 ==> message_lines(lines.push(line)) == message_lines(lines),
        trim_of(line).len() > 0 ==> message_lines(lines.push(line)) == message_lines(lines).push(
            line,
        ),
{
    assert(lines.push(line).drop_last() =~= lines);
}

/// A session is read exactly if every line that counts holds a message, and then it is these
/// messages in order; else the error is that of a line.
pub proof fn law_session_is_read(text: Seq<char>)
    ensures
        ({
            let lines = message_lines(lines_of(text));
            match session_of(text) {
                Ok(messages) => messages.len() == lines.len() && forall|i: int|
                    0 <= i < lines.len() ==> (json_read(#[trigger] lines[i]) matches Ok(v)
                        && message_of(v) == Ok::<MessageModel, Seq<char>>(messages[i])),
                Err(e) => exists|i: int|
                    0 <= i < lines.len() && match json_read(#[trigger] lines[i]) {
                        Ok(v) => message_of(v) matches Err(why) && e == ErrorModel::Json(why),
                        Err(why) => e == ErrorModel::Json(why),
                    },
            }
        }),
{
    let lines = message_lines(lines_of(text));
    let parsed = Seq::new(lines.len(), |i: int| crate::session::line_message(lines[i]));
    lemma_all_read(parsed);
    match session_of(text) {
        Ok(messages) => {
            assert forall|i: int| 0 <= i < lines.len() implies (json_read(
                #[trigger] lines[i],
            ) matches Ok(v) && message_of(v) == Ok::<MessageModel, Seq<char>>(messages[i])) by {
                assert(parsed[i] == Ok::<MessageModel, Seq<char>>(messages[i]));
            }
        },
        Err(e) => {
            let i = choose|i: int|
                0 <= i < parsed.len() && (#[trigger] parsed[i] matches Err(why) && e
                    == ErrorModel::Json(why));
            assert(crate::session::line_message(lines[i]) is Err);
        },
    }
}

proof fn lemma_all_read(parsed: Seq<Result<MessageModel, Seq<char>>>)
    ensures
        match all_read(parsed) {
            Ok(messages) => messages.len() == parsed.len() && forall|i: int|
                0 <= i < parsed.len() ==> #[trigger] parsed[i] == Ok::<MessageModel, Seq<char>>(
                    messages[i],
                ),
            Err(e) => exists|i: int|
                0 <= i < parsed.len() && (#[trigger] parsed[i] matches Err(why) && e
                    == ErrorModel::Json(why)),
        },
    decreases parsed.len(),
{
    if parsed.len() > 0 {
        let rest = parsed.drop_last();
        lemma_all_read(rest);
        match all_read(rest) {
            Ok(before) => {
                match parsed.last() {
                    Ok(m) => {
                        let all = before.push(m);
                        assert forall|i: int| 0 <= i < parsed.len() implies #[trigger] parsed[i]
                            == Ok::<MessageModel, Seq<char>>(all[i]) by {
                            if i < rest.len() {
                                assert(rest[i] == parsed[i]);
                            }
                        }
                    },
                    Err(why) => {
                        assert(parsed[parsed.len() - 1] == Err::<MessageModel, Seq<char>>(why));
                    },
                }
            },
            Err(e) => {
                let i = choose|i: int|
                    0 <= i < rest.len() && (#[trigger] rest[i] matches Err(why) && e
                        == ErrorModel::Json(why));
                assert(parsed[i] == rest[i]);
            },
        }
    }
}

/// A file that is not there is an empty session; one that cannot be read is an error.
pub proof fn law_load(e: String, text: String)
    ensures
        loaded(SessionRead::Missing) is Ok && loaded(SessionRead::Missing)->Ok_0.len() == 0,
        loaded(SessionRead::Unreadable(e)) == Err::<Seq<MessageModel>, ErrorModel>(
            ErrorModel::Io(e@),
        ),
        loaded(SessionRead::Text(text)) == session_of(text@),
{
}

/// A call is read from its members, all of which it needs.
pub proof fn law_call_is_read(v: JsonModel)
    requires
        v is Obj,
    ensures
        call_of(v) is Ok <==> v.at("id"@) is Str && v.at("name"@) is Str && v.get(
            "arguments"@,
        ) is Some,
        call_of(v) matches Ok(c) ==> v.at("id"@) == JsonModel::Str(c.id) && v.at("name"@)
            == JsonModel::Str(c.name) && v.at("arguments"@) == c.arguments,
        v.get("id"@) is None ==> call_of(v) == Err::<ToolCallModel, Seq<char>>(
            "missing field `"@ + "id"@ + "`"@,
        ),
{
}

/// The calls of a message are read one for one, in order.
pub proof fn law_calls_are_read(s: Seq<JsonModel>)
    ensures
        match calls_of(s) {
            Ok(calls) => calls.len() == s.len() && forall|i: int|
                0 <= i < s.len() ==> call_of(#[trigger] s[i]) == Ok::<ToolCallModel, Seq<char>>(
                    calls[i],
                ),
            Err(e) => exists|i: int|
                0 <= i < s.len() && call_of(#[trigger] s[i]) == Err::<ToolCallModel, Seq<char>>(e),
        },
    decreases s.len(),
{
    if s.len() > 0 {
        let rest = s.drop_last();
        law_calls_are_read(rest);
        match calls_of(rest) {
            Ok(before) => {
                match call_of(s.last()) {
                    Ok(c) => {
                        let all = before.push(c);
                        assert forall|i: int| 0 <= i < s.len() implies call_of(#[trigger] s[i])
                            == Ok::<ToolCallModel, Seq<char>>(all[i]) by {
                            if i < rest.len() {
                                assert(rest[i] == s[i]);
                            }
                        }
                    },
                    Err(e) => {
                        assert(call_of(s[s.len() - 1]) == Err::<ToolCallModel, Seq<char>>(e));
                    },
                }
            },
            Err(e) => {
                let i = choose|i: int|
                    0 <= i < rest.len() && call_of(#[trigger] rest[i]) == Err::<
                        ToolCallModel,
                        Seq<char>,
                    >(e);
                assert(s[i] == rest[i]);
            },
        }
    }
}

/// A message with calls has them read; what is no array of calls is an error, and so is a
/// message without a role, with the reason.
pub proof fn law_message_with_calls(v: JsonModel, s: Seq<JsonModel>)
    requires
        v is Obj,
    ensures
        v.at("tool_calls"@) == JsonModel::Arr(s) ==> (message_of(v) matches Ok(m) ==> calls_of(s)
            == Ok::<Seq<ToolCallModel>, Seq<char>>(m.tool_calls)),
        v.at("tool_calls"@) == JsonModel::Arr(s) && calls_of(s) is Err ==> message_of(v) is Err,
        v.get("tool_calls"@) is Some && !(v.at("tool_calls"@) is Arr) ==> message_of(v) is Err,
        v.get("role"@) is None ==> message_of(v) == Err::<MessageModel, Seq<char>>(
            "missing field `"@ + "role"@ + "`"@,
        ),
        v.get("role"@) is Some && role_of(v.at("role"@)) is None ==> message_of(v) == Err::<
            MessageModel,
            Seq<char>,
        >("invalid field `"@ + "role"@ + "`"@),
        role_of(v.at("role"@)) is Some && v.get("content"@) is Some && !(v.at("content"@) is Str)
            ==> message_of(v) == Err::<MessageModel, Seq<char>>(
            "invalid field `"@ + "content"@ + "`"@,
        ),
{
}

/// Sessions lie in the project's own directory.
pub proof fn law_session_dir(root: Seq<char>)
    ensures
        Session::dir_of(root) == crate::paths::joined(
            crate::paths::joined(root, ".ade"@),
            "sessions"@,
        ),
{
}

/// A message may be written as an array of its parts, in order, of which the last ones may
/// be left out; more than four are too many.
pub proof fn law_message_as_array(s: Seq<JsonModel>)
    ensures
        s.len() > 4 ==> message_of(JsonModel::Arr(s)) == Err::<MessageModel, Seq<char>>(
            "too many items in a message"@,
        ),
        s.len() == 0 ==> message_of(JsonModel::Arr(s)) == Err::<MessageModel, Seq<char>>(
            "missing field `"@ + "role"@ + "`"@,
        ),
        s.len() == 1 && s[0] == JsonModel::Str("user"@) ==> message_of(JsonModel::Arr(s)) == Ok::<
            MessageModel,
            Seq<char>,
        >(MessageModel::plain(Role::User, Seq::empty())),
        0 < s.len() <= 4 ==> (message_of(JsonModel::Arr(s)) matches Ok(m) ==> {
            &&& s.len() > 1 ==> s[1] == JsonModel::Str(m.content)
            &&& s.len() <= 1 ==> m.content.len() == 0
            &&& s.len() > 2 ==> s[2] is Arr && calls_of(s[2]->Arr_0) == Ok::<
                Seq<ToolCallModel>,
                Seq<char>,
            >(m.tool_calls)
            &&& s.len() <= 2 ==> m.tool_calls.len() == 0
            &&& m.tool_call_id is Some <==> s.len() == 4 && s[3] is Str
            &&& m.tool_call_id matches Some(id) ==> s[3] == JsonModel::Str(id)
        }),
        s.len() == 4 && s[0] == JsonModel::Str("tool"@) && s[1] is Str && s[2]
            == JsonModel::Arr(Seq::empty()) && (s[3] is Str || s[3] is Null) ==> message_of(
            JsonModel::Arr(s),
        ) is Ok,
{
    reveal_strlit("system");
    reveal_strlit("user");
    reveal_strlit("assistant");
    reveal_strlit("tool");
    assert("system"@.len() == 6 && "user"@.len() == 4 && "assistant"@.len() == 9);
    assert("tool"@.len() == 4 && "user"@[0] == 'u' && "tool"@[0] == 't');
}

/// A call may be written as an array of its three parts, no fewer and no more.
pub proof fn law_call_as_array(s: Seq<JsonModel>)
    ensures
        call_of(JsonModel::Arr(s)) is Ok <==> s.len() == 3 && s[0] is Str && s[1] is Str,
        s.len() > 3 ==> call_of(JsonModel::Arr(s)) == Err::<ToolCallModel, Seq<char>>(
            "too many items in a tool call"@,
        ),
        call_of(JsonModel::Arr(s)) matches Ok(c) ==> s[0] == JsonModel::Str(c.id) && s[1]
            == JsonModel::Str(c.name) && s[2] == c.arguments,
{
}

/// A role may be named by a string, or by an object that has nothing else.
pub proof fn law_roles(v: JsonModel)
    ensures
        role_of(JsonModel::Obj(map!["user"@ => JsonModel::Null])) == Some(Role::User),
        role_of(JsonModel::Obj(map!["assistant"@ => JsonModel::Null])) == Some(Role::Assistant),
        !(v is Str) && !(v is Obj) ==> role_of(v) is None,
        role_of(v) matches Some(role) ==> v is Obj || v == JsonModel::Str(
            match role {
                Role::System => "system"@,
                Role::User => "user"@,
                Role::Assistant => "assistant"@,
                Role::Tool => "tool"@,
            },
        ),
{
    reveal_strlit("system");
    reveal_strlit("user");
    reveal_strlit("assistant");
    reveal_strlit("tool");
    assert("system"@.len() == 6 && "user"@.len() == 4 && "assistant"@.len() == 9);
    assert("tool"@.len() == 4 && "user"@[0] == 'u' && "tool"@[0] == 't');
    let user = map!["user"@ => JsonModel::Null];
    let assistant = map!["assistant"@ => JsonModel::Null];
    assert(user.dom().contains("user"@));
    assert(assistant.dom().contains("assistant"@));
    assert(!map!["system"@ => JsonModel::Null].dom().contains("user"@));
    assert(!map!["system"@ => JsonModel::Null].dom().contains("assistant"@));
    assert(!user.dom().contains("assistant"@));
}

} // verus!
