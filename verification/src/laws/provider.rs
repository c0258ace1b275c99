//! What becomes of an HTTP reply and of the lines of a stream, and which provider a
//! configuration gives.
use vstd::prelude::*;

use crate::config::{ProviderConfigModel, ProviderKind};
use crate::error::ErrorModel;
use crate::json::{json_read, JsonModel};
use crate::keystore::{resolved, KeySourcesModel};
use crate::provider::sse::{
    lemma_newline_in, line_says, lossy_text, newline_in, LineModel, ReaderModel,
};
use crate::provider::types::{ChatResponseModel, MessageModel, Role};
use crate::provider::wire::{accepted, endpoint_of, token_count, HttpReplyModel};
use crate::provider::{built, ProviderModel};
use crate::text::{has_prefix, is_space, occurs_at};

verus! {

/// A reply counts exactly with a status of success, and then it counts as its body. Else
/// the error tells whose reply it was, the status and all that the body says.
pub proof fn law_reply_is_accepted(label: Seq<char>, code: u16, status: Seq<char>, body: Seq<char>)
    ensures
        200 <= code && code <= 299 ==> accepted(label, HttpReplyModel::Full { code, status, body })
            == Ok::<Seq<char>, ErrorModel>(body),
        code < 200 || 300 <= code ==> accepted(label, HttpReplyModel::Full { code, status, body })
            == Err::<Seq<char>, ErrorModel>(
            ErrorModel::Provider(label + " "@ + status + ": "@ + body),
        ),
        accepted(label, HttpReplyModel::Unsent(body)) == Err::<Seq<char>, ErrorModel>(
            ErrorModel::Provider(label + " request: "@ + body),
        ),
        accepted(label, HttpReplyModel::Unread(body)) == Err::<Seq<char>, ErrorModel>(
            ErrorModel::Provider(label + " body: "@ + body),
        ),
{
}

/// Every adapter reads a reply from the JSON in the body of a success, each after its own
/// format; a body that is no JSON is an error.
pub proof fn law_reply_is_read(p: ProviderModel, code: u16, status: Seq<char>, body: Seq<char>)
    ensures
        ({
            let r = p.completed(HttpReplyModel::Full { code, status, body });
            let ok = 200 <= code && code <= 299;
            &&& ok ==> (json_read(body) matches Err(e) ==> r == Err::<
                ChatResponseModel,
                ErrorModel,
            >(ErrorModel::Json(e)))
            &&& ok ==> (json_read(body) matches Ok(v) ==> r == match p.kind {
                ProviderKind::Openai => crate::provider::openai::read_response(v),
                ProviderKind::Anthropic => crate::provider::anthropic::read_response(v),
                ProviderKind::Gemini => crate::provider::gemini::read_response(v),
            })
            &&& !ok ==> r == Err::<ChatResponseModel, ErrorModel>(
                ErrorModel::Provider(
                    (match p.kind {
                        ProviderKind::Openai => "openai"@,
                        ProviderKind::Anthropic => "anthropic"@,
                        ProviderKind::Gemini => "gemini"@,
                    }) + " "@ + status + ": "@ + body,
                ),
            )
        }),
{
}

/// Slashes at the end of an address do not matter.
pub proof fn law_slashes_do_not_matter(base: Seq<char>, path: Seq<char>)
    ensures
        endpoint_of(base.push('/'), path) == endpoint_of(base, path),
        base.len() == 0 || base.last() != '/' ==> endpoint_of(base, path) == base + path,
{
    assert(base.push('/').drop_last() =~= base);
}

/// A count of tokens is the number that stands there, and zero where none does.
pub proof fn law_token_count(v: JsonModel, n: u32)
    ensures
        v == JsonModel::Int(n as int) ==> token_count(v) == n,
        !(v is Int) ==> token_count(v) == 0,
{
    assert((n as u64) as u32 == n) by (bit_vector);
    if v == JsonModel::Int(n as int) {
        assert(v.uint() == Some(n as u64));
    }
}

/// A configured provider speaks the configured protocol, goes by the configured name and
/// asks for the configured model, at the configured address or else at the one of its
/// protocol. It is had exactly if its key is, and then with that key.
pub proof fn law_provider_as_configured(cfg: ProviderConfigModel, keys: KeySourcesModel)
    ensures
        built(cfg, keys) matches Ok(p) ==> {
            &&& p.kind == cfg.kind
            &&& p.to.name == cfg.name
            &&& p.to.model == cfg.model
            &&& cfg.base_url matches Some(base) ==> p.to.base_url == base
            &&& cfg.base_url is None ==> p.to.base_url == match cfg.kind {
                ProviderKind::Openai => "https://api.openai.com/v1"@,
                ProviderKind::Anthropic => "https://api.anthropic.com"@,
                ProviderKind::Gemini => "https://generativelanguage.googleapis.com"@,
            }
            &&& p.to.api_key is Some <==> cfg.api_key is Some
            &&& cfg.api_key matches Some(reference) ==> resolved(reference, keys) == Ok::<
                Seq<char>,
                ErrorModel,
            >(p.to.api_key->Some_0)
        },
        cfg.api_key is None ==> built(cfg, keys) is Ok,
        cfg.api_key matches Some(reference) ==> (built(cfg, keys) is Ok <==> resolved(
            reference,
            keys,
        ) is Ok),
        built(cfg, keys) matches Err(e) ==> (cfg.api_key matches Some(reference) ==> resolved(
            reference,
            keys,
        ) == Err::<Seq<char>, ErrorModel>(e)),
{
}

/// A reply joins the history as what the assistant said and asked for, whole.
pub proof fn law_reply_becomes_a_message(r: ChatResponseModel)
    ensures
        r.message().role == Role::Assistant,
        r.message().content == r.content,
        r.message().tool_calls == r.tool_calls,
        r.message().tool_call_id is None,
{
}

/// A result joins the history as the answer to its call.
pub proof fn law_result_answers_its_call(id: Seq<char>, content: Seq<char>)
    ensures
        MessageModel::result(id, content).role == Role::Tool,
        MessageModel::result(id, content).content == content,
        MessageModel::result(id, content).tool_call_id == Some(id),
        MessageModel::result(id, content).tool_calls.len() == 0,
        MessageModel::plain(Role::User, content).role == Role::User,
        MessageModel::plain(Role::User, content).content == content,
        MessageModel::plain(Role::User, content).tool_calls.len() == 0,
        MessageModel::plain(Role::User, content).tool_call_id is None,
{
}

/// A data line says what stands behind its prefix, without blanks around it and without the
/// end of the line; `[DONE]` says that the stream is at its end.
pub proof fn law_data_line(data: Seq<char>, end: Seq<char>)
    requires
        data.len() > 0,
        !is_space(data[0]),
        !is_space(data.last()),
        end == "\n"@ || end == "\r\n"@ || end == ""@,
    ensures
        data != "[DONE]"@ ==> line_says("data: "@ + data + end) == LineModel::Data(data)
            && line_says("data:"@ + data + end) == LineModel::Data(data),
        data == "[DONE]"@ ==> line_says("data: "@ + data + end) is Done && line_says(
            "data:"@ + data + end,
        ) is Done,
{
    reveal_strlit("data: ");
    reveal_strlit("data:");
    let spaced = "data: "@ + data;
    let tight = "data:"@ + data;
    assert(spaced.last() == data.last());
    assert(tight.last() == data.last());
    lemma_line_end(spaced, end);
    lemma_line_end(tight, end);
    assert(spaced.subrange(0, 5) =~= "data:"@);
    assert(tight.subrange(0, 5) =~= "data:"@);
    assert(occurs_at(spaced, "data:"@, 0));
    assert(occurs_at(tight, "data:"@, 0));
    assert(spaced.skip(5) =~= seq![' '] + data);
    assert(tight.skip(5) =~= data);
    assert((seq![' '] + data).skip(1) =~= data);
    assert(is_space(' '));
    assert(crate::text::trim_start_of(data) == data);
    assert(crate::text::trim_start_of(seq![' '] + data) == data);
    assert(crate::text::trim_end_of(data) == data);
}

proof fn lemma_line_end(s: Seq<char>, end: Seq<char>)
    requires
        s.len() > 0,
        !is_space(s.last()),
        end == "\n"@ || end == "\r\n"@ || end == ""@,
    ensures
        crate::text::trim_end_of(s + end) == s,
{
    reveal_strlit("\n");
    reveal_strlit("\r\n");
    reveal_strlit("");
    assert(is_space('\n') && is_space('\r'));
    assert(crate::text::trim_end_of(s) == s);
    assert(s.push('\r').drop_last() =~= s);
    assert(crate::text::trim_end_of(s.push('\r')) == s);
    if end == "\n"@ {
        assert((s + end).drop_last() =~= s);
    } else if end == "\r\n"@ {
        assert((s + end).drop_last() =~= s.push('\r'));
    } else {
        assert(s + end =~= s);
    }
}

/// Other lines, and data lines without data, say nothing.
pub proof fn law_other_lines(line: Seq<char>)
    requires
        !has_prefix(crate::text::trim_end_of(line), "data:"@),
    ensures
        line_says(line) is Skip,
{
}

/// A chunk that completes a line hands out what the line says, once and in order, and keeps
/// what stands behind it.
pub proof fn law_line_is_read(held: Seq<u8>, line: Seq<u8>, rest: Seq<u8>, data: Seq<char>)
    requires
        forall|i: int| 0 <= i < held.len() ==> held[i] != 10,
        forall|i: int| 0 <= i < line.len() ==> line[i] != 10,
        forall|i: int| 0 <= i < rest.len() ==> rest[i] != 10,
    ensures
        ({
            let reader = ReaderModel { held, done: false };
            let read = reader.fed(line.push(10u8) + rest);
            match line_says(lossy_text((held + line).push(10u8))) {
                LineModel::Data(text) => read.data == seq![text] && read.reader.held == rest
                    && !read.reader.done,
                LineModel::Done => read.data.len() == 0 && read.reader.done,
                LineModel::Skip => read.data.len() == 0 && read.reader.held == rest
                    && !read.reader.done,
            }
        }),
        ({
            let read = (ReaderModel { held, done: false }).fed(rest);
            read.data.len() == 0 && read.reader.held == held + rest && !read.reader.done
        }),
{
    let b = held + (line.push(10u8) + rest);
    let n = held.len() + line.len();
    lemma_newline_in(b);
    let i = newline_in(b);
    assert(b[n as int] == 10);
    if i < n {
        assert(b[i] == (held + line)[i]);
    }
    assert(b.take(n as int + 1) =~= (held + line).push(10u8));
    assert(b.skip(n as int + 1) =~= rest);
    lemma_newline_in(rest);
    lemma_newline_in(held + rest);
    let j = newline_in(held + rest);
    if j < (held + rest).len() {
        assert((held + rest)[j] == 10);
    }
    let scanned_rest = crate::provider::sse::scanned(rest);
    assert(scanned_rest.data.len() == 0 && scanned_rest.reader.held == rest);
    if let LineModel::Data(text) = line_says(lossy_text((held + line).push(10u8))) {
        assert(seq![text] + scanned_rest.data =~= seq![text]);
    }
}

/// What goes wrong on the way is told with its cause, whole.
pub proof fn law_causes_are_told(name: Seq<char>, message: Seq<char>)
    ensures
        crate::provider::client_error(message) == ErrorModel::Provider("http client: "@ + message),
        crate::provider::sse::read_error(message) == ErrorModel::Provider(
            "stream read: "@ + message,
        ),
        crate::mcp::rpc::spawn_error(name, message) == ErrorModel::Provider(
            "mcp '"@ + name + "' spawn: "@ + message,
        ),
        crate::mcp::worker::runtime_error(message) == ErrorModel::Provider(
            "mcp sse runtime: "@ + message,
        ),
        crate::tools::builtin::spawn_error(message) == ErrorModel::Tool(
            "spawn failed: "@ + message,
        ),
        crate::git::not_run(message) == "failed to run git: "@ + message,
{
}

/// A reader starts with nothing, at no end.
pub proof fn law_fresh_reader()
    ensures
        ReaderModel::fresh().held.len() == 0,
        !ReaderModel::fresh().done,
{
}

/// A data line of blanks says nothing.
pub proof fn law_blank_data_line(blanks: Seq<char>)
    requires
        forall|i: int| 0 <= i < blanks.len() ==> is_space(#[trigger] blanks[i]),
    ensures
        line_says("data:"@ + blanks) is Skip,
{
    reveal_strlit("data:");
    reveal_strlit("[DONE]");
    let line = "data:"@ + blanks;
    crate::laws::text::law_trim_end(line);
    let t = crate::text::trim_end_of(line);
    assert(!is_space(':'));
    assert(line[4] == ':');
    if t.len() < 5 {
        assert(is_space(line[4]));
    }
    if t.len() > 5 {
        assert(t.last() == line[t.len() - 1]);
        assert(line[t.len() - 1] == blanks[t.len() - 6]);
    }
    assert(t =~= "data:"@);
    assert(t.subrange(0, 5) =~= "data:"@);
    assert(occurs_at(t, "data:"@, 0));
    assert(t.skip(5) =~= Seq::empty());
    let none = Seq::<char>::empty();
    assert(crate::text::trim_start_of(none) == none);
    assert(crate::text::trim_end_of(none) == none);
    assert("[DONE]"@.len() == 6);
}

} // verus!
