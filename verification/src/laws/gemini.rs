//! What reaches Gemini, and what becomes of its replies.
use vstd::prelude::*;

use crate::json::JsonModel;
use crate::provider::gemini::{
    body_of, call_parts, completion_request, model_parts, read_calls, read_response, read_text,
    text_part, wire_content, wire_contents,
};
use crate::provider::types::{
    ChatRequestModel, FinishReason, MessageModel, Role, ToolCallModel,
};
use crate::provider::wire::{endpoint_of, token_count, EndpointModel};

verus! {

proof fn lemma_body_keys()
    ensures
        "contents"@.len() == 8,
        "systemInstruction"@.len() == 17,
        "tools"@.len() == 5,
        "generationConfig"@.len() == 16,
        "maxOutputTokens"@.len() == 15,
        "temperature"@.len() == 11,
        "parts"@.len() == 5 && "parts"@[0] == 'p',
        "role"@.len() == 4 && "role"@[0] == 'r',
        "text"@.len() == 4 && "text"@[0] == 't',
        "functionCall"@.len() == 12,
        "functionResponse"@.len() == 16,
        "name"@.len() == 4 && "name"@[0] == 'n',
        "args"@.len() == 4 && "args"@[0] == 'a',
        "response"@.len() == 8,
        "result"@.len() == 6,
        "description"@.len() == 11,
        "parameters"@.len() == 10,
        "user"@.len() == 4,
        "model"@.len() == 5,
        "usageMetadata"@.len() == 13,
        "candidates"@.len() == 10,
{
    reveal_strlit("contents");
    reveal_strlit("systemInstruction");
    reveal_strlit("tools");
    reveal_strlit("generationConfig");
    reveal_strlit("maxOutputTokens");
    reveal_strlit("temperature");
    reveal_strlit("parts");
    reveal_strlit("role");
    reveal_strlit("text");
    reveal_strlit("functionCall");
    reveal_strlit("functionResponse");
    reveal_strlit("name");
    reveal_strlit("args");
    reveal_strlit("response");
    reveal_strlit("result");
    reveal_strlit("description");
    reveal_strlit("parameters");
    reveal_strlit("user");
    reveal_strlit("model");
    reveal_strlit("usageMetadata");
    reveal_strlit("candidates");
}

/// The settings of a request reach Gemini as they are, and those that are not set do not
/// show.
pub proof fn law_settings_are_sent(req: ChatRequestModel)
    ensures
        ({
            let config = body_of(req).at("generationConfig"@);
            &&& config.at("maxOutputTokens"@) == JsonModel::Int(req.max_tokens as int)
            &&& config.get("temperature"@) == req.temperature
        }),
        match req.system {
            Some(text) => body_of(req).at("systemInstruction"@).at("parts"@).items() matches Some(
                parts,
            ) && parts.len() == 1 && parts[0].at("text"@) == JsonModel::Str(text),
            None => body_of(req).get("systemInstruction"@) is None,
        },
        body_of(req).get("tools"@) is Some <==> req.tools.len() > 0,
{
    lemma_body_keys();
}

/// Every tool of a request is declared to the model, in order: with its name, its
/// description and its parameters.
pub proof fn law_tools_are_declared(req: ChatRequestModel, i: int)
    requires
        0 <= i < req.tools.len(),
    ensures
        ({
            let tools = body_of(req).at("tools"@);
            let all = tools->Arr_0[0].at("functionDeclarations"@)->Arr_0;
            &&& tools is Arr
            &&& tools->Arr_0.len() == 1
            &&& tools->Arr_0[0].at("functionDeclarations"@) is Arr
            &&& all.len() == req.tools.len()
            &&& all[i].at("name"@) == JsonModel::Str(req.tools[i].name)
            &&& all[i].at("description"@) == JsonModel::Str(req.tools[i].description)
            &&& all[i].at("parameters"@) == req.tools[i].parameters
        }),
{
    lemma_body_keys();
}

/// What a content of the conversation tells the model.
#[verifier::ext_equal]
pub enum Told {
    /// The user said this.
    User(Seq<char>),
    /// The model itself said this, and called these functions with these arguments.
    Model(Seq<char>, Seq<(Seq<char>, JsonModel)>),
    /// A function of this name gave this.
    Result(JsonModel, Seq<char>),
    /// Nothing that the API knows.
    Unknown,
}

/// What the messages of the history have to tell; system messages tell nothing.
pub open spec fn said(s: Seq<MessageModel>) -> Seq<Told>
    decreases s.len(),
{
    if s.len() == 0 {
        Seq::empty()
    } else {
        let before = said(s.drop_last());
        let m = s.last();
        match m.role {
            Role::System => before,
            Role::User => before.push(Told::User(m.content)),
            Role::Assistant => before.push(
                Told::Model(
                    m.content,
                    Seq::new(
                        m.tool_calls.len(),
                        |i: int| (m.tool_calls[i].name, m.tool_calls[i].arguments),
                    ),
                ),
            ),
            Role::Tool => before.push(
                Told::Result(
                    match m.tool_call_id {
                        Some(id) => JsonModel::Str(id),
                        None => JsonModel::Null,
                    },
                    m.content,
                ),
            ),
        }
    }
}

/// The texts in `parts`, one behind the other.
pub open spec fn texts_in(parts: Seq<JsonModel>) -> Seq<char>
    decreases parts.len(),
{
    if parts.len() == 0 {
        Seq::empty()
    } else {
        match parts.last().at("text"@) {
            JsonModel::Str(text) => texts_in(parts.drop_last()) + text,
            _ => texts_in(parts.drop_last()),
        }
    }
}

/// The function calls in `parts`.
pub open spec fn calls_in(parts: Seq<JsonModel>) -> Seq<(Seq<char>, JsonModel)>
    decreases parts.len(),
{
    if parts.len() == 0 {
        Seq::empty()
    } else {
        match parts.last().get("functionCall"@) {
            Some(f) => calls_in(parts.drop_last()).push((f.at("name"@)->Str_0, f.at("args"@))),
            None => calls_in(parts.drop_last()),
        }
    }
}

/// What a content on the wire tells.
pub open spec fn told_by(c: JsonModel) -> Told {
    match c.at("parts"@) {
        JsonModel::Arr(parts) => if c.at("role"@) == JsonModel::Str("model"@) {
            Told::Model(texts_in(parts), calls_in(parts))
        } else if c.at("role"@) == JsonModel::Str("user"@) && parts.len() == 1 {
            match parts[0].get("functionResponse"@) {
                Some(f) => Told::Result(
                    f.at("name"@),
                    f.at("response"@).at("result"@)->Str_0,
                ),
                None => Told::User(parts[0].at("text"@)->Str_0),
            }
        } else {
            Told::Unknown
        },
        _ => Told::Unknown,
    }
}

proof fn lemma_calls_told(s: Seq<ToolCallModel>)
    ensures
        texts_in(call_parts(s)) == Seq::<char>::empty(),
        calls_in(call_parts(s)) == Seq::new(s.len(), |i: int| (s[i].name, s[i].arguments)),
    decreases s.len(),
{
    lemma_body_keys();
    let b = call_parts(s);
    let all = Seq::new(s.len(), |i: int| (s[i].name, s[i].arguments));
    if s.len() == 0 {
        assert(calls_in(b) =~= all);
    } else {
        lemma_calls_told(s.drop_last());
        assert(b.drop_last() =~= call_parts(s.drop_last()));
        assert(calls_in(b) =~= all);
    }
}

proof fn lemma_in_add(a: Seq<JsonModel>, b: Seq<JsonModel>)
    ensures
        texts_in(a + b) == texts_in(a) + texts_in(b),
        calls_in(a + b) == calls_in(a) + calls_in(b),
    decreases b.len(),
{
    if b.len() == 0 {
        assert(a + b =~= a);
        assert(texts_in(a) + texts_in(b) =~= texts_in(a));
        assert(calls_in(a) + calls_in(b) =~= calls_in(a));
    } else {
        lemma_in_add(a, b.drop_last());
        assert((a + b).drop_last() =~= a + b.drop_last());
        assert(texts_in(a + b) =~= texts_in(a) + texts_in(b));
        assert(calls_in(a + b) =~= calls_in(a) + calls_in(b));
    }
}

proof fn lemma_content_told(m: MessageModel)
    requires
        m.role != Role::System,
    ensures
        said(seq![m]) == seq![told_by(wire_content(m))],
{
    lemma_body_keys();
    let one = seq![m];
    assert(one.drop_last() =~= Seq::empty());
    assert(one.last() == m);
    assert(said(one.drop_last()) =~= Seq::empty());
    let c = wire_content(m);
    if m.role == Role::Assistant {
        lemma_calls_told(m.tool_calls);
        let calls = call_parts(m.tool_calls);
        let parts = model_parts(m);
        assert(c.at("parts"@) == JsonModel::Arr(parts));
        if m.content.len() > 0 {
            let head = seq![text_part(m.content)];
            lemma_in_add(head, calls);
            assert(head.drop_last() =~= Seq::empty());
            assert(head.last() == text_part(m.content));
            assert(texts_in(Seq::empty()) =~= Seq::empty());
            assert(calls_in(Seq::empty()) =~= Seq::empty());
            assert(texts_in(head) =~= m.content);
            assert(calls_in(head) =~= Seq::empty());
            assert(parts =~= head + calls);
            assert(texts_in(parts) =~= m.content);
            assert(calls_in(parts) =~= calls_in(calls));
        } else {
            assert(texts_in(parts) =~= m.content);
        }
    }
    assert(said(one) =~= seq![told_by(c)]);
}

proof fn lemma_told(s: Seq<MessageModel>)
    ensures
        Seq::new(wire_contents(s).len(), |i: int| told_by(wire_contents(s)[i])) == said(s),
    decreases s.len(),
{
    let w = wire_contents(s);
    let all = Seq::new(w.len(), |i: int| told_by(w[i]));
    if s.len() == 0 {
        assert(all =~= said(s));
    } else {
        lemma_told(s.drop_last());
        let v = wire_contents(s.drop_last());
        let before = Seq::new(v.len(), |i: int| told_by(v[i]));
        if s.last().role != Role::System {
            lemma_content_told(s.last());
            let one = seq![s.last()];
            assert(one.drop_last() =~= Seq::empty());
            assert(one.last() == s.last());
            assert(said(one.drop_last()) =~= Seq::empty());
            assert(said(one)[0] == said(s).last());
            assert(all =~= before.push(told_by(wire_content(s.last()))));
        }
        assert(all =~= said(s));
    }
}

/// The whole conversation reaches the model, one content per message, in order and as it
/// was: what the user said, what the model said and called, and the output of every tool
/// under the name of its function.
pub proof fn law_conversation_is_told(req: ChatRequestModel)
    ensures
        body_of(req).at("contents"@).items() matches Some(contents) && Seq::new(
            contents.len(),
            |i: int| told_by(contents[i]),
        ) == said(req.messages),
{
    lemma_body_keys();
    lemma_told(req.messages);
}

/// The output of a tool reaches the model: the last content of a conversation that ends
/// with a tool's result holds it.
pub proof fn law_output_reaches_the_model(
    req: ChatRequestModel,
    name: Seq<char>,
    output: Seq<char>,
)
    requires
        req.messages.len() > 0,
        req.messages.last() == MessageModel::result(name, output),
    ensures
        ({
            let contents = body_of(req).at("contents"@)->Arr_0;
            let parts = contents.last().at("parts"@)->Arr_0;
            let f = parts[0].at("functionResponse"@);
            &&& body_of(req).at("contents"@) is Arr
            &&& contents.len() > 0
            &&& contents.last().at("role"@) == JsonModel::Str("user"@)
            &&& contents.last().at("parts"@) is Arr
            &&& parts.len() == 1
            &&& f.at("name"@) == JsonModel::Str(name)
            &&& f.at("response"@).at("result"@) == JsonModel::Str(output)
        }),
{
    lemma_body_keys();
}

/// A response whose candidate `c` has these parts for its content, and else like `v`.
pub open spec fn with_parts(
    v: Map<Seq<char>, JsonModel>,
    c: Map<Seq<char>, JsonModel>,
    parts: Seq<JsonModel>,
) -> JsonModel {
    let content = JsonModel::Obj(map!["parts"@ => JsonModel::Arr(parts)]);
    JsonModel::Obj(
        v.insert(
            "candidates"@,
            JsonModel::Arr(seq![JsonModel::Obj(c.insert("content"@, content))]),
        ),
    )
}

/// A response is read part by part: a part adds its text, where it has one, and a call of
/// the function that it calls, where it calls one.
pub proof fn law_parts_are_read(
    v: Map<Seq<char>, JsonModel>,
    c: Map<Seq<char>, JsonModel>,
    parts: Seq<JsonModel>,
    p: JsonModel,
)
    ensures
        read_response(with_parts(v, c, Seq::empty())) matches Ok(none) && none.content.len() == 0
            && none.tool_calls.len() == 0,
        read_response(with_parts(v, c, parts)) matches Ok(before) && read_response(
            with_parts(v, c, parts.push(p)),
        ) matches Ok(after) && {
            &&& match p.at("text"@) {
                JsonModel::Str(text) => after.content == before.content + text,
                _ => after.content == before.content,
            }
            &&& match p.at("functionCall"@) {
                JsonModel::Null => after.tool_calls == before.tool_calls,
                f => {
                    &&& after.tool_calls.len() == before.tool_calls.len() + 1
                    &&& after.tool_calls.drop_last() == before.tool_calls
                    &&& after.tool_calls.last().arguments == f.at("args"@)
                    &&& f.at("name"@) matches JsonModel::Str(name)
                        ==> after.tool_calls.last().name == name && after.tool_calls.last().id
                        == name
                    &&& !(f.at("name"@) is Str) ==> after.tool_calls.last().name.len() == 0
                        && after.tool_calls.last().id.len() == 0
                },
            }
            &&& after.usage == before.usage
        },
{
    lemma_body_keys();
    reveal_strlit("content");
    reveal_strlit("finishReason");
    assert("content"@.len() == 7 && "finishReason"@.len() == 12);
    let all = parts.push(p);
    assert(all.drop_last() =~= parts);
    assert(all.last() == p);
    assert(read_text(Seq::empty()) =~= Seq::empty());
    assert(read_calls(Seq::empty()) =~= Seq::empty());
    assert(read_calls(all).len() > read_calls(parts).len() ==> read_calls(all).drop_last()
        =~= read_calls(parts));
    assert(read_text(parts) + Seq::<char>::empty() =~= read_text(parts));
}

/// A response without a candidate is an error; any other is a reply, that of the first.
pub proof fn law_candidate_is_needed(v: JsonModel)
    ensures
        read_response(v) is Ok <==> v.at("candidates"@) is Arr && v.at("candidates"@)->Arr_0.len()
            > 0,
        read_response(v) matches Err(e) ==> e == crate::error::ErrorModel::Provider(
            "gemini: no candidates"@,
        ),
{
}

/// A reply ended for want of tokens exactly if the candidate says so; else it ended with
/// its calls, where it has any, or by itself.
pub proof fn law_finish_is_read(v: JsonModel, s: Seq<JsonModel>)
    requires
        v.at("candidates"@) == JsonModel::Arr(s),
        s.len() > 0,
    ensures
        read_response(v) matches Ok(r) && r.finish == if s[0].at("finishReason"@)
            == JsonModel::Str("MAX_TOKENS"@) {
            FinishReason::Length
        } else if r.tool_calls.len() > 0 {
            FinishReason::ToolCalls
        } else {
            FinishReason::Stop
        },
{
}

/// The tokens of a reply are those that its `usageMetadata` counts.
pub proof fn law_usage_is_read(v: JsonModel, i: u32, o: u32)
    requires
        v.at("usageMetadata"@).at("promptTokenCount"@) == JsonModel::Int(i as int),
        v.at("usageMetadata"@).at("candidatesTokenCount"@) == JsonModel::Int(o as int),
    ensures
        read_response(v) matches Ok(r) ==> r.usage.input_tokens == i && r.usage.output_tokens == o,
{
    assert((i as u64) as u32 == i) by (bit_vector);
    assert((o as u64) as u32 == o) by (bit_vector);
    assert(JsonModel::Int(i as int).uint() == Some(i as u64));
    assert(JsonModel::Int(o as int).uint() == Some(o as u64));
}

/// A request goes to the configured model at the configured address, with the key in the
/// address and nowhere else. Without a key there is no request.
pub proof fn law_request(to: EndpointModel, req: ChatRequestModel)
    ensures
        completion_request(to, req) is Ok <==> to.api_key is Some,
        completion_request(to, req) matches Err(e) ==> e == crate::error::ErrorModel::Provider(
            "gemini: api_key required"@,
        ),
        completion_request(to, req) matches Ok(r) ==> {
            &&& r.body == body_of(req)
            &&& r.bearer is None
            &&& r.headers.len() == 0
            &&& r.url == endpoint_of(to.base_url, "/v1beta/models/"@) + to.model
                + ":generateContent?key="@ + to.api_key->Some_0
            &&& to.base_url.len() > 0 && to.base_url.last() != '/' ==> r.url == to.base_url
                + "/v1beta/models/"@ + to.model + ":generateContent?key="@ + to.api_key->Some_0
        },
        completion_request(to, req) matches Err(e) ==> e is Provider,
{
}

/// The first candidate is the reply, whatever the others hold; one without parts says
/// nothing.
pub proof fn law_first_candidate_counts(
    v: Map<Seq<char>, JsonModel>,
    first: JsonModel,
    others: Seq<JsonModel>,
)
    ensures
        ({
            let one = JsonModel::Obj(v.insert("candidates"@, JsonModel::Arr(seq![first])));
            let all = JsonModel::Obj(
                v.insert("candidates"@, JsonModel::Arr(seq![first] + others)),
            );
            &&& read_response(all) == read_response(one)
            &&& !(first.at("content"@).at("parts"@) is Arr) ==> (read_response(one) matches Ok(r)
                && r.content.len() == 0 && r.tool_calls.len() == 0)
        }),
{
    lemma_body_keys();
    reveal_strlit("usageMetadata");
    reveal_strlit("candidates");
    assert("usageMetadata"@.len() == 13 && "candidates"@.len() == 10);
    assert((seq![first] + others)[0] == first);
}

/// Each count of tokens is read for itself; one that is not there is zero.
pub proof fn law_counts_are_read(v: JsonModel)
    ensures
        read_response(v) matches Ok(r) ==> r.usage.input_tokens == token_count(
            v.at("usageMetadata"@).at("promptTokenCount"@),
        ) && r.usage.output_tokens == token_count(v.at("usageMetadata"@).at("candidatesTokenCount"@)),
{
}

} // verus!
