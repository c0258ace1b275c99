//! Provider-agnostic message and tool types.
//!
//! Every adapter translates to and from these. The shape is deliberately close
//! to the OpenAI chat model (flat messages and tool calls) because it goes over
//! cleanly to Anthropic blocks and Gemini parts.
use vstd::prelude::*;

use crate::json::{Json, JsonModel};
use crate::text::{opt_view, views};

verus! {

#[derive(Debug, Clone, Copy, PartialEq, Eq, Structural)]
pub enum Role {
    System,
    User,
    Assistant,
    /// A tool result being fed back to the model.
    Tool,
}

/// A model-requested tool invocation.
#[derive(Debug, PartialEq)]
pub struct ToolCall {
    /// Provider-assigned id, echoed back with the result. Synthesised when the
    /// provider does not supply one (Gemini).
    pub id: String,
    pub name: String,
    /// Parsed JSON arguments.
    pub arguments: Json,
}

/// The model of a [`ToolCall`].
#[verifier::ext_equal]
pub struct ToolCallModel {
    pub id: Seq<char>,
    pub name: Seq<char>,
    pub arguments: JsonModel,
}

impl View for ToolCall {
    type V = ToolCallModel;

    open spec fn view(&self) -> ToolCallModel {
        ToolCallModel { id: self.id@, name: self.name@, arguments: self.arguments@ }
    }
}

impl Clone for ToolCall {
    fn clone(&self) -> (r: ToolCall)
        ensures
            r@ == self@,
    {
        ToolCall {
            id: self.id.clone(),
            name: self.name.clone(),
            arguments: self.arguments.clone(),
        }
    }
}

/// One conversation message.
#[derive(Debug, PartialEq)]
pub struct Message {
    pub role: Role,
    pub content: String,
    /// Present on assistant turns that call tools.
    pub tool_calls: Vec<ToolCall>,
    /// Set on `Role::Tool` messages: which call this result answers.
    pub tool_call_id: Option<String>,
}

/// The model of a [`Message`].
#[verifier::ext_equal]
pub struct MessageModel {
    pub role: Role,
    pub content: Seq<char>,
    pub tool_calls: Seq<ToolCallModel>,
    pub tool_call_id: Option<Seq<char>>,
}

impl View for Message {
    type V = MessageModel;

    open spec fn view(&self) -> MessageModel {
        MessageModel {
            role: self.role,
            content: self.content@,
            tool_calls: views(self.tool_calls@),
            tool_call_id: opt_view(self.tool_call_id),
        }
    }
}

impl Clone for Message {
    fn clone(&self) -> (r: Message)
        ensures
            r@ == self@,
    {
        let r = Message {
            role: self.role,
            content: self.content.clone(),
            tool_calls: self.tool_calls.clone(),
            tool_call_id: self.tool_call_id.clone(),
        };
        assert(r@.tool_calls =~= self@.tool_calls);
        r
    }
}

impl MessageModel {
    /// A message without tool calls.
    pub open spec fn plain(role: Role, content: Seq<char>) -> MessageModel {
        MessageModel { role, content, tool_calls: Seq::empty(), tool_call_id: None }
    }

    /// The result of the tool call `id`.
    pub open spec fn result(id: Seq<char>, content: Seq<char>) -> MessageModel {
        MessageModel {
            role: Role::Tool,
            content,
            tool_calls: Seq::empty(),
            tool_call_id: Some(id),
        }
    }
}

impl Message {
    pub fn user(content: &str) -> (r: Message)
        ensures
            r@ == MessageModel::plain(Role::User, content@),
    {
        let r = Message {
            role: Role::User,
            content: content.to_owned(),
            tool_calls: Vec::new(),
            tool_call_id: None,
        };
        assert(r@.tool_calls =~= Seq::empty());
        r
    }

    pub fn assistant(content: &str) -> (r: Message)
        ensures
            r@ == MessageModel::plain(Role::Assistant, content@),
    {
        let r = Message {
            role: Role::Assistant,
            content: content.to_owned(),
            tool_calls: Vec::new(),
            tool_call_id: None,
        };
        assert(r@.tool_calls =~= Seq::empty());
        r
    }

    pub fn tool_result(id: &str, content: &str) -> (r: Message)
        ensures
            r@ == MessageModel::result(id@, content@),
    {
        let r = Message {
            role: Role::Tool,
            content: content.to_owned(),
            tool_calls: Vec::new(),
            tool_call_id: Some(id.to_owned()),
        };
        assert(r@.tool_calls =~= Seq::empty());
        r
    }
}

/// A tool advertised to the model (JSON-Schema parameters).
#[derive(Debug, PartialEq)]
pub struct ToolSpec {
    pub name: String,
    pub description: String,
    /// JSON Schema object describing the arguments.
    pub parameters: Json,
}

/// The model of a [`ToolSpec`].
#[verifier::ext_equal]
pub struct ToolSpecModel {
    pub name: Seq<char>,
    pub description: Seq<char>,
    pub parameters: JsonModel,
}

impl View for ToolSpec {
    type V = ToolSpecModel;

    open spec fn view(&self) -> ToolSpecModel {
        ToolSpecModel {
            name: self.name@,
            description: self.description@,
            parameters: self.parameters@,
        }
    }
}

impl Clone for ToolSpec {
    fn clone(&self) -> (r: ToolSpec)
        ensures
            r@ == self@,
    {
        ToolSpec {
            name: self.name.clone(),
            description: self.description.clone(),
            parameters: self.parameters.clone(),
        }
    }
}

/// A request to a provider.
#[derive(Debug)]
pub struct ChatRequest {
    pub model: String,
    pub system: Option<String>,
    pub messages: Vec<Message>,
    pub tools: Vec<ToolSpec>,
    pub max_tokens: u32,
    /// The sampling temperature, as the JSON number that is sent.
    pub temperature: Option<Json>,
}

/// The model of a [`ChatRequest`].
#[verifier::ext_equal]
pub struct ChatRequestModel {
    pub model: Seq<char>,
    pub system: Option<Seq<char>>,
    pub messages: Seq<MessageModel>,
    pub tools: Seq<ToolSpecModel>,
    pub max_tokens: u32,
    pub temperature: Option<JsonModel>,
}

impl View for ChatRequest {
    type V = ChatRequestModel;

    open spec fn view(&self) -> ChatRequestModel {
        ChatRequestModel {
            model: self.model@,
            system: opt_view(self.system),
            messages: views(self.messages@),
            tools: views(self.tools@),
            max_tokens: self.max_tokens,
            temperature: opt_view(self.temperature),
        }
    }
}

impl ChatRequest {
    /// An empty request to `model`.
    pub fn new(model: &str) -> (r: ChatRequest)
        ensures
            r@ == (ChatRequestModel {
                model: model@,
                system: None,
                messages: Seq::empty(),
                tools: Seq::empty(),
                max_tokens: 4096,
                temperature: None,
            }),
    {
        let r = ChatRequest {
            model: model.to_owned(),
            system: None,
            messages: Vec::new(),
            tools: Vec::new(),
            max_tokens: 4096,
            temperature: None,
        };
        assert(r@.messages =~= Seq::empty());
        assert(r@.tools =~= Seq::empty());
        r
    }
}

#[derive(Debug, Clone, Copy, PartialEq, Eq, Structural)]
pub enum FinishReason {
    Stop,
    ToolCalls,
    Length,
    Other,
}

#[derive(Debug, Clone, Copy, PartialEq, Eq, Structural)]
pub struct Usage {
    pub input_tokens: u32,
    pub output_tokens: u32,
}

impl Default for Usage {
    fn default() -> (r: Usage)
        ensures
            r == (Usage { input_tokens: 0, output_tokens: 0 }),
    {
        Usage { input_tokens: 0, output_tokens: 0 }
    }
}

/// A provider's reply.
#[derive(Debug)]
pub struct ChatResponse {
    pub content: String,
    pub tool_calls: Vec<ToolCall>,
    pub finish: FinishReason,
    pub usage: Usage,
}

/// The model of a [`ChatResponse`].
#[verifier::ext_equal]
pub struct ChatResponseModel {
    pub content: Seq<char>,
    pub tool_calls: Seq<ToolCallModel>,
    pub finish: FinishReason,
    pub usage: Usage,
}

impl View for ChatResponse {
    type V = ChatResponseModel;

    open spec fn view(&self) -> ChatResponseModel {
        ChatResponseModel {
            content: self.content@,
            tool_calls: views(self.tool_calls@),
            finish: self.finish,
            usage: self.usage,
        }
    }
}

impl ChatResponseModel {
    /// The assistant message that a reply leaves in the history.
    pub open spec fn message(self) -> MessageModel {
        MessageModel {
            role: Role::Assistant,
            content: self.content,
            tool_calls: self.tool_calls,
            tool_call_id: None,
        }
    }
}

impl ChatResponse {
    /// What a provider that does not stream shows of its reply: the text, in one piece,
    /// where there is any.
    pub fn shown_at_once(&self) -> (r: Option<&str>)
        ensures
            match r {
                Some(text) => text@ == self@.content && text@.len() > 0,
                None => self@.content.len() == 0,
            },
    {
        if self.content.as_str().is_empty() {
            None
        } else {
            Some(self.content.as_str())
        }
    }

    /// Convert this reply into the assistant message to append to history.
    pub fn to_message(&self) -> (r: Message)
        ensures
            r@ == self@.message(),
    {
        let r = Message {
            role: Role::Assistant,
            content: self.content.clone(),
            tool_calls: self.tool_calls.clone(),
            tool_call_id: None,
        };
        assert(r@.tool_calls =~= self@.tool_calls);
        r
    }
}

} // verus!
