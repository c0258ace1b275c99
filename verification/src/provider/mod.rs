//! Provider abstraction: three wire adapters over one set of message types.
//!
//! Concrete models are config entries ([`crate::config::ProviderConfig`]); the
//! adapter chosen depends only on [`crate::config::ProviderKind`]. This is the
//! "any agent, any API" core: a new endpoint is a config block, not code.
pub mod anthropic;
pub mod gemini;
pub mod openai;
pub mod sse;
pub mod types;
pub mod wire;

use vstd::prelude::*;

use crate::config::{ProviderConfig, ProviderConfigModel, ProviderKind};
use crate::error::{outcome, Error, ErrorModel};
use crate::keystore::{resolve, resolved, KeySources, KeySourcesModel};
use crate::provider::anthropic::AnthropicAdapter;
use crate::provider::gemini::GeminiAdapter;
use crate::provider::openai::OpenAiAdapter;
use crate::provider::types::{ChatRequest, ChatRequestModel, ChatResponse, ChatResponseModel};
use crate::provider::wire::{
    EndpointModel, HttpReply, HttpReplyModel, HttpRequest, HttpRequestModel,
};
use crate::text::cat2;

verus! {

/// A chat-completions backend with tool-calling, normalised to ADE types.
pub enum Provider {
    Openai(OpenAiAdapter),
    Anthropic(AnthropicAdapter),
    Gemini(GeminiAdapter),
}

/// The model of a [`Provider`]: the protocol it speaks, and with whom.
#[verifier::ext_equal]
pub struct ProviderModel {
    pub kind: ProviderKind,
    pub to: EndpointModel,
}

impl View for Provider {
    type V = ProviderModel;

    open spec fn view(&self) -> ProviderModel {
        match *self {
            Provider::Openai(a) => ProviderModel { kind: ProviderKind::Openai, to: a@ },
            Provider::Anthropic(a) => ProviderModel { kind: ProviderKind::Anthropic, to: a@ },
            Provider::Gemini(a) => ProviderModel { kind: ProviderKind::Gemini, to: a@ },
        }
    }
}

/// The address of a provider whose config gives none.
pub open spec fn default_base(kind: ProviderKind) -> Seq<char> {
    match kind {
        ProviderKind::Openai => "https://api.openai.com/v1"@,
        ProviderKind::Anthropic => "https://api.anthropic.com"@,
        ProviderKind::Gemini => "https://generativelanguage.googleapis.com"@,
    }
}

/// The key of a provider, where its config names one.
pub open spec fn key_of(cfg: ProviderConfigModel, keys: KeySourcesModel) -> Result<
    Option<Seq<char>>,
    ErrorModel,
> {
    match cfg.api_key {
        Some(reference) => match resolved(reference, keys) {
            Ok(key) => Ok(Some(key)),
            Err(e) => Err(e),
        },
        None => Ok(None),
    }
}

/// The provider that a config entry stands for.
pub open spec fn built(cfg: ProviderConfigModel, keys: KeySourcesModel) -> Result<
    ProviderModel,
    ErrorModel,
> {
    match key_of(cfg, keys) {
        Ok(key) => Ok(
            ProviderModel {
                kind: cfg.kind,
                to: EndpointModel::configured(cfg, default_base(cfg.kind), key),
            },
        ),
        Err(e) => Err(e),
    }
}

/// Build a provider from its config, resolving the API key in `keys`.
pub fn build(cfg: &ProviderConfig, keys: &KeySources) -> (r: Result<Provider, Error>)
    ensures
        outcome(r) == built(cfg@, keys@),
{
    let api_key = match &cfg.api_key {
        Some(reference) => match resolve(reference.as_str(), keys) {
            Ok(key) => Some(key),
            Err(e) => return Err(e),
        },
        None => None,
    };
    Ok(
        match cfg.kind {
            ProviderKind::Openai => Provider::Openai(OpenAiAdapter::new(cfg, api_key)),
            ProviderKind::Anthropic => Provider::Anthropic(AnthropicAdapter::new(cfg, api_key)),
            ProviderKind::Gemini => Provider::Gemini(GeminiAdapter::new(cfg, api_key)),
        },
    )
}

/// The error for an HTTP client that could not be set up.
pub open spec fn client_error(message: Seq<char>) -> ErrorModel {
    ErrorModel::Provider("http client: "@ + message)
}

/// The error for an HTTP client that could not be set up.
pub fn client_failed(message: &str) -> (r: Error)
    ensures
        r@ == client_error(message@),
{
    Error::Provider(cat2("http client: ", message))
}

impl ProviderModel {
    /// The request for a completion.
    pub open spec fn request(self, req: ChatRequestModel) -> Result<HttpRequestModel, ErrorModel> {
        match self.kind {
            ProviderKind::Openai => Ok(
                openai::chat_request(self.to, openai::body_members(req)),
            ),
            ProviderKind::Anthropic => Ok(anthropic::completion_request(self.to, req)),
            ProviderKind::Gemini => gemini::completion_request(self.to, req),
        }
    }

    /// The completion that an HTTP reply holds.
    pub open spec fn completed(self, reply: HttpReplyModel) -> Result<
        ChatResponseModel,
        ErrorModel,
    > {
        match self.kind {
            ProviderKind::Openai => openai::completed(reply),
            ProviderKind::Anthropic => anthropic::completed(reply),
            ProviderKind::Gemini => gemini::completed(reply),
        }
    }
}

impl Provider {
    /// Human-readable name (the config handle).
    pub fn name(&self) -> (r: &str)
        ensures
            r@ == self@.to.name,
    {
        match self {
            Provider::Openai(a) => a.name(),
            Provider::Anthropic(a) => a.name(),
            Provider::Gemini(a) => a.name(),
        }
    }

    /// The request for a single non-streaming completion.
    pub fn complete_request(&self, req: &ChatRequest) -> (r: Result<HttpRequest, Error>)
        ensures
            outcome(r) == self@.request(req@),
    {
        match self {
            Provider::Openai(a) => Ok(a.complete_request(req)),
            Provider::Anthropic(a) => Ok(a.complete_request(req)),
            Provider::Gemini(a) => a.complete_request(req),
        }
    }

    /// The completion that came back.
    pub fn complete(&self, reply: HttpReply) -> (r: Result<ChatResponse, Error>)
        ensures
            outcome(r) == self@.completed(reply@),
    {
        match self {
            Provider::Openai(a) => a.complete(reply),
            Provider::Anthropic(a) => a.complete(reply),
            Provider::Gemini(a) => a.complete(reply),
        }
    }
}

/// A provider keeps to the model of its config entry: whatever model a request
/// names, the one that is asked is the configured one.
pub proof fn law_configured_model(
    p: ProviderModel,
    req: ChatRequestModel,
    other: ChatRequestModel,
)
    requires
        other == (ChatRequestModel { model: other.model, ..req }),
    ensures
        p.request(req) == p.request(other),
{
    match p.kind {
        ProviderKind::Openai => {
            assert(openai::body_members(req).insert(
                "model"@,
                crate::json::JsonModel::Str(p.to.model),
            ) =~= openai::body_members(other).insert(
                "model"@,
                crate::json::JsonModel::Str(p.to.model),
            ));
        },
        ProviderKind::Anthropic => {
            assert(anthropic::body_members(req).insert(
                "model"@,
                crate::json::JsonModel::Str(p.to.model),
            ) =~= anthropic::body_members(other).insert(
                "model"@,
                crate::json::JsonModel::Str(p.to.model),
            ));
        },
        ProviderKind::Gemini => {},
    }
}

/// A key goes to its provider and nowhere else: it is in no body that is sent, and
/// what is read from a reply, and so gets into a history, does not depend on it.
pub proof fn law_key_stays_out(
    a: ProviderModel,
    b: ProviderModel,
    req: ChatRequestModel,
    reply: HttpReplyModel,
)
    requires
        a.kind == b.kind,
        b.to == (EndpointModel { api_key: b.to.api_key, ..a.to }),
    ensures
        a.completed(reply) == b.completed(reply),
        a.request(req) is Ok && b.request(req) is Ok ==> a.request(req)->Ok_0.body == b.request(
            req,
        )->Ok_0.body,
        openai::chat_request(a.to, openai::stream_members(req)).body == openai::chat_request(
            b.to,
            openai::stream_members(req),
        ).body,
{
}

/// A provider without a key can always be built, whatever the environment.
pub proof fn law_build_without_key(
    cfg: ProviderConfigModel,
    a: KeySourcesModel,
    b: KeySourcesModel,
)
    requires
        cfg.api_key is None,
    ensures
        built(cfg, a) is Ok,
        built(cfg, a) == built(cfg, b),
{
}

} // verus!
