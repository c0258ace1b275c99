//! What the adapters share: HTTP requests as data, and small JSON readers.
use vstd::prelude::*;

use crate::config::{ProviderConfig, ProviderConfigModel};
use crate::error::{outcome, Error, ErrorModel};
use crate::json::{Json, JsonModel};
use crate::text::{cat2, cat3, cat5, opt_view, pair_views, trim_end_char, trim_end_char_of};

verus! {

/// A POST request with a JSON body, ready to be sent.
pub struct HttpRequest {
    pub url: String,
    /// Bearer token, if the endpoint takes one.
    pub bearer: Option<String>,
    /// Further headers, in order.
    pub headers: Vec<(String, String)>,
    pub body: Json,
}

/// The model of an [`HttpRequest`].
#[verifier::ext_equal]
pub struct HttpRequestModel {
    pub url: Seq<char>,
    pub bearer: Option<Seq<char>>,
    pub headers: Seq<(Seq<char>, Seq<char>)>,
    pub body: JsonModel,
}

impl View for HttpRequest {
    type V = HttpRequestModel;

    open spec fn view(&self) -> HttpRequestModel {
        HttpRequestModel {
            url: self.url@,
            bearer: opt_view(self.bearer),
            headers: pair_views(self.headers@),
            body: self.body@,
        }
    }
}

/// An optional text in JSON: null where there is none.
pub open spec fn opt_text_json(o: Option<Seq<char>>) -> JsonModel {
    match o {
        Some(s) => JsonModel::Str(s),
        None => JsonModel::Null,
    }
}

pub fn opt_text(o: &Option<String>) -> (r: Json)
    ensures
        r@ == opt_text_json(opt_view(*o)),
{
    match o {
        Some(s) => Json::Str(s.clone()),
        None => Json::Null,
    }
}

/// A token count in a reply: the low 32 bits of the number, zero where there is none.
pub open spec fn token_count(v: JsonModel) -> u32 {
    match v.uint() {
        Some(n) => n as u32,
        None => 0,
    }
}

pub fn tokens(v: &Json) -> (r: u32)
    ensures
        r == token_count(v@),
{
    match v.uint() {
        Some(n) => #[verifier::truncate]
        (n as u32),
        None => 0,
    }
}

/// A base address and the path behind it, with no slash doubled.
pub open spec fn endpoint_of(base: Seq<char>, path: Seq<char>) -> Seq<char> {
    trim_end_char_of(base, '/') + path
}

pub fn endpoint(base: &str, path: &str) -> (r: String)
    ensures
        r@ == endpoint_of(base@, path@),
{
    cat2(trim_end_char(base, '/').as_str(), path)
}

/// Where an adapter sends its requests, and as whom.
pub struct Endpoint {
    /// The config handle.
    pub name: String,
    pub base_url: String,
    /// The model identifier sent to the provider.
    pub model: String,
    pub api_key: Option<String>,
}

/// The model of an [`Endpoint`].
#[verifier::ext_equal]
pub struct EndpointModel {
    pub name: Seq<char>,
    pub base_url: Seq<char>,
    pub model: Seq<char>,
    pub api_key: Option<Seq<char>>,
}

impl View for Endpoint {
    type V = EndpointModel;

    open spec fn view(&self) -> EndpointModel {
        EndpointModel {
            name: self.name@,
            base_url: self.base_url@,
            model: self.model@,
            api_key: opt_view(self.api_key),
        }
    }
}

impl EndpointModel {
    /// The endpoint that a config entry stands for; without an address of its own
    /// it is at `default_base`.
    pub open spec fn configured(
        cfg: ProviderConfigModel,
        default_base: Seq<char>,
        api_key: Option<Seq<char>>,
    ) -> EndpointModel {
        EndpointModel {
            name: cfg.name,
            base_url: match cfg.base_url {
                Some(base) => base,
                None => default_base,
            },
            model: cfg.model,
            api_key,
        }
    }
}

impl Endpoint {
    pub fn new(cfg: &ProviderConfig, default_base: &str, api_key: Option<String>) -> (r: Endpoint)
        ensures
            r@ == EndpointModel::configured(cfg@, default_base@, opt_view(api_key)),
    {
        Endpoint {
            name: cfg.name.clone(),
            base_url: match &cfg.base_url {
                Some(base) => base.clone(),
                None => default_base.to_owned(),
            },
            model: cfg.model.clone(),
            api_key,
        }
    }
}

/// What came of sending a request.
#[derive(Debug)]
pub enum HttpReply {
    /// No response came; the message of the failure.
    Unsent(String),
    /// The body of the response could not be read; the message of the failure.
    Unread(String),
    /// A response: its status code, the status in words, and its body.
    Full { code: u16, status: String, body: String },
}

/// The model of an [`HttpReply`].
#[verifier::ext_equal]
pub enum HttpReplyModel {
    Unsent(Seq<char>),
    Unread(Seq<char>),
    Full { code: u16, status: Seq<char>, body: Seq<char> },
}

impl View for HttpReply {
    type V = HttpReplyModel;

    open spec fn view(&self) -> HttpReplyModel {
        match *self {
            HttpReply::Unsent(e) => HttpReplyModel::Unsent(e@),
            HttpReply::Unread(e) => HttpReplyModel::Unread(e@),
            HttpReply::Full { code, status, body } => HttpReplyModel::Full {
                code,
                status: status@,
                body: body@,
            },
        }
    }
}

/// A status code that says the request was carried out.
pub open spec fn is_success_code(code: u16) -> bool {
    200 <= code < 300
}

pub fn is_success(code: u16) -> (r: bool)
    ensures
        r == is_success_code(code),
{
    200 <= code && code < 300
}

/// The error for a response whose status is no success.
pub open spec fn refusal_of(label: Seq<char>, status: Seq<char>, body: Seq<char>) -> ErrorModel {
    ErrorModel::Provider(label + " "@ + status + ": "@ + body)
}

pub fn refusal(label: &str, status: &str, body: &str) -> (r: Error)
    ensures
        r@ == refusal_of(label@, status@, body@),
{
    Error::Provider(cat5(label, " ", status, ": ", body))
}

/// The body of a successful reply, or the error that stands for the reply.
pub open spec fn accepted(label: Seq<char>, reply: HttpReplyModel) -> Result<Seq<char>, ErrorModel> {
    match reply {
        HttpReplyModel::Unsent(e) => Err(ErrorModel::Provider(label + " request: "@ + e)),
        HttpReplyModel::Unread(e) => Err(ErrorModel::Provider(label + " body: "@ + e)),
        HttpReplyModel::Full { code, status, body } => if is_success_code(code) {
            Ok(body)
        } else {
            Err(refusal_of(label, status, body))
        },
    }
}

pub fn accept(label: &str, reply: HttpReply) -> (r: Result<String, Error>)
    ensures
        outcome(r) == accepted(label@, reply@),
{
    match reply {
        HttpReply::Unsent(e) => Err(Error::Provider(cat3(label, " request: ", e.as_str()))),
        HttpReply::Unread(e) => Err(Error::Provider(cat3(label, " body: ", e.as_str()))),
        HttpReply::Full { code, status, body } => if is_success(code) {
            Ok(body)
        } else {
            Err(refusal(label, status.as_str(), body.as_str()))
        },
    }
}

} // verus!
