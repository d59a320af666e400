//! The answer to a request for the secret.
//!
//! A request first meets the guard. Where it passes, or where no credential
//! is asked for, the answer is the secret in a body of one field, `uri`.
//! Where it is turned away the answer says why in plain text and holds
//! nothing of the configuration.

use crate::auth::{authorize, decision, header_views, presented, Decision, DenyReason, Header,
    HeaderView};
use crate::config::{AgentConfig, AgentConfigView};
use vstd::prelude::*;
use vstd::string::*;
use vstd::utf8::encode_utf8;

verus! {

/// A request for the secret, as far as the answer depends on it.
#[derive(Clone, PartialEq, Eq)]
pub struct Request {
    pub headers: Vec<Header>,
}

/// The body of an answer.
#[derive(Clone, PartialEq, Eq)]
pub enum Body {
    /// The secret, to be written as a JSON object of one field, `uri`.
    Disclosure { uri: String },
    /// A reason in plain text.
    Text { reason: String },
}

/// An answer: an HTTP status and a body.
#[derive(Clone, PartialEq, Eq)]
pub struct Response {
    pub status: u16,
    pub body: Body,
}

/// The mathematical content of a [`Body`].
pub enum BodyView {
    Disclosure { uri: Seq<char> },
    Text { reason: Seq<char> },
}

/// The mathematical content of a [`Response`].
pub struct ResponseView {
    pub status: int,
    pub body: BodyView,
}

impl View for Request {
    type V = Seq<HeaderView>;

    open spec fn view(&self) -> Seq<HeaderView> {
        header_views(self.headers@)
    }
}

impl View for Body {
    type V = BodyView;

    open spec fn view(&self) -> BodyView {
        match self {
            Body::Disclosure { uri } => BodyView::Disclosure { uri: uri@ },
            Body::Text { reason } => BodyView::Text { reason: reason@ },
        }
    }
}

impl View for Response {
    type V = ResponseView;

    open spec fn view(&self) -> ResponseView {
        ResponseView { status: self.status as int, body: self.body@ }
    }
}

/// The words that tell a caller why it is turned away.
pub open spec fn reason_text(reason: DenyReason) -> Seq<char> {
    match reason {
        DenyReason::Missing => "missing API key"@,
        DenyReason::Invalid => "invalid API key"@,
    }
}

/// The answer that discloses `secret`: status 200.
pub open spec fn disclosure(secret: Seq<char>) -> ResponseView {
    ResponseView { status: 200, body: BodyView::Disclosure { uri: secret } }
}

/// The answer that turns a caller away: status 401 and the reason.
pub open spec fn refusal(reason: DenyReason) -> ResponseView {
    ResponseView { status: 401, body: BodyView::Text { reason: reason_text(reason) } }
}

/// What the guard decides under a configuration: every request passes where
/// no credential is asked for.
pub open spec fn guard(credential: Option<Seq<char>>, headers: Seq<HeaderView>) -> Decision {
    match credential {
        Some(expected) => decision(headers, expected),
        None => Decision::Allowed,
    }
}

/// The answer to a request with these headers under a configuration.
pub open spec fn answer(config: AgentConfigView, headers: Seq<HeaderView>) -> ResponseView {
    match guard(config.api_credential, headers) {
        Decision::Allowed => disclosure(config.secret_value),
        Decision::Denied(reason) => refusal(reason),
    }
}

/// The path of the one endpoint, which answers `GET`.
pub fn endpoint_path() -> (r: &'static str)
    ensures
        r@ == "/v1/mongo-uri"@,
{
    "/v1/mongo-uri"
}

/// Answers a request that has passed the guard: status 200 and the secret.
pub fn resolve_handler(config: &AgentConfig) -> (r: Response)
    ensures
        r@ == disclosure(config@.secret_value),
{
    Response { status: 200, body: Body::Disclosure { uri: config.secret_value.clone() } }
}

/// Answers a request that the guard has turned away: status 401 and the
/// reason in plain text.
pub fn refuse(reason: DenyReason) -> (r: Response)
    ensures
        r@ == refusal(reason),
{
    let text = match reason {
        DenyReason::Missing => "missing API key",
        DenyReason::Invalid => "invalid API key",
    };
    Response { status: 401, body: Body::Text { reason: String::from_str(text) } }
}

/// Answers a request. Where the configuration holds a credential the
/// request must present it; the secret is disclosed only then.
pub fn handle(config: &AgentConfig, request: &Request) -> (r: Response)
    ensures
        r@ == answer(config@, request@),
{
    match &config.api_credential {
        None => resolve_handler(config),
        Some(expected) => match authorize(&request.headers, expected.as_str()) {
            Decision::Allowed => resolve_handler(config),
            Decision::Denied(reason) => refuse(reason),
        },
    }
}

/// A request that presents the configured credential is answered with
/// status 200 and the configured secret, whatever else it carries. So is
/// every request where no credential is asked for.
pub proof fn lemma_correct_credential_discloses(config: AgentConfigView, headers: Seq<HeaderView>)
    requires
        config.api_credential matches Some(expected) ==> presented(headers) == Some(
            encode_utf8(expected),
        ),
    ensures
        answer(config, headers) == disclosure(config.secret_value),
        answer(config, headers).status == 200,
        answer(config, headers).body == (BodyView::Disclosure { uri: config.secret_value }),
{
}

/// Where a credential is asked for, a request without the credential header
/// is answered with status 401, and the answer is the same under every
/// configuration: it holds nothing of the secret.
pub proof fn lemma_missing_credential_refused(
    config: AgentConfigView,
    other: AgentConfigView,
    headers: Seq<HeaderView>,
)
    requires
        config.api_credential is Some,
        other.api_credential is Some,
        presented(headers) is None,
    ensures
        answer(config, headers) == refusal(DenyReason::Missing),
        answer(config, headers).status == 401,
        answer(config, headers) == answer(other, headers),
{
}

/// Where a credential is asked for, a request that presents another value
/// is answered with status 401, and the answer does not depend on the
/// secret.
pub proof fn lemma_wrong_credential_refused(
    config: AgentConfigView,
    secret: Seq<char>,
    headers: Seq<HeaderView>,
)
    requires
        config.api_credential is Some,
        presented(headers) is Some,
        presented(headers)->0 != encode_utf8(config.api_credential->0),
    ensures
        answer(config, headers) == refusal(DenyReason::Invalid),
        answer(config, headers).status == 401,
        answer(config, headers) == answer(
            AgentConfigView { secret_value: secret, ..config },
            headers,
        ),
{
}

/// An answer discloses the secret only with status 200, and only where
/// the guard let the request pass.
pub proof fn lemma_disclosure_only_when_allowed(config: AgentConfigView, headers: Seq<HeaderView>)
    ensures
        answer(config, headers).status == 200 || answer(config, headers).status == 401,
        answer(config, headers).status == 200 <==> guard(config.api_credential, headers)
            == Decision::Allowed,
        answer(config, headers).body is Disclosure <==> answer(config, headers).status == 200,
{
}

} // verus!
