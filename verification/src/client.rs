//! The client's configuration: construction with defaults, the builder
//! overrides, and the values a caller needs to perform the POST.

use vstd::prelude::*;

use crate::encode::render_request_body;
use crate::encode::request_body_view;

verus! {

/// Spec-level picture of a client's configuration.
pub struct ClientView {
    pub api_key: Seq<char>,
    pub api_url: Seq<char>,
    pub model: Seq<char>,
    pub temperature: Seq<char>,
    pub max_tokens: i32,
}

/// The configuration after overriding the model name.
pub open spec fn with_model_view(c: ClientView, model: Seq<char>) -> ClientView {
    ClientView { model, ..c }
}

/// The configuration after overriding the endpoint URL.
pub open spec fn with_api_url_view(c: ClientView, api_url: Seq<char>) -> ClientView {
    ClientView { api_url, ..c }
}

/// The configuration after overriding the sampling temperature.
pub open spec fn with_temperature_view(c: ClientView, temperature: Seq<char>) -> ClientView {
    ClientView { temperature, ..c }
}

/// The configuration after overriding the response length cap.
pub open spec fn with_max_tokens_view(c: ClientView, max_tokens: i32) -> ClientView {
    ClientView { max_tokens, ..c }
}

/// A configured handle on a chat-completion endpoint: the credential, the
/// URL, and the sampling parameters sent with every request. Values are
/// accepted unvalidated; a bad one surfaces only as the provider's rejection
/// at call time.
///
/// The sampling temperature is carried as the decimal text that appears
/// verbatim as the JSON number in the request body (for example `"0.7"`),
/// since the library holds no floating-point values.
#[derive(Debug, Clone)]
pub struct MistralClient {
    api_key: String,
    api_url: String,
    model: String,
    temperature: String,
    max_tokens: i32,
}

impl View for MistralClient {
    type V = ClientView;

    closed spec fn view(&self) -> ClientView {
        ClientView {
            api_key: self.api_key@,
            api_url: self.api_url@,
            model: self.model@,
            temperature: self.temperature@,
            max_tokens: self.max_tokens,
        }
    }
}

impl MistralClient {
    /// A client for the provider's fixed endpoint with the default model,
    /// temperature 0.7 and a cap of 2000 tokens, owning the given credential.
    pub fn new(api_key: String) -> (c: MistralClient)
        ensures
            c@ == (ClientView {
                api_key: api_key@,
                api_url: "https://api.mistral.ai/v1/chat/completions"@,
                model: "mistral-large-latest"@,
                temperature: "0.7"@,
                max_tokens: 2000,
            }),
    {
        MistralClient {
            api_key,
            api_url: String::from_str("https://api.mistral.ai/v1/chat/completions"),
            model: String::from_str("mistral-large-latest"),
            temperature: String::from_str("0.7"),
            max_tokens: 2000,
        }
    }

    /// The same client aimed at another endpoint (a proxy, a mock, an
    /// alternate deployment).
    pub fn with_api_url(self, api_url: String) -> (c: MistralClient)
        ensures
            c@ == with_api_url_view(self@, api_url@),
    {
        MistralClient { api_url, ..self }
    }

    /// The same client with another model identifier.
    pub fn with_model(self, model: String) -> (c: MistralClient)
        ensures
            c@ == with_model_view(self@, model@),
    {
        MistralClient { model, ..self }
    }

    /// The same client with another sampling temperature, given as the
    /// decimal text to send (for example `"0.1"`).
    pub fn with_temperature(self, temperature: String) -> (c: MistralClient)
        ensures
            c@ == with_temperature_view(self@, temperature@),
    {
        MistralClient { temperature, ..self }
    }

    /// The same client with another response length cap.
    pub fn with_max_tokens(self, max_tokens: i32) -> (c: MistralClient)
        ensures
            c@ == with_max_tokens_view(self@, max_tokens),
    {
        MistralClient { max_tokens, ..self }
    }

    /// The JSON request body sent for one prompt: exactly
    /// [`request_body_view`] of the configured model, temperature and token
    /// cap, with the prompt as the content of a single `system` message.
    pub fn request_body(&self, prompt: &str) -> (r: String)
        ensures
            r@ == request_body_view(self@.model, self@.temperature, self@.max_tokens as int, prompt@),
    {
        render_request_body(self.model.as_str(), self.temperature.as_str(), self.max_tokens, prompt)
    }

    /// The configured endpoint URL, for the caller performing the POST.
    pub fn api_url(&self) -> (r: &str)
        ensures
            r@ == self@.api_url,
    {
        self.api_url.as_str()
    }

    /// The value of the `Authorization` header sent with every request.
    pub fn auth_header_value(&self) -> (r: String)
        ensures
            r@ == "Bearer "@ + self@.api_key,
    {
        String::from_str("Bearer ").concat(self.api_key.as_str())
    }
}

/// Builder overrides propagate into the request body: after overriding the
/// model, the temperature and the token cap, in any starting configuration,
/// the body built for a prompt is exactly the body built from those three
/// override values.
pub proof fn lemma_overrides_propagate(
    c: ClientView,
    model: Seq<char>,
    temperature: Seq<char>,
    max_tokens: i32,
    prompt: Seq<char>,
)
    ensures
        ({
            let d = with_max_tokens_view(
                with_temperature_view(with_model_view(c, model), temperature),
                max_tokens,
            );
            request_body_view(d.model, d.temperature, d.max_tokens as int, prompt)
                == request_body_view(model, temperature, max_tokens as int, prompt)
        }),
{
}

/// Overriding the same setting twice keeps only the last value, whichever
/// setting it is.
pub proof fn lemma_override_idempotent(
    c: ClientView,
    s1: Seq<char>,
    s2: Seq<char>,
    n1: i32,
    n2: i32,
)
    ensures
        with_model_view(with_model_view(c, s1), s2) == with_model_view(c, s2),
        with_api_url_view(with_api_url_view(c, s1), s2) == with_api_url_view(c, s2),
        with_temperature_view(with_temperature_view(c, s1), s2) == with_temperature_view(c, s2),
        with_max_tokens_view(with_max_tokens_view(c, n1), n2) == with_max_tokens_view(c, n2),
{
}

} // verus!
