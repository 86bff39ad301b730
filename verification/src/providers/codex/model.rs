//! The model catalog, the budget of model calls and failed completions.

use vstd::prelude::*;

use super::auth::{is_success_status, AuthError};
use crate::text::{chars_of, same_text, string_from, strip_prefix};

verus! {

/// The version of the client under which the catalog is requested.
pub const MODEL_CATALOG_CLIENT_VERSION: &'static str = "99.99.99";

/// Why the provider could not be used.
#[derive(Debug)]
pub enum CodexModelError {
    Auth(AuthError),
    Client,
    CatalogTransport,
    CatalogRejected { status: u16 },
    CatalogResponse,
}

impl CodexModelError {
    /// The description of an error.
    pub open spec fn description(self) -> Seq<char> {
        match self {
            CodexModelError::Auth(error) => error.description(),
            CodexModelError::Client => "could not construct the Codex model client"@,
            CodexModelError::CatalogTransport => "could not fetch the Codex model catalog"@,
            CodexModelError::CatalogRejected { status } => {
                "Codex model catalog request was rejected with HTTP status "@
                    + crate::text::decimal(status as nat)
            },
            CodexModelError::CatalogResponse => "Codex returned an incompatible model catalog"@,
        }
    }

    /// Describes the error.
    pub fn message(&self) -> (text: String)
        ensures
            text@ == self.description(),
    {
        match self {
            CodexModelError::Auth(error) => error.message(),
            CodexModelError::Client => "could not construct the Codex model client".to_owned(),
            CodexModelError::CatalogTransport => {
                "could not fetch the Codex model catalog".to_owned()
            },
            CodexModelError::CatalogRejected { status } => {
                let mut text =
                    "Codex model catalog request was rejected with HTTP status ".to_owned();
                let status = crate::text::decimal_text(*status as u64);
                text.push_str(&status);
                text
            },
            CodexModelError::CatalogResponse => {
                "Codex returned an incompatible model catalog".to_owned()
            },
        }
    }
}

/// A model that can be selected.
#[derive(Debug)]
pub struct CodexModelInfo {
    pub id: String,
    pub display_name: String,
    pub description: String,
    pub reasoning_efforts: Vec<String>,
    pub default_reasoning_effort: Option<String>,
}

/// A model as the catalog lists it.
#[derive(Debug)]
pub struct RawModelInfo {
    pub slug: String,
    pub display_name: String,
    pub description: String,
    pub visibility: String,
    pub supported_reasoning_levels: Vec<String>,
    pub default_reasoning_level: Option<String>,
}

/// A catalog entry as a model.
pub open spec fn model_from(raw: RawModelInfo) -> CodexModelInfo {
    CodexModelInfo {
        id: raw.slug,
        display_name: raw.display_name,
        description: raw.description,
        reasoning_efforts: raw.supported_reasoning_levels,
        default_reasoning_effort: raw.default_reasoning_level,
    }
}

/// The models of a catalog that are meant to be listed.
pub open spec fn listed_models(raw: Seq<RawModelInfo>) -> Seq<CodexModelInfo>
    decreases raw.len(),
{
    if raw.len() == 0 {
        Seq::empty()
    } else {
        let before = listed_models(raw.drop_last());
        if raw.last().visibility@ == "list"@ {
            before.push(model_from(raw.last()))
        } else {
            before
        }
    }
}

/// Takes the models out of a catalog that are meant to be listed.
pub fn catalog_models(raw: Vec<RawModelInfo>) -> (models: Vec<CodexModelInfo>)
    ensures
        models@ == listed_models(raw@),
{
    let ghost all = raw@;
    let mut left = raw;
    let mut reversed: Vec<CodexModelInfo> = Vec::new();
    assert(listed_models(all) =~= listed_models(left@) + reversed@.reverse());
    while left.len() > 0
        invariant
            listed_models(all) == listed_models(left@) + reversed@.reverse(),
        decreases left@.len(),
    {
        let ghost before = left@;
        let ghost taken = reversed@;
        if let Some(model) = left.pop() {
            assert(left@ =~= before.drop_last());
            if same_text(&model.visibility, "list") {
                reversed.push(
                    CodexModelInfo {
                        id: model.slug,
                        display_name: model.display_name,
                        description: model.description,
                        reasoning_efforts: model.supported_reasoning_levels,
                        default_reasoning_effort: model.default_reasoning_level,
                    },
                );
                assert(reversed@.reverse() =~= seq![model_from(model)] + taken.reverse());
                assert(listed_models(before) + taken.reverse() =~= listed_models(left@)
                    + reversed@.reverse());
            }
        }
    }
    let mut models: Vec<CodexModelInfo> = Vec::new();
    let ghost expected = reversed@.reverse();
    assert(listed_models(left@) =~= Seq::empty());
    assert(expected =~= listed_models(all));
    while reversed.len() > 0
        invariant
            expected == models@ + reversed@.reverse(),
        decreases reversed@.len(),
    {
        let ghost before = reversed@;
        let ghost taken = models@;
        if let Some(model) = reversed.pop() {
            models.push(model);
            assert(before.reverse() =~= seq![model] + reversed@.reverse());
            assert(taken + before.reverse() =~= models@ + reversed@.reverse());
        }
    }
    assert(models@ =~= expected);
    models
}

/// The text without trailing slashes.
pub open spec fn without_slashes(text: Seq<char>) -> Seq<char>
    decreases text.len(),
{
    if text.len() > 0 && text.last() == '/' {
        without_slashes(text.drop_last())
    } else {
        text
    }
}

/// The address of the catalog.
pub fn catalog_url(api_base: &str, client_version: &str) -> (url: String)
    ensures
        url@ == without_slashes(api_base@) + "/models?client_version="@ + client_version@,
{
    let characters = chars_of(api_base);
    let mut end: usize = characters.len();
    assert(characters@.subrange(0, end as int) =~= api_base@);
    while end > 0 && characters[end - 1] == '/'
        invariant
            end <= characters@.len(),
            without_slashes(api_base@) == without_slashes(characters@.subrange(0, end as int)),
        decreases end,
    {
        proof {
            let text = characters@.subrange(0, end as int);
            assert(text.last() == characters@[end - 1]);
            assert(text.drop_last() =~= characters@.subrange(0, end - 1));
        }
        end -= 1;
    }
    proof {
        let text = characters@.subrange(0, end as int);
        if end > 0 {
            assert(text.last() == characters@[end - 1]);
        }
    }
    let mut url = string_from(&characters, 0, end);
    url.push_str("/models?client_version=");
    url.push_str(client_version);
    url
}

/// What became of a catalog request. The models of an answer without success do not matter.
#[derive(Debug)]
pub enum CatalogReply {
    /// No answer came.
    Failed,
    /// An answer; a body that is no catalog is an error.
    Answered { status: u16, models: Result<Vec<RawModelInfo>, ()> },
}

/// The result of a catalog request.
pub fn catalog_result(reply: CatalogReply) -> (result: Result<Vec<CodexModelInfo>, CodexModelError>)
    ensures
        match reply {
            CatalogReply::Failed => result == Err::<Vec<CodexModelInfo>, CodexModelError>(
                CodexModelError::CatalogTransport,
            ),
            CatalogReply::Answered { status, models } => if !(200 <= status <= 299) {
                result == Err::<Vec<CodexModelInfo>, CodexModelError>(
                    CodexModelError::CatalogRejected { status },
                )
            } else {
                match models {
                    Err(_) => result == Err::<Vec<CodexModelInfo>, CodexModelError>(
                        CodexModelError::CatalogResponse,
                    ),
                    Ok(raw) => result is Ok && result->Ok_0@ == listed_models(raw@),
                }
            },
        },
{
    match reply {
        CatalogReply::Failed => Err(CodexModelError::CatalogTransport),
        CatalogReply::Answered { status, models } => {
            if !is_success_status(status) {
                return Err(CodexModelError::CatalogRejected { status });
            }
            match models {
                Err(_) => Err(CodexModelError::CatalogResponse),
                Ok(raw) => Ok(catalog_models(raw)),
            }
        },
    }
}

/// A catalog request was refused for its credentials.
pub open spec fn is_unauthorized(result: Result<Vec<CodexModelInfo>, CodexModelError>) -> bool {
    result == Err::<Vec<CodexModelInfo>, CodexModelError>(
        CodexModelError::CatalogRejected { status: 401 },
    )
}

/// A fetch of the catalog, by what it waits for.
#[derive(Debug)]
pub enum CatalogFetch {
    /// An answer; to the second request where the credentials were refreshed.
    Requesting { refreshed: bool },
    /// New credentials.
    Refreshing,
    /// Nothing any more.
    Finished(Result<Vec<CodexModelInfo>, CodexModelError>),
}

/// What a fetch waited for.
#[derive(Debug)]
pub enum CatalogEvent {
    Answered(Result<Vec<CodexModelInfo>, CodexModelError>),
    Refreshed(Result<(), CodexModelError>),
}

impl CatalogFetch {
    /// An event is the one that the fetch waits for.
    pub open spec fn awaits(self, event: CatalogEvent) -> bool {
        match self {
            CatalogFetch::Requesting { .. } => event is Answered,
            CatalogFetch::Refreshing => event is Refreshed,
            CatalogFetch::Finished(_) => false,
        }
    }

    /// What follows an event: where the first request is refused for its credentials, these are
    /// refreshed and the request is made once more.
    pub open spec fn after(self, event: CatalogEvent) -> CatalogFetch {
        match (self, event) {
            (CatalogFetch::Requesting { refreshed }, CatalogEvent::Answered(result)) => {
                if !refreshed && is_unauthorized(result) {
                    CatalogFetch::Refreshing
                } else {
                    CatalogFetch::Finished(result)
                }
            },
            (CatalogFetch::Refreshing, CatalogEvent::Refreshed(result)) => match result {
                Ok(_) => CatalogFetch::Requesting { refreshed: true },
                Err(error) => CatalogFetch::Finished(Err(error)),
            },
            _ => self,
        }
    }

    /// Begins a fetch.
    pub fn new() -> (fetch: Self)
        ensures
            fetch == (CatalogFetch::Requesting { refreshed: false }),
    {
        CatalogFetch::Requesting { refreshed: false }
    }

    /// Goes on with an event.
    pub fn advance(self, event: CatalogEvent) -> (next: CatalogFetch)
        requires
            self.awaits(event),
        ensures
            next == self.after(event),
    {
        match (self, event) {
            (CatalogFetch::Requesting { refreshed }, CatalogEvent::Answered(result)) => {
                let unauthorized = match &result {
                    Err(CodexModelError::CatalogRejected { status }) => *status == 401,
                    _ => false,
                };
                if !refreshed && unauthorized {
                    CatalogFetch::Refreshing
                } else {
                    CatalogFetch::Finished(result)
                }
            },
            (CatalogFetch::Refreshing, CatalogEvent::Refreshed(result)) => match result {
                Ok(_) => CatalogFetch::Requesting { refreshed: true },
                Err(error) => CatalogFetch::Finished(Err(error)),
            },
            (fetch, _) => fetch,
        }
    }
}

/// The credentials are refreshed once at most, and only where the first request was refused for
/// them; what the second request brings is the result.
pub proof fn lemma_catalog_refreshes_once(fetch: CatalogFetch, event: CatalogEvent)
    requires
        fetch.awaits(event),
    ensures
        fetch.after(event) is Refreshing ==> fetch == (CatalogFetch::Requesting {
            refreshed: false,
        }) && is_unauthorized(event->Answered_0),
        fetch == (CatalogFetch::Requesting { refreshed: true }) ==> fetch.after(event)
            == CatalogFetch::Finished(event->Answered_0),
        fetch is Refreshing ==> fetch.after(event) == (CatalogFetch::Requesting {
            refreshed: true,
        }) || fetch.after(event) is Finished,
{
}

/// A completion failed in one of three ways.
#[derive(Clone, Copy, Debug, PartialEq, Eq, Structural)]
pub enum CodexTransportError {
    HttpRejected(u16),
    Transport,
    IncompatibleResponse,
}

/// A message of the stream's transport.
pub open spec fn is_stream_message(message: Seq<char>) -> bool {
    ||| "Http client error:"@.is_prefix_of(message)
    ||| "Http error:"@.is_prefix_of(message)
    ||| message == "Stream ended"@
    ||| message == "Request in error state, cannot access headers"@
}

/// Why a completion failed.
#[derive(Debug)]
pub enum CompletionFailure {
    /// The request failed, or was answered with a status that is no success.
    Http { status: Option<u16> },
    /// The answer is not of the expected form.
    Json,
    /// The address is invalid.
    Url,
    /// The request could not be built.
    Request,
    /// The answer could not be understood.
    Response(String),
    /// The provider reported an error.
    Provider(String),
    /// The provider answered with an error.
    ProviderResponse { status: Option<u16> },
}

impl CompletionFailure {
    /// The status of the answer, where there is one.
    pub open spec fn status(self) -> Option<u16> {
        match self {
            CompletionFailure::Http { status } => status,
            CompletionFailure::ProviderResponse { status } => status,
            _ => None,
        }
    }
}

/// The kind of a failed completion: by the status of the answer, else by what failed. A message
/// of the stream's transport counts only where the provider reported it.
pub open spec fn classified(failure: CompletionFailure) -> CodexTransportError {
    if failure.status() is Some {
        CodexTransportError::HttpRejected(failure.status()->0)
    } else {
        match failure {
            CompletionFailure::Http { .. } => CodexTransportError::Transport,
            CompletionFailure::Url => CodexTransportError::Transport,
            CompletionFailure::Provider(message) => if is_stream_message(message@) {
                CodexTransportError::Transport
            } else {
                CodexTransportError::IncompatibleResponse
            },
            _ => CodexTransportError::IncompatibleResponse,
        }
    }
}

fn is_stream_transport_error(message: &str) -> (transport: bool)
    ensures
        transport == is_stream_message(message@),
{
    strip_prefix(message, "Http client error:").is_some() || strip_prefix(
        message,
        "Http error:",
    ).is_some() || same_text(message, "Stream ended") || same_text(
        message,
        "Request in error state, cannot access headers",
    )
}

/// Decides the kind of a failed completion.
pub fn classify_completion_error(failure: &CompletionFailure) -> (kind: CodexTransportError)
    ensures
        kind == classified(*failure),
{
    match failure {
        CompletionFailure::Http { status: Some(status) } => CodexTransportError::HttpRejected(
            *status,
        ),
        CompletionFailure::ProviderResponse { status: Some(status) } => {
            CodexTransportError::HttpRejected(*status)
        },
        CompletionFailure::Http { status: None } => CodexTransportError::Transport,
        CompletionFailure::Url => CodexTransportError::Transport,
        CompletionFailure::Provider(message) => {
            if is_stream_transport_error(message) {
                CodexTransportError::Transport
            } else {
                CodexTransportError::IncompatibleResponse
            }
        },
        _ => CodexTransportError::IncompatibleResponse,
    }
}

/// An object with one field set: in its place where the object has the field, else at the end.
pub open spec fn with_field(
    fields: Seq<(String, String)>,
    name: Seq<char>,
    value: Seq<char>,
) -> Seq<(Seq<char>, Seq<char>)> {
    let plain = fields.map_values(|field: (String, String)| (field.0@, field.1@));
    if exists|i: int| 0 <= i < plain.len() && (#[trigger] plain[i]).0 == name {
        let at = choose|i: int|
            0 <= i < plain.len() && (#[trigger] plain[i]).0 == name && forall|j: int|
                0 <= j < i ==> (#[trigger] plain[j]).0 != name;
        plain.update(at, (name, value))
    } else {
        plain.push((name, value))
    }
}

/// The parameters that are sent with a request: those given as an object, by name and JSON text,
/// and that the response is not to be stored.
pub fn request_parameters(given: Option<Vec<(String, String)>>) -> (fields: Vec<(String, String)>)
    ensures
        fields@.map_values(|field: (String, String)| (field.0@, field.1@)) == with_field(
            if given is Some {
                given->0@
            } else {
                Seq::empty()
            },
            "store"@,
            "false"@,
        ),
{
    let mut fields: Vec<(String, String)> = match given {
        Some(fields) => fields,
        None => Vec::new(),
    };
    let ghost before = fields@;
    let ghost plain = before.map_values(|field: (String, String)| (field.0@, field.1@));
    let mut index: usize = 0;
    while index < fields.len()
        invariant
            index <= fields@.len(),
            fields@ == before,
            plain == before.map_values(|field: (String, String)| (field.0@, field.1@)),
            before == (if given is Some {
                given->0@
            } else {
                Seq::empty()
            }),
            forall|j: int| 0 <= j < index ==> (#[trigger] plain[j]).0 != "store"@,
        decreases fields@.len() - index,
    {
        if same_text(&fields[index].0, "store") {
            assert(plain[index as int].0 == "store"@);
            fields.set(index, ("store".to_owned(), "false".to_owned()));
            proof {
                let at = choose|i: int|
                    0 <= i < plain.len() && (#[trigger] plain[i]).0 == "store"@ && forall|j: int|
                        0 <= j < i ==> (#[trigger] plain[j]).0 != "store"@;
                assert(at == index);
                assert(fields@.map_values(|field: (String, String)| (field.0@, field.1@))
                    =~= plain.update(index as int, ("store"@, "false"@)));
            }
            return fields;
        }
        index += 1;
    }
    fields.push(("store".to_owned(), "false".to_owned()));
    assert(fields@.map_values(|field: (String, String)| (field.0@, field.1@)) =~= plain.push(
        ("store"@, "false"@),
    ));
    fields
}

/// How many model calls are left.
#[derive(Clone, Copy, Debug, PartialEq, Eq, Structural)]
pub struct ModelCallBudget {
    pub remaining: usize,
}

impl ModelCallBudget {
    /// A budget of some calls.
    pub fn new(limit: usize) -> (budget: Self)
        ensures
            budget.remaining == limit,
    {
        ModelCallBudget { remaining: limit }
    }

    /// The calls that are left.
    pub fn remaining(&self) -> (remaining: usize)
        ensures
            remaining == self.remaining,
    {
        self.remaining
    }

    /// Takes one call, or says that none is left.
    pub fn consume(&mut self) -> (result: Result<(), &'static str>)
        ensures
            if old(self).remaining == 0 {
                result is Err && result->Err_0@ == "Codex model call budget was exhausted"@
                    && final(self).remaining == 0
            } else {
                result is Ok && final(self).remaining == old(self).remaining - 1
            },
    {
        if self.remaining == 0 {
            return Err("Codex model call budget was exhausted");
        }
        self.remaining = self.remaining - 1;
        Ok(())
    }
}

/// Whether a stream that ended without an error completed its response.
pub fn completion_result(completed: bool) -> (result: Result<(), &'static str>)
    ensures
        if completed {
            result is Ok
        } else {
            result is Err && result->Err_0@
                == "Codex SSE stream did not contain a completed response"@
        },
{
    if completed {
        Ok(())
    } else {
        Err("Codex SSE stream did not contain a completed response")
    }
}

/// The catalog holds the models that are meant to be listed, in the order in which they came, each
/// with all that was told of it.
pub proof fn lemma_only_listed_models_are_offered(raw: Seq<RawModelInfo>, model: RawModelInfo)
    ensures
        model.visibility@ == "list"@ ==> {
            let models = listed_models(raw.push(model));
            &&& models.len() == listed_models(raw).len() + 1
            &&& models.drop_last() == listed_models(raw)
            &&& models.last().id == model.slug
            &&& models.last().display_name == model.display_name
            &&& models.last().description == model.description
            &&& models.last().reasoning_efforts == model.supported_reasoning_levels
            &&& models.last().default_reasoning_effort == model.default_reasoning_level
        },
        model.visibility@ != "list"@ ==> listed_models(raw.push(model)) == listed_models(raw),
        listed_models(Seq::empty()).len() == 0,
        forall|raw: Vec<RawModelInfo>, models: Vec<CodexModelInfo>| #[trigger]
            call_ensures(catalog_models, (raw,), models) ==> models@ == listed_models(raw@),
{
    assert(raw.push(model).drop_last() =~= raw);
    let before = listed_models(raw);
    assert(before.push(model_from(model)).drop_last() =~= before);
}

/// A catalog is accepted exactly from a success whose body is one; every other answer has its own
/// failure.
pub proof fn lemma_catalogs_need_a_success()
    ensures
        forall|reply: CatalogReply, result: Result<Vec<CodexModelInfo>, CodexModelError>| #[trigger]
            call_ensures(catalog_result, (reply,), result) ==> {
                &&& result is Ok <==> reply is Answered && 200 <= reply->status
                    && reply->status < 300 && reply->models is Ok
                &&& result is Ok ==> result->Ok_0@ == listed_models(reply->models->Ok_0@)
                &&& reply is Failed ==> result->Err_0 is CatalogTransport
                &&& reply is Answered && !(200 <= reply->status && reply->status < 300)
                    ==> result->Err_0 == (CodexModelError::CatalogRejected {
                    status: reply->status,
                })
                &&& reply is Answered && 200 <= reply->status && reply->status < 300
                    && reply->models is Err ==> result->Err_0 is CatalogResponse
            },
{
}

/// The catalog is asked for at the base address, with exactly one slash before the path.
pub proof fn lemma_the_catalog_address_has_one_slash(base: Seq<char>)
    ensures
        without_slashes(base.push('/')) == without_slashes(base),
        base.len() > 0 && base.last() != '/' ==> without_slashes(base) == base,
        without_slashes(Seq::empty()).len() == 0,
        forall|api_base: &str, version: &str, url: String| #[trigger]
            call_ensures(catalog_url, (api_base, version), url) ==> url@ == without_slashes(
                api_base@,
            ) + "/models?client_version="@ + version@,
{
    assert(base.push('/').drop_last() =~= base);
}

/// Credentials that were refused are refreshed once, and only then: any other answer, and any
/// answer to the second request, is the result, and so is a refresh that failed.
pub proof fn lemma_catalog_requests_end(fetch: CatalogFetch, event: CatalogEvent)
    requires
        fetch.awaits(event),
    ensures
        fetch is Requesting && event->Answered_0 is Ok ==> fetch.after(event)
            == CatalogFetch::Finished(event->Answered_0),
        fetch is Requesting && event->Answered_0 is Err && event->Answered_0->Err_0 != (
        CodexModelError::CatalogRejected { status: 401 }) ==> fetch.after(event)
            == CatalogFetch::Finished(event->Answered_0),
        fetch == (CatalogFetch::Requesting { refreshed: false }) && event->Answered_0 == Err::<
            Vec<CodexModelInfo>,
            CodexModelError,
        >(CodexModelError::CatalogRejected { status: 401 }) ==> fetch.after(event) is Refreshing,
        fetch is Refreshing && event->Refreshed_0 is Ok ==> fetch.after(event) == (
        CatalogFetch::Requesting { refreshed: true }),
        fetch is Refreshing && event->Refreshed_0 is Err ==> fetch.after(event)
            == CatalogFetch::Finished(Err(event->Refreshed_0->Err_0)),
{
}

/// A status decides first; without one, what never reached the provider is a failure of the
/// transport and what could not be understood an incompatible response.
pub proof fn lemma_failures_are_told_by_their_status()
    ensures
        forall|failure: &CompletionFailure, kind: CodexTransportError| #[trigger]
            call_ensures(classify_completion_error, (failure,), kind) ==> match failure {
                CompletionFailure::Http { status } => if status is Some {
                    kind == CodexTransportError::HttpRejected(status->0)
                } else {
                    kind is Transport
                },
                CompletionFailure::ProviderResponse { status } => if status is Some {
                    kind == CodexTransportError::HttpRejected(status->0)
                } else {
                    kind is IncompatibleResponse
                },
                CompletionFailure::Url => kind is Transport,
                CompletionFailure::Json | CompletionFailure::Request
                | CompletionFailure::Response(_) => kind is IncompatibleResponse,
                CompletionFailure::Provider(message) => {
                    let told = "Http client error:"@.is_prefix_of(message@)
                        || "Http error:"@.is_prefix_of(message@) || message@ == "Stream ended"@
                        || message@ == "Request in error state, cannot access headers"@;
                    (told ==> kind is Transport) && (!told ==> kind is IncompatibleResponse)
                },
            },
{
}

/// Each model call takes one of the budget; the calls that it allows are as many as it began with.
pub proof fn lemma_budgets_allow_their_number_of_calls()
    ensures
        forall|budget: &mut ModelCallBudget, result: Result<(), &'static str>| #[trigger]
            call_ensures(ModelCallBudget::consume, (budget,), result) ==> {
                &&& result is Ok <==> budget.remaining > 0
                &&& result is Ok ==> final(budget).remaining + 1 == budget.remaining
                &&& result is Err ==> final(budget).remaining == 0
            },
        forall|limit: usize, budget: ModelCallBudget| #[trigger]
            call_ensures(ModelCallBudget::new, (limit,), budget) ==> budget.remaining == limit,
        forall|completed: bool, result: Result<(), &'static str>| #[trigger]
            call_ensures(completion_result, (completed,), result) ==> (result is Ok <==> completed),
{
}

/// The parameters of a request keep what was given and say that the response is not stored.
pub proof fn lemma_responses_are_not_stored(fields: Seq<(String, String)>)
    ensures
        ({
            let sent = with_field(fields, "store"@, "false"@);
            &&& sent.contains(("store"@, "false"@))
            &&& forall|i: int|
                0 <= i < fields.len() && (#[trigger] fields[i]).0@ != "store"@ ==> i < sent.len()
                    && sent[i] == (fields[i].0@, fields[i].1@)
            &&& sent.len() <= fields.len() + 1
        }),
{
    let plain = fields.map_values(|field: (String, String)| (field.0@, field.1@));
    let sent = with_field(fields, "store"@, "false"@);
    if exists|i: int| 0 <= i < plain.len() && (#[trigger] plain[i]).0 == "store"@ {
        let some = choose|i: int| 0 <= i < plain.len() && (#[trigger] plain[i]).0 == "store"@;
        lemma_first_field(plain, "store"@, some);
        let at = choose|i: int|
            0 <= i < plain.len() && (#[trigger] plain[i]).0 == "store"@ && forall|j: int|
                0 <= j < i ==> (#[trigger] plain[j]).0 != "store"@;
        assert(sent[at] == ("store"@, "false"@));
        assert forall|i: int| 0 <= i < fields.len() && (#[trigger] fields[i]).0@
            != "store"@ implies i < sent.len() && sent[i] == (fields[i].0@, fields[i].1@) by {
            assert(plain[i] == (fields[i].0@, fields[i].1@));
            assert(i != at);
        }
    } else {
        assert(sent[plain.len() as int] == ("store"@, "false"@));
    }
}

proof fn lemma_first_field(plain: Seq<(Seq<char>, Seq<char>)>, name: Seq<char>, some: int)
    requires
        0 <= some < plain.len(),
        plain[some].0 == name,
    ensures
        exists|i: int|
            0 <= i < plain.len() && (#[trigger] plain[i]).0 == name && forall|j: int|
                0 <= j < i ==> (#[trigger] plain[j]).0 != name,
    decreases some,
{
    if exists|j: int| 0 <= j < some && (#[trigger] plain[j]).0 == name {
        let earlier = choose|j: int| 0 <= j < some && (#[trigger] plain[j]).0 == name;
        lemma_first_field(plain, name, earlier);
    }
}

} // verus!
