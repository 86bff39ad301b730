//! File-backed ChatGPT credentials and their rotation.
//!
//! The caller reads and writes the credential file and talks to the token endpoint. Paths are the
//! bytes of a Unix path.

use vstd::prelude::*;

use crate::instant::{format_rfc3339, rfc3339_text};
use crate::local::paths::{around, below, join_path, name_bytes};
use crate::session::Timestamp;
use crate::snapshot::{duplicate_text, optional_text};
use crate::text::{is_blank, is_blank_text, same_text, text_from_utf8_lossy};

verus! {

/// A text as Rust's `Debug` writes it: what `format!` yields for a `str` under `{:?}`.
pub uninterp spec fn quoted_text(text: Seq<char>) -> Seq<char>;

/// `format!` with `{:?}` on a `str`, which depends on the text alone.
#[verifier::external_body]
fn quote_text(text: &str) -> (quoted: String)
    ensures
        quoted@ == quoted_text(text@),
{
    format!("{text:?}")
}

/// Why the token endpoint refused to refresh.
#[derive(Clone, Copy, Debug, PartialEq, Eq, Structural)]
pub enum RefreshFailure {
    /// The refresh token has expired.
    Expired,
    /// The refresh token was already used.
    Reused,
    /// The refresh token was revoked.
    Revoked,
    /// The service rejected the request.
    Rejected,
}

impl RefreshFailure {
    /// The description of a failure.
    pub open spec fn description(self) -> Seq<char> {
        match self {
            RefreshFailure::Expired => "refresh token expired; run `codex login`"@,
            RefreshFailure::Reused => "refresh token was already used; run `codex login`"@,
            RefreshFailure::Revoked => "refresh token was revoked; run `codex login`"@,
            RefreshFailure::Rejected => {
                "authentication service rejected the refresh; run `codex login`"@
            },
        }
    }

    /// Describes the failure.
    pub fn message(self) -> (text: &'static str)
        ensures
            text@ == self.description(),
    {
        match self {
            RefreshFailure::Expired => "refresh token expired; run `codex login`",
            RefreshFailure::Reused => "refresh token was already used; run `codex login`",
            RefreshFailure::Revoked => "refresh token was revoked; run `codex login`",
            RefreshFailure::Rejected => {
                "authentication service rejected the refresh; run `codex login`"
            },
        }
    }
}

/// Why credentials could not be found, read, checked or refreshed. A source describes a system
/// error.
#[derive(Debug)]
pub enum AuthError {
    HomeDirectoryUnavailable,
    FileRequired { path: Vec<u8> },
    Read { path: Vec<u8>, source: String },
    Malformed { path: Vec<u8> },
    UnsupportedAuthMode { mode: Option<String> },
    MissingCredentialField { field: &'static str },
    RefreshFailed(RefreshFailure),
    ConcurrentCredentialChange,
    CredentialStoreBusy,
    Persist { path: Vec<u8>, source: String },
    RefreshTransport,
}

impl AuthError {
    /// The description of an error.
    pub open spec fn description(self) -> Seq<char> {
        match self {
            AuthError::HomeDirectoryUnavailable => {
                "could not resolve the home directory for Codex credentials"@
            },
            AuthError::FileRequired { path } => around(
                "file-backed Codex credentials are required at "@,
                path@,
                "; set cli_auth_credentials_store = \"file\" and run `codex login`"@,
            ),
            AuthError::Read { path, source } => around(
                "could not read Codex credentials at "@,
                path@,
                ": "@ + source@,
            ),
            AuthError::Malformed { path } => around(
                "Codex credentials at "@,
                path@,
                " are malformed"@,
            ),
            AuthError::UnsupportedAuthMode { mode } => "unsupported Codex auth mode "@ + (
            match mode {
                Some(mode) => "Some("@ + quoted_text(mode@) + ")"@,
                None => "None"@,
            }) + "; sign in with ChatGPT using file-backed storage"@,
            AuthError::MissingCredentialField { field } => {
                "Codex ChatGPT credentials are missing "@ + field@
            },
            AuthError::RefreshFailed(failure) => "Codex token refresh failed: "@
                + failure.description(),
            AuthError::ConcurrentCredentialChange => {
                "Codex credentials changed while refresh was in progress; retry the request"@
            },
            AuthError::CredentialStoreBusy => {
                "Codex credential store is busy; retry the request"@
            },
            AuthError::Persist { path, source } => around(
                "could not persist refreshed Codex credentials at "@,
                path@,
                ": "@ + source@,
            ),
            AuthError::RefreshTransport => "Codex token refresh transport failed"@,
        }
    }

    /// Describes the error.
    pub fn message(&self) -> (text: String)
        ensures
            text@ == self.description(),
    {
        let mut text = String::new();
        match self {
            AuthError::HomeDirectoryUnavailable => {
                text.push_str("could not resolve the home directory for Codex credentials");
            },
            AuthError::FileRequired { path } => {
                text.push_str("file-backed Codex credentials are required at ");
                let path = text_from_utf8_lossy(path.as_slice());
                text.push_str(&path);
                text.push_str("; set cli_auth_credentials_store = \"file\" and run `codex login`");
            },
            AuthError::Read { path, source } => {
                text.push_str("could not read Codex credentials at ");
                let path = text_from_utf8_lossy(path.as_slice());
                text.push_str(&path);
                text.push_str(": ");
                text.push_str(source);
            },
            AuthError::Malformed { path } => {
                text.push_str("Codex credentials at ");
                let path = text_from_utf8_lossy(path.as_slice());
                text.push_str(&path);
                text.push_str(" are malformed");
            },
            AuthError::UnsupportedAuthMode { mode } => {
                text.push_str("unsupported Codex auth mode ");
                match mode {
                    Some(mode) => {
                        let quoted = quote_text(mode);
                        text.push_str("Some(");
                        text.push_str(&quoted);
                        text.push_str(")");
                    },
                    None => {
                        text.push_str("None");
                    },
                }
                text.push_str("; sign in with ChatGPT using file-backed storage");
            },
            AuthError::MissingCredentialField { field } => {
                text.push_str("Codex ChatGPT credentials are missing ");
                text.push_str(field);
            },
            AuthError::RefreshFailed(failure) => {
                text.push_str("Codex token refresh failed: ");
                text.push_str(failure.message());
            },
            AuthError::ConcurrentCredentialChange => {
                text.push_str(
                    "Codex credentials changed while refresh was in progress; retry the request",
                );
            },
            AuthError::CredentialStoreBusy => {
                text.push_str("Codex credential store is busy; retry the request");
            },
            AuthError::Persist { path, source } => {
                text.push_str("could not persist refreshed Codex credentials at ");
                let path = text_from_utf8_lossy(path.as_slice());
                text.push_str(&path);
                text.push_str(": ");
                text.push_str(source);
            },
            AuthError::RefreshTransport => {
                text.push_str("Codex token refresh transport failed");
            },
        }
        assert(text@ =~= self.description());
        text
    }
}

/// A directory that is given and not empty.
pub open spec fn given_directory(directory: Option<Vec<u8>>) -> Option<Seq<u8>> {
    match directory {
        Some(path) => if path@.len() > 0 {
            Some(path@)
        } else {
            None
        },
        None => None,
    }
}

/// Finds the directory of Codex's configuration: a given one, else one below the home directory.
pub fn resolve_codex_home(codex_home: Option<Vec<u8>>, home: Option<Vec<u8>>) -> (result: Result<
    Vec<u8>,
    AuthError,
>)
    ensures
        match (given_directory(codex_home), given_directory(home)) {
            (Some(given), _) => result is Ok && result->Ok_0@ == given,
            (None, Some(home)) => result is Ok && result->Ok_0@ == below(
                home,
                name_bytes(".codex"@),
            ),
            (None, None) => result == Err::<Vec<u8>, AuthError>(
                AuthError::HomeDirectoryUnavailable,
            ),
        },
{
    if let Some(given) = codex_home {
        if given.len() > 0 {
            return Ok(given);
        }
    }
    if let Some(home) = home {
        if home.len() > 0 {
            return Ok(join_path(&home, ".codex"));
        }
    }
    Err(AuthError::HomeDirectoryUnavailable)
}

/// The path of the credential file, from the values of `CODEX_HOME`, `HOME` and `USERPROFILE`.
/// Empty values do not count.
pub fn auth_path(
    codex_home: Option<Vec<u8>>,
    home: Option<Vec<u8>>,
    user_profile: Option<Vec<u8>>,
) -> (result: Result<Vec<u8>, AuthError>)
    ensures
        match given_directory(codex_home) {
            Some(given) => result is Ok && result->Ok_0@ == below(given, name_bytes("auth.json"@)),
            None => match (given_directory(home), given_directory(user_profile)) {
                (Some(home), _) => result is Ok && result->Ok_0@ == below(
                    below(home, name_bytes(".codex"@)),
                    name_bytes("auth.json"@),
                ),
                (None, Some(home)) => result is Ok && result->Ok_0@ == below(
                    below(home, name_bytes(".codex"@)),
                    name_bytes("auth.json"@),
                ),
                (None, None) => result == Err::<Vec<u8>, AuthError>(
                    AuthError::HomeDirectoryUnavailable,
                ),
            },
        },
{
    let home = match home {
        Some(home) if home.len() > 0 => Some(home),
        _ => user_profile,
    };
    let directory = resolve_codex_home(codex_home, home)?;
    Ok(join_path(&directory, "auth.json"))
}

/// The tokens of a credential file.
pub struct TokenDocument {
    pub id_token: Option<String>,
    pub access_token: Option<String>,
    pub refresh_token: Option<String>,
    pub account_id: Option<String>,
    /// Everything else, as JSON text.
    pub extra: String,
}

/// A credential file.
pub struct AuthDocument {
    pub auth_mode: Option<String>,
    pub openai_api_key: Option<String>,
    pub tokens: Option<TokenDocument>,
    /// When the tokens were last refreshed, as JSON text.
    pub last_refresh: Option<String>,
    /// Everything else, as JSON text.
    pub extra: String,
}

/// [`TokenDocument`] as contracts see it.
pub ghost struct TokenView {
    pub id_token: Option<Seq<char>>,
    pub access_token: Option<Seq<char>>,
    pub refresh_token: Option<Seq<char>>,
    pub account_id: Option<Seq<char>>,
    pub extra: Seq<char>,
}

impl DeepView for TokenDocument {
    type V = TokenView;

    open spec fn deep_view(&self) -> TokenView {
        TokenView {
            id_token: optional_text(self.id_token),
            access_token: optional_text(self.access_token),
            refresh_token: optional_text(self.refresh_token),
            account_id: optional_text(self.account_id),
            extra: self.extra@,
        }
    }
}

/// [`AuthDocument`] as contracts see it.
pub ghost struct DocumentView {
    pub auth_mode: Option<Seq<char>>,
    pub openai_api_key: Option<Seq<char>>,
    pub tokens: Option<TokenView>,
    pub last_refresh: Option<Seq<char>>,
    pub extra: Seq<char>,
}

impl DeepView for AuthDocument {
    type V = DocumentView;

    open spec fn deep_view(&self) -> DocumentView {
        DocumentView {
            auth_mode: optional_text(self.auth_mode),
            openai_api_key: optional_text(self.openai_api_key),
            tokens: match self.tokens {
                Some(tokens) => Some(tokens.deep_view()),
                None => None,
            },
            last_refresh: optional_text(self.last_refresh),
            extra: self.extra@,
        }
    }
}

/// Checked ChatGPT credentials.
pub struct CodexCredentials {
    access_token: String,
    refresh_token: String,
    account_id: String,
}

/// [`CodexCredentials`] as contracts see them.
pub ghost struct CredentialsView {
    pub access_token: Seq<char>,
    pub refresh_token: Seq<char>,
    pub account_id: Seq<char>,
}

impl CodexCredentials {
    /// The credentials.
    pub closed spec fn values(&self) -> CredentialsView {
        CredentialsView {
            access_token: self.access_token@,
            refresh_token: self.refresh_token@,
            account_id: self.account_id@,
        }
    }

    /// The account of the credentials.
    pub fn account_id(&self) -> (id: &str)
        ensures
            id@ == self.values().account_id,
    {
        self.account_id.as_str()
    }

    /// The access token.
    pub fn access_token(&self) -> (token: &str)
        ensures
            token@ == self.values().access_token,
    {
        self.access_token.as_str()
    }

    /// The refresh token.
    pub fn refresh_token(&self) -> (token: &str)
        ensures
            token@ == self.values().refresh_token,
    {
        self.refresh_token.as_str()
    }
}

/// A text that is there and not blank.
pub open spec fn filled(value: Option<Seq<char>>) -> bool {
    value is Some && !is_blank(value->0)
}

/// The first field that is missing in tokens.
pub open spec fn missing_field(tokens: Option<TokenView>) -> Option<Seq<char>> {
    match tokens {
        None => Some("tokens"@),
        Some(tokens) => if !filled(tokens.access_token) {
            Some("access_token"@)
        } else if !filled(tokens.refresh_token) {
            Some("refresh_token"@)
        } else if !filled(tokens.account_id) {
            Some("account_id"@)
        } else {
            None
        },
    }
}

/// A document of ChatGPT credentials without a missing field.
pub open spec fn has_credentials(document: DocumentView) -> bool {
    document.auth_mode == Some("chatgpt"@) && missing_field(document.tokens) is None
}

/// The credentials of such a document.
pub open spec fn credentials_of(document: DocumentView) -> CredentialsView {
    CredentialsView {
        access_token: document.tokens->0.access_token->0,
        refresh_token: document.tokens->0.refresh_token->0,
        account_id: document.tokens->0.account_id->0,
    }
}

/// Why a document has no credentials.
pub open spec fn credentials_error(document: DocumentView, error: AuthError) -> bool {
    match error {
        AuthError::UnsupportedAuthMode { mode } => document.auth_mode != Some("chatgpt"@)
            && optional_text(mode) == document.auth_mode,
        AuthError::MissingCredentialField { field } => document.auth_mode == Some("chatgpt"@)
            && missing_field(document.tokens) == Some(field@),
        _ => false,
    }
}

fn required(value: &Option<String>, field: &'static str) -> (result: Result<String, AuthError>)
    ensures
        match result {
            Ok(text) => filled(optional_text(*value)) && text@ == optional_text(*value)->0,
            Err(AuthError::MissingCredentialField { field: missing }) => !filled(
                optional_text(*value),
            ) && missing == field,
            Err(_) => false,
        },
{
    if let Some(text) = value {
        if !is_blank_text(text) {
            return Ok(text.clone());
        }
    }
    Err(AuthError::MissingCredentialField { field })
}

impl AuthDocument {
    /// Checks the credentials of the document.
    pub fn credentials(&self) -> (result: Result<CodexCredentials, AuthError>)
        ensures
            match result {
                Ok(credentials) => has_credentials(self.deep_view()) && credentials.values()
                    == credentials_of(self.deep_view()),
                Err(error) => credentials_error(self.deep_view(), error),
            },
    {
        let chatgpt = match &self.auth_mode {
            Some(mode) => same_text(mode, "chatgpt"),
            None => false,
        };
        if !chatgpt {
            return Err(AuthError::UnsupportedAuthMode { mode: duplicate_text(&self.auth_mode) });
        }
        let tokens = match &self.tokens {
            Some(tokens) => tokens,
            None => {
                return Err(AuthError::MissingCredentialField { field: "tokens" });
            },
        };
        let access_token = required(&tokens.access_token, "access_token")?;
        let refresh_token = required(&tokens.refresh_token, "refresh_token")?;
        let account_id = required(&tokens.account_id, "account_id")?;
        Ok(CodexCredentials { access_token, refresh_token, account_id })
    }
}

/// A credential file that was read.
pub struct AuthFile {
    pub path: Vec<u8>,
    pub document: AuthDocument,
}

/// What became of reading a credential file: `None` where it is absent, and an inner error where
/// it is not a credential document.
pub type AuthRead = Result<Option<Result<AuthDocument, ()>>, String>;

impl AuthFile {
    /// Checks a credential file that was read.
    pub fn load(path: Vec<u8>, read: AuthRead) -> (result: Result<Self, AuthError>)
        ensures
            match result {
                Ok(file) => reads_credentials(read) && file == (AuthFile {
                    path,
                    document: read->Ok_0->0->Ok_0,
                }),
                Err(error) => !reads_credentials(read) && read_error(path, read, error),
            },
    {
        match read {
            Ok(None) => Err(AuthError::FileRequired { path }),
            Err(source) => Err(AuthError::Read { path, source }),
            Ok(Some(Err(_))) => Err(AuthError::Malformed { path }),
            Ok(Some(Ok(document))) => {
                let _ = document.credentials()?;
                Ok(AuthFile { path, document })
            },
        }
    }

    /// Takes the outcome of a refresh over, `None` where there is none.
    pub fn refresh(&mut self, outcome: Option<Result<AuthDocument, AuthError>>) -> (result: Result<
        CodexCredentials,
        AuthError,
    >)
        ensures
            final(self).path == old(self).path,
            match outcome {
                Some(Ok(document)) => final(self).document == document && match result {
                    Ok(credentials) => has_credentials(document.deep_view())
                        && credentials.values() == credentials_of(document.deep_view()),
                    Err(error) => credentials_error(document.deep_view(), error),
                },
                Some(Err(error)) => *final(self) == *old(self) && result == Err::<
                    CodexCredentials,
                    AuthError,
                >(error),
                None => *final(self) == *old(self) && result == Err::<CodexCredentials, AuthError>(
                    AuthError::RefreshTransport,
                ),
            },
    {
        match outcome {
            Some(Ok(document)) => {
                self.document = document;
                self.credentials()
            },
            Some(Err(error)) => Err(error),
            None => Err(AuthError::RefreshTransport),
        }
    }

    /// Checks the credentials of the file.
    pub fn credentials(&self) -> (result: Result<CodexCredentials, AuthError>)
        ensures
            match result {
                Ok(credentials) => has_credentials(self.document.deep_view())
                    && credentials.values() == credentials_of(self.document.deep_view()),
                Err(error) => credentials_error(self.document.deep_view(), error),
            },
    {
        self.document.credentials()
    }
}

/// The error value in a refused refresh.
#[derive(Debug)]
pub enum RefreshErrorValue {
    Code(String),
    Object { code: Option<String> },
}

/// The body of a refused refresh.
#[derive(Debug)]
pub struct RefreshErrorEnvelope {
    pub error: Option<RefreshErrorValue>,
    pub code: Option<String>,
}

/// The code of a refused refresh: the one of its error, else its own.
pub open spec fn error_code_of(envelope: RefreshErrorEnvelope) -> Option<Seq<char>> {
    match envelope.error {
        Some(RefreshErrorValue::Code(code)) => Some(code@),
        Some(RefreshErrorValue::Object { code }) => optional_text(code),
        None => optional_text(envelope.code),
    }
}

/// Finds the code of a refused refresh.
pub fn refresh_error_code(envelope: &RefreshErrorEnvelope) -> (code: Option<String>)
    ensures
        optional_text(code) == error_code_of(*envelope),
{
    match &envelope.error {
        Some(RefreshErrorValue::Code(code)) => Some(code.clone()),
        Some(RefreshErrorValue::Object { code }) => duplicate_text(code),
        None => duplicate_text(&envelope.code),
    }
}

/// The permanent failure that a code or, failing that, a status of the client's fault means.
pub open spec fn failure_of(status: u16, code: Option<Seq<char>>) -> Option<RefreshFailure> {
    if code == Some("refresh_token_expired"@) {
        Some(RefreshFailure::Expired)
    } else if code == Some("refresh_token_reused"@) {
        Some(RefreshFailure::Reused)
    } else if code == Some("refresh_token_invalidated"@) {
        Some(RefreshFailure::Revoked)
    } else if 400 <= status <= 499 {
        Some(RefreshFailure::Rejected)
    } else {
        None
    }
}

/// Whether a status means success.
pub fn is_success_status(status: u16) -> (success: bool)
    ensures
        success == (200 <= status <= 299),
{
    200 <= status && status <= 299
}

/// The error of a refused refresh; its body is `None` where it could not be read.
pub fn refresh_rejection(status: u16, envelope: Option<RefreshErrorEnvelope>) -> (error: AuthError)
    ensures
        error == match failure_of(
            status,
            match envelope {
                Some(envelope) => error_code_of(envelope),
                None => None,
            },
        ) {
            Some(failure) => AuthError::RefreshFailed(failure),
            None => AuthError::RefreshTransport,
        },
{
    let code = match &envelope {
        Some(envelope) => refresh_error_code(envelope),
        None => None,
    };
    if let Some(code) = &code {
        if same_text(code, "refresh_token_expired") {
            return AuthError::RefreshFailed(RefreshFailure::Expired);
        }
        if same_text(code, "refresh_token_reused") {
            return AuthError::RefreshFailed(RefreshFailure::Reused);
        }
        if same_text(code, "refresh_token_invalidated") {
            return AuthError::RefreshFailed(RefreshFailure::Revoked);
        }
    }
    if 400 <= status && status <= 499 {
        AuthError::RefreshFailed(RefreshFailure::Rejected)
    } else {
        AuthError::RefreshTransport
    }
}

/// The body of a successful refresh.
pub struct RefreshResponse {
    pub access_token: Option<String>,
    pub refresh_token: Option<String>,
    pub id_token: Option<String>,
}

/// Checked new tokens.
pub struct Rotation {
    access_token: String,
    refresh_token: Option<String>,
    id_token: Option<String>,
}

/// [`Rotation`] as contracts see it.
pub ghost struct RotationView {
    pub access_token: Seq<char>,
    pub refresh_token: Option<Seq<char>>,
    pub id_token: Option<Seq<char>>,
}

impl Rotation {
    /// The new tokens.
    pub closed spec fn tokens(&self) -> RotationView {
        RotationView {
            access_token: self.access_token@,
            refresh_token: optional_text(self.refresh_token),
            id_token: optional_text(self.id_token),
        }
    }
}

/// The body of a successful refresh holds usable tokens.
pub open spec fn is_rotation(response: RefreshResponse) -> bool {
    &&& filled(optional_text(response.access_token))
    &&& response.refresh_token is Some ==> filled(optional_text(response.refresh_token))
}

/// The tokens of such a body.
pub open spec fn rotation_of(response: RefreshResponse) -> RotationView {
    RotationView {
        access_token: optional_text(response.access_token)->0,
        refresh_token: optional_text(response.refresh_token),
        id_token: optional_text(response.id_token),
    }
}

/// The field that is missing in a body without usable tokens.
pub open spec fn missing_rotation_field(response: RefreshResponse) -> Seq<char> {
    if !filled(optional_text(response.access_token)) {
        "refreshed access_token"@
    } else {
        "refreshed refresh_token"@
    }
}

/// Checks the new tokens: an access token must be there, and a refresh token must not be blank.
pub fn accept_rotation(response: RefreshResponse) -> (result: Result<Rotation, AuthError>)
    ensures
        match result {
            Ok(rotation) => is_rotation(response) && rotation.tokens() == rotation_of(response),
            Err(AuthError::MissingCredentialField { field }) => !is_rotation(response) && field@
                == missing_rotation_field(response),
            Err(_) => false,
        },
{
    let access_token = required(&response.access_token, "refreshed access_token")?;
    if let Some(token) = &response.refresh_token {
        if is_blank_text(token) {
            return Err(AuthError::MissingCredentialField { field: "refreshed refresh_token" });
        }
    }
    Ok(
        Rotation {
            access_token,
            refresh_token: response.refresh_token,
            id_token: response.id_token,
        },
    )
}

/// A new value where there is one, else the old one.
pub open spec fn newer(new: Option<Seq<char>>, old_value: Option<Seq<char>>) -> Option<Seq<char>> {
    if new is Some {
        new
    } else {
        old_value
    }
}

/// The tokens after a rotation.
pub open spec fn rotated_tokens(before: TokenView, rotation: RotationView) -> TokenView {
    TokenView {
        id_token: newer(rotation.id_token, before.id_token),
        access_token: Some(rotation.access_token),
        refresh_token: newer(rotation.refresh_token, before.refresh_token),
        ..before
    }
}

/// The instant of a refresh as JSON text, in RFC 3339; as before where there is no such instant.
pub open spec fn refreshed_at(before: Option<Seq<char>>, now: Timestamp) -> Option<Seq<char>> {
    match rfc3339_text(now.seconds, now.nanoseconds) {
        Some(text) => Some(seq!['"'] + text + seq!['"']),
        None => before,
    }
}

/// A document after a rotation at an instant.
pub open spec fn rotated(document: DocumentView, rotation: RotationView, now: Timestamp) ->
    DocumentView {
    DocumentView {
        tokens: Some(rotated_tokens(document.tokens->0, rotation)),
        last_refresh: refreshed_at(document.last_refresh, now),
        ..document
    }
}

/// The account or the refresh token is another than before.
pub open spec fn changed(before: CredentialsView, current: CredentialsView) -> bool {
    current.account_id != before.account_id || current.refresh_token != before.refresh_token
}

/// Puts new tokens into the document that is on disk now, and the instant of the refresh. Where
/// someone else changed the account or the refresh token in the meantime, theirs stay.
pub fn apply_rotation(
    before: &CodexCredentials,
    current: AuthDocument,
    rotation: Rotation,
    now: Timestamp,
) -> (result: Result<AuthDocument, AuthError>)
    ensures
        if !has_credentials(current.deep_view()) {
            result is Err && credentials_error(current.deep_view(), result->Err_0)
        } else if changed(before.values(), credentials_of(current.deep_view())) {
            result == Err::<AuthDocument, AuthError>(AuthError::ConcurrentCredentialChange)
        } else {
            result is Ok && result->Ok_0.deep_view() == rotated(
                current.deep_view(),
                rotation.tokens(),
                now,
            )
        },
{
    let credentials = current.credentials()?;
    if !same_text(credentials.account_id(), before.account_id()) || !same_text(
        credentials.refresh_token(),
        before.refresh_token(),
    ) {
        return Err(AuthError::ConcurrentCredentialChange);
    }
    let mut document = current;
    if let Some(tokens) = document.tokens.take() {
        document.tokens = Some(
            TokenDocument {
                id_token: match rotation.id_token {
                    Some(token) => Some(token),
                    None => tokens.id_token,
                },
                access_token: Some(rotation.access_token),
                refresh_token: match rotation.refresh_token {
                    Some(token) => Some(token),
                    None => tokens.refresh_token,
                },
                account_id: tokens.account_id,
                extra: tokens.extra,
            },
        );
    }
    if let Some(text) = format_rfc3339(now.seconds, now.nanoseconds) {
        let mut instant = String::new();
        instant.push('"');
        instant.push_str(&text);
        instant.push('"');
        assert(instant@ =~= seq!['"'] + text@ + seq!['"']);
        document.last_refresh = Some(instant);
    }
    Ok(document)
}

/// A document that was rotated has credentials: the new ones, of the same account. Nothing but
/// the tokens and the instant of the refresh changes.
pub proof fn lemma_rotation_keeps_account_and_extras(
    document: DocumentView,
    response: RefreshResponse,
    now: Timestamp,
)
    requires
        has_credentials(document),
        is_rotation(response),
    ensures
        has_credentials(rotated(document, rotation_of(response), now)),
        credentials_of(rotated(document, rotation_of(response), now)) == (CredentialsView {
            access_token: response.access_token->0@,
            refresh_token: if response.refresh_token is Some {
                response.refresh_token->0@
            } else {
                credentials_of(document).refresh_token
            },
            account_id: credentials_of(document).account_id,
        }),
        rotated(document, rotation_of(response), now).auth_mode == document.auth_mode,
        rotated(document, rotation_of(response), now).openai_api_key == document.openai_api_key,
        rotated(document, rotation_of(response), now).last_refresh == refreshed_at(
            document.last_refresh,
            now,
        ),
        rotated(document, rotation_of(response), now).extra == document.extra,
        rotated(document, rotation_of(response), now).tokens->0.extra == document.tokens->0.extra,
{
}

/// The milliseconds that the credential lock may take.
pub const CREDENTIAL_LOCK_TIMEOUT_MILLISECONDS: u64 = 5000;

/// The milliseconds between two attempts to lock.
pub const CREDENTIAL_LOCK_RETRY_MILLISECONDS: u64 = 25;

/// The milliseconds that connecting to the token endpoint may take.
pub const OAUTH_CONNECT_TIMEOUT_MILLISECONDS: u64 = 5000;

/// The milliseconds that the token endpoint may be silent.
pub const OAUTH_READ_TIMEOUT_MILLISECONDS: u64 = 10000;

/// The milliseconds that a refresh request may take.
pub const OAUTH_REQUEST_TIMEOUT_MILLISECONDS: u64 = 30000;

/// The client under which credentials are refreshed.
pub const OAUTH_CLIENT_ID: &'static str = "app_EMoamEEZ73f0CkXaXp7hrann";

/// An attempt to lock the credential file.
#[derive(Debug)]
pub enum LockAttempt {
    Acquired,
    Held,
    Failed(String),
}

/// What follows an attempt to lock.
#[derive(Debug)]
pub enum LockStep {
    /// The lock is held.
    Locked,
    /// Try again after some milliseconds.
    Wait(u64),
    /// Give up.
    GiveUp(AuthError),
}

/// Decides what follows an attempt to lock the credential file: the next one never comes past the
/// timeout, and none comes once it is reached.
pub fn credential_lock_step(
    path: Vec<u8>,
    attempt: LockAttempt,
    elapsed: u64,
    timeout: u64,
    retry_interval: u64,
) -> (step: LockStep)
    ensures
        step == match attempt {
            LockAttempt::Acquired => LockStep::Locked,
            LockAttempt::Failed(source) => LockStep::GiveUp(AuthError::Persist { path, source }),
            LockAttempt::Held => if elapsed >= timeout {
                LockStep::GiveUp(AuthError::CredentialStoreBusy)
            } else if retry_interval < timeout - elapsed {
                LockStep::Wait(retry_interval)
            } else {
                LockStep::Wait((timeout - elapsed) as u64)
            },
        },
{
    match attempt {
        LockAttempt::Acquired => LockStep::Locked,
        LockAttempt::Failed(source) => LockStep::GiveUp(AuthError::Persist { path, source }),
        LockAttempt::Held => {
            if elapsed >= timeout {
                return LockStep::GiveUp(AuthError::CredentialStoreBusy);
            }
            let left: u64 = timeout - elapsed;
            LockStep::Wait(if retry_interval < left { retry_interval } else { left })
        },
    }
}

/// A request for new tokens.
pub struct RefreshRequest {
    pub client_id: &'static str,
    pub grant_type: &'static str,
    pub refresh_token: String,
}

/// What became of a request for new tokens. An answer that could not be read is `Failed` where it
/// reports success, and has no envelope where it does not.
pub enum RefreshReply {
    Failed,
    Rejected { status: u16, envelope: Option<RefreshErrorEnvelope> },
    Accepted(RefreshResponse),
}

/// A refresh of the credentials, by what it waits for.
pub enum CredentialRefresh {
    /// The lock of the credential file.
    Locking,
    /// The credential file.
    Reading,
    /// An answer to a request for new tokens.
    Requesting { before: CodexCredentials },
    /// The credential file, once more.
    Rereading { before: CodexCredentials, rotation: Rotation },
    /// The new credential file.
    Persisting { document: AuthDocument },
    /// Nothing any more.
    Finished(Result<AuthDocument, AuthError>),
}

/// What a refresh waited for.
pub enum RefreshEvent {
    Locked(Result<(), AuthError>),
    Read { path: Vec<u8>, read: AuthRead },
    Replied(RefreshReply),
    Reread { path: Vec<u8>, read: AuthRead, now: Timestamp },
    Persisted(Result<(), AuthError>),
}

/// An event is the one that a refresh waits for.
pub open spec fn awaits(refresh: CredentialRefresh, event: RefreshEvent) -> bool {
    match refresh {
        CredentialRefresh::Locking => event is Locked,
        CredentialRefresh::Reading => event is Read,
        CredentialRefresh::Requesting { .. } => event is Replied,
        CredentialRefresh::Rereading { .. } => event is Reread,
        CredentialRefresh::Persisting { .. } => event is Persisted,
        CredentialRefresh::Finished(_) => false,
    }
}

/// Why a credential file that was read cannot be used.
pub open spec fn read_error(path: Vec<u8>, read: AuthRead, error: AuthError) -> bool {
    match read {
        Ok(None) => error == (AuthError::FileRequired { path }),
        Err(source) => error == (AuthError::Read { path, source }),
        Ok(Some(Err(_))) => error == (AuthError::Malformed { path }),
        Ok(Some(Ok(document))) => credentials_error(document.deep_view(), error),
    }
}

/// A credential file was read and can be used.
pub open spec fn reads_credentials(read: AuthRead) -> bool {
    match read {
        Ok(Some(Ok(document))) => has_credentials(document.deep_view()),
        _ => false,
    }
}

/// The error of a request that brought no new tokens.
pub open spec fn reply_error(reply: RefreshReply, error: AuthError) -> bool {
    match reply {
        RefreshReply::Failed => error is RefreshTransport,
        RefreshReply::Rejected { status, envelope } => error == match failure_of(
            status,
            match envelope {
                Some(envelope) => error_code_of(envelope),
                None => None,
            },
        ) {
            Some(failure) => AuthError::RefreshFailed(failure),
            None => AuthError::RefreshTransport,
        },
        RefreshReply::Accepted(response) => error is MissingCredentialField
            && error->field@ == missing_rotation_field(response),
    }
}

/// A reply brought usable tokens.
pub open spec fn brings_tokens(reply: RefreshReply) -> bool {
    match reply {
        RefreshReply::Accepted(response) => is_rotation(response),
        _ => false,
    }
}

/// The refresh failed with an error.
pub open spec fn failed_with(refresh: CredentialRefresh, error: AuthError) -> bool {
    refresh == CredentialRefresh::Finished(Err(error))
}

impl CredentialRefresh {
    /// What follows an event: the lock comes before the file, the file before the request, and
    /// the file is read again before it is replaced, at the instant that comes with that.
    pub open spec fn follows(self, event: RefreshEvent, next: CredentialRefresh) -> bool {
        match (self, event) {
            (CredentialRefresh::Locking, RefreshEvent::Locked(Ok(_))) => next is Reading,
            (CredentialRefresh::Locking, RefreshEvent::Locked(Err(error))) => failed_with(
                next,
                error,
            ),
            (CredentialRefresh::Reading, RefreshEvent::Read { path, read }) => if reads_credentials(
                read,
            ) {
                next is Requesting && next->Requesting_before.values() == credentials_of(
                    read->Ok_0->0->Ok_0.deep_view(),
                )
            } else {
                exists|error: AuthError| #[trigger]
                    failed_with(next, error) && read_error(path, read, error)
            },
            (
                CredentialRefresh::Requesting { before },
                RefreshEvent::Replied(reply),
            ) => if brings_tokens(reply) {
                next is Rereading && next->Rereading_before == before
                    && next->rotation.tokens() == rotation_of(reply->Accepted_0)
            } else {
                exists|error: AuthError| #[trigger]
                    failed_with(next, error) && reply_error(reply, error)
            },
            (
                CredentialRefresh::Rereading { before, rotation },
                RefreshEvent::Reread { path, read, now },
            ) => if !reads_credentials(read) {
                exists|error: AuthError| #[trigger]
                    failed_with(next, error) && read_error(path, read, error)
            } else {
                let current = read->Ok_0->0->Ok_0.deep_view();
                if changed(before.values(), credentials_of(current)) {
                    failed_with(next, AuthError::ConcurrentCredentialChange)
                } else {
                    next is Persisting && next->document.deep_view() == rotated(
                        current,
                        rotation.tokens(),
                        now,
                    )
                }
            },
            (
                CredentialRefresh::Persisting { document },
                RefreshEvent::Persisted(result),
            ) => next == CredentialRefresh::Finished(
                match result {
                    Ok(_) => Ok(document),
                    Err(error) => Err(error),
                },
            ),
            _ => next == self,
        }
    }

    /// Begins a refresh.
    pub fn new() -> (refresh: Self)
        ensures
            refresh is Locking,
    {
        CredentialRefresh::Locking
    }

    /// The request for new tokens, where the refresh waits for its answer.
    pub fn request(&self) -> (request: Option<RefreshRequest>)
        ensures
            match request {
                Some(request) => self is Requesting && request.client_id@ == OAUTH_CLIENT_ID@
                    && request.grant_type@ == "refresh_token"@ && request.refresh_token@
                    == self->Requesting_before.values().refresh_token,
                None => !(self is Requesting),
            },
    {
        match self {
            CredentialRefresh::Requesting { before } => Some(
                RefreshRequest {
                    client_id: OAUTH_CLIENT_ID,
                    grant_type: "refresh_token",
                    refresh_token: before.refresh_token().to_owned(),
                },
            ),
            _ => None,
        }
    }

    /// Goes on with an event.
    pub fn advance(self, event: RefreshEvent) -> (next: CredentialRefresh)
        requires
            awaits(self, event),
        ensures
            self.follows(event, next),
    {
        match (self, event) {
            (CredentialRefresh::Locking, RefreshEvent::Locked(Ok(_))) => CredentialRefresh::Reading,
            (CredentialRefresh::Locking, RefreshEvent::Locked(Err(error))) => {
                CredentialRefresh::Finished(Err(error))
            },
            (CredentialRefresh::Reading, RefreshEvent::Read { path, read }) => {
                match AuthFile::load(path, read) {
                    Ok(file) => match file.credentials() {
                        Ok(before) => CredentialRefresh::Requesting { before },
                        Err(error) => CredentialRefresh::Finished(Err(error)),
                    },
                    Err(error) => {
                        let next = CredentialRefresh::Finished(Err(error));
                        assert(failed_with(next, error));
                        next
                    },
                }
            },
            (CredentialRefresh::Requesting { before }, RefreshEvent::Replied(reply)) => {
                let result = match reply {
                    RefreshReply::Failed => Err(AuthError::RefreshTransport),
                    RefreshReply::Rejected { status, envelope } => Err(
                        refresh_rejection(status, envelope),
                    ),
                    RefreshReply::Accepted(response) => accept_rotation(response),
                };
                match result {
                    Ok(rotation) => CredentialRefresh::Rereading { before, rotation },
                    Err(error) => {
                        let next = CredentialRefresh::Finished(Err(error));
                        assert(failed_with(next, error));
                        next
                    },
                }
            },
            (
                CredentialRefresh::Rereading { before, rotation },
                RefreshEvent::Reread { path, read, now },
            ) => {
                let file = match AuthFile::load(path, read) {
                    Ok(file) => file,
                    Err(error) => {
                        let next = CredentialRefresh::Finished(Err(error));
                        assert(failed_with(next, error));
                        return next;
                    },
                };
                match apply_rotation(&before, file.document, rotation, now) {
                    Ok(document) => CredentialRefresh::Persisting { document },
                    Err(error) => CredentialRefresh::Finished(Err(error)),
                }
            },
            (CredentialRefresh::Persisting { document }, RefreshEvent::Persisted(result)) => {
                CredentialRefresh::Finished(
                    match result {
                        Ok(_) => Ok(document),
                        Err(error) => Err(error),
                    },
                )
            },
            (refresh, _) => refresh,
        }
    }
}

/// No request for new tokens is sent before the lock is held, and no file is written but after
/// new tokens came and the file was read again, unchanged.
pub proof fn lemma_refresh_is_guarded(
    refresh: CredentialRefresh,
    event: RefreshEvent,
    next: CredentialRefresh,
)
    requires
        awaits(refresh, event),
        refresh.follows(event, next),
    ensures
        next is Requesting ==> refresh is Reading,
        next is Reading ==> refresh is Locking && event is Locked && event->Locked_0 is Ok,
        next is Persisting ==> refresh is Rereading && !changed(
            refresh->Rereading_before.values(),
            credentials_of(event->Reread_read->Ok_0->0->Ok_0.deep_view()),
        ),
        next is Rereading ==> refresh is Requesting && brings_tokens(event->Replied_0),
{
}

/// The refreshes that were begun and not yet finished, as tasks `T`.
pub struct PendingRefreshes<T> {
    next_id: u64,
    tasks: Vec<(u64, T)>,
}

/// The tasks that are not finished.
pub open spec fn unfinished<T>(tasks: Seq<(u64, T)>, finished: Seq<bool>) -> Seq<(u64, T)>
    decreases tasks.len(),
{
    if tasks.len() == 0 {
        Seq::empty()
    } else {
        let before = unfinished(tasks.drop_last(), finished);
        if finished[tasks.len() - 1] {
            before
        } else {
            before.push(tasks.last())
        }
    }
}

impl<T> PendingRefreshes<T> {
    /// The tasks with their numbers.
    pub closed spec fn tasks(&self) -> Seq<(u64, T)> {
        self.tasks@
    }

    /// The number of the next task.
    pub closed spec fn next_id(&self) -> u64 {
        self.next_id
    }

    /// Every task has a number of its own, smaller than the next.
    pub open spec fn wf(&self) -> bool {
        &&& forall|i: int| 0 <= i < self.tasks().len() ==> (#[trigger] self.tasks()[i]).0
            < self.next_id()
        &&& forall|i: int, j: int|
            0 <= i < j < self.tasks().len() ==> (#[trigger] self.tasks()[i]).0 != (
            #[trigger] self.tasks()[j]).0
    }

    /// No tasks.
    pub fn new() -> (pending: Self)
        ensures
            pending.tasks() == Seq::<(u64, T)>::empty(),
            pending.next_id() == 0,
            pending.wf(),
    {
        PendingRefreshes { next_id: 0, tasks: Vec::new() }
    }

    /// The number of tasks.
    pub fn len(&self) -> (count: usize)
        ensures
            count == self.tasks().len(),
    {
        self.tasks.len()
    }

    /// A task by its place.
    pub fn task(&self, index: usize) -> (task: Option<&T>)
        ensures
            match task {
                Some(task) => index < self.tasks().len() && *task == self.tasks()[index as int].1,
                None => index >= self.tasks().len(),
            },
    {
        if index < self.tasks.len() {
            Some(&self.tasks[index].1)
        } else {
            None
        }
    }

    /// Forgets the tasks that are finished; `finished` says of each task whether it is.
    fn prune(&mut self, finished: &[bool])
        requires
            old(self).wf(),
            finished@.len() == old(self).tasks().len(),
        ensures
            final(self).tasks() == unfinished(old(self).tasks(), finished@),
            final(self).next_id() == old(self).next_id(),
            final(self).wf(),
    {
        let ghost all = self.tasks@;
        let mut kept: usize = 0;
        let mut seen: usize = 0;
        assert(all.take(0) =~= Seq::empty());
        assert(unfinished(all.take(0), finished@) =~= Seq::empty());
        assert(unfinished(all.take(0), finished@) + all.skip(0) =~= all);
        while seen < finished.len()
            invariant
                self.wf(),
                self.next_id == old(self).next_id,
                all == old(self).tasks(),
                finished@.len() == all.len(),
                kept <= seen <= all.len(),
                kept == unfinished(all.take(seen as int), finished@).len(),
                self.tasks@ == unfinished(all.take(seen as int), finished@) + all.skip(seen as int),
            decreases finished@.len() - seen,
        {
            let ghost before = self.tasks();
            let ghost kept_tasks = unfinished(all.take(seen as int), finished@);
            proof {
                let longer = all.take(seen + 1);
                assert(longer.drop_last() =~= all.take(seen as int));
                assert(longer.last() == all[seen as int]);
                assert(all.skip(seen as int)[0] == all[seen as int]);
                assert(all.skip(seen as int).skip(1) =~= all.skip(seen + 1));
            }
            if finished[seen] {
                let _ = self.tasks.remove(kept);
                assert(self.tasks@ =~= kept_tasks + all.skip(seen + 1));
                proof {
                    assert forall|i: int| 0 <= i < self.tasks().len() implies (
                    #[trigger] self.tasks()[i]).0 < self.next_id() by {
                        let i_before = if i < kept {
                            i
                        } else {
                            i + 1
                        };
                        assert(self.tasks()[i] == before[i_before]);
                    }
                    assert forall|i: int, j: int| 0 <= i < j < self.tasks().len() implies (
                    #[trigger] self.tasks()[i]).0 != (#[trigger] self.tasks()[j]).0 by {
                        let i_before = if i < kept {
                            i
                        } else {
                            i + 1
                        };
                        assert(self.tasks()[i] == before[i_before]);
                        let j_before = if j < kept {
                            j
                        } else {
                            j + 1
                        };
                        assert(self.tasks()[j] == before[j_before]);
                    }
                }
            } else {
                kept += 1;
                assert(self.tasks@ =~= kept_tasks.push(all[seen as int]) + all.skip(seen + 1));
            }
            seen += 1;
        }
        assert(all.take(seen as int) =~= all);
        assert(self.tasks@ =~= unfinished(all, finished@));
    }

    /// Forgets the tasks that are finished, adds one and returns its number. `finished` says of
    /// each task whether it is finished.
    pub fn register(&mut self, task: T, finished: &[bool]) -> (id: u64)
        requires
            old(self).wf(),
            old(self).next_id() < u64::MAX,
            finished@.len() == old(self).tasks().len(),
        ensures
            id == old(self).next_id(),
            final(self).next_id() == old(self).next_id() + 1,
            final(self).tasks() == unfinished(old(self).tasks(), finished@).push((id, task)),
            final(self).wf(),
    {
        self.prune(finished);
        let ghost before = self.tasks();
        let id: u64 = self.next_id;
        self.next_id = self.next_id + 1;
        self.tasks.push((id, task));
        proof {
            let tasks = self.tasks();
            assert forall|i: int| 0 <= i < tasks.len() implies (#[trigger] tasks[i]).0
                < self.next_id() by {
                if i < before.len() {
                    assert(tasks[i] == before[i]);
                }
            }
            assert forall|i: int, j: int| 0 <= i < j < tasks.len() implies (
            #[trigger] tasks[i]).0 != (#[trigger] tasks[j]).0 by {
                assert(tasks[i] == before[i]);
                if j < before.len() {
                    assert(tasks[j] == before[j]);
                }
            }
        }
        id
    }

    /// Takes a finished task out and hands it back; the last task takes its place.
    pub fn complete(&mut self, id: u64) -> (task: Option<T>)
        requires
            old(self).wf(),
        ensures
            final(self).wf(),
            final(self).next_id() == old(self).next_id(),
            match task {
                Some(task) => exists|i: int|
                    0 <= i < old(self).tasks().len() && (#[trigger] old(self).tasks()[i]) == (
                        id,
                        task,
                    ) && final(self).tasks() == old(self).tasks().update(
                        i,
                        old(self).tasks().last(),
                    ).drop_last(),
                None => final(self).tasks() == old(self).tasks() && forall|i: int|
                    0 <= i < old(self).tasks().len() ==> (#[trigger] old(self).tasks()[i]).0 != id,
            },
    {
        let mut index: usize = 0;
        while index < self.tasks.len()
            invariant
                index <= self.tasks@.len(),
                self.tasks@ == old(self).tasks@,
                self.next_id == old(self).next_id,
                self.wf(),
                forall|i: int| 0 <= i < index ==> (#[trigger] self.tasks@[i]).0 != id,
            decreases self.tasks@.len() - index,
        {
            if self.tasks[index].0 == id {
                let ghost before = self.tasks();
                let (_, task) = self.tasks.swap_remove(index);
                proof {
                    let last = before.len() - 1;
                    assert forall|i: int| 0 <= i < self.tasks().len() implies (
                    #[trigger] self.tasks()[i]).0 < self.next_id() by {
                        let i_before = if i == index {
                            last
                        } else {
                            i
                        };
                        assert(self.tasks()[i] == before[i_before]);
                    }
                    assert forall|i: int, j: int| 0 <= i < j < self.tasks().len() implies (
                    #[trigger] self.tasks()[i]).0 != (#[trigger] self.tasks()[j]).0 by {
                        let i_before = if i == index {
                            last
                        } else {
                            i
                        };
                        assert(self.tasks()[i] == before[i_before]);
                        let j_before = if j == index {
                            last
                        } else {
                            j
                        };
                        assert(self.tasks()[j] == before[j_before]);
                    }
                }
                assert(before[index as int] == (id, task));
                assert(old(self).tasks()[index as int] == (id, task));
                return Some(task);
            }
            index += 1;
        }
        None
    }

    /// Takes every task out, for the caller to wait for.
    pub fn drain(&mut self) -> (tasks: Vec<(u64, T)>)
        ensures
            tasks@ == old(self).tasks(),
            final(self).tasks() == Seq::<(u64, T)>::empty(),
            final(self).next_id() == old(self).next_id(),
            final(self).wf(),
    {
        let mut tasks: Vec<(u64, T)> = Vec::new();
        tasks.append(&mut self.tasks);
        assert(tasks@ =~= old(self).tasks());
        tasks
    }
}

/// The credential file is `auth.json` in the Codex directory that was given, or in `.codex` below
/// the home directory; an empty setting counts as none, and without any there is no file.
pub proof fn lemma_the_credential_file_is_below_the_home()
    ensures
        forall|
            codex_home: Option<Vec<u8>>,
            home: Option<Vec<u8>>,
            profile: Option<Vec<u8>>,
            result: Result<Vec<u8>, AuthError>,
        | #[trigger]
            call_ensures(auth_path, (codex_home, home, profile), result) ==> {
                let given = codex_home is Some && codex_home->0@.len() > 0;
                let at_home = home is Some && home->0@.len() > 0;
                let at_profile = profile is Some && profile->0@.len() > 0;
                &&& result is Ok <==> given || at_home || at_profile
                &&& result is Err ==> result->Err_0 is HomeDirectoryUnavailable
                &&& given ==> result->Ok_0@ == below(codex_home->0@, name_bytes("auth.json"@))
                &&& !given && at_home ==> result->Ok_0@ == below(
                    below(home->0@, name_bytes(".codex"@)),
                    name_bytes("auth.json"@),
                )
                &&& !given && !at_home && at_profile ==> result->Ok_0@ == below(
                    below(profile->0@, name_bytes(".codex"@)),
                    name_bytes("auth.json"@),
                )
            },
        forall|
            codex_home: Option<Vec<u8>>,
            home: Option<Vec<u8>>,
            result: Result<Vec<u8>, AuthError>,
        | #[trigger]
            call_ensures(resolve_codex_home, (codex_home, home), result) ==> {
                let given = codex_home is Some && codex_home->0@.len() > 0;
                let at_home = home is Some && home->0@.len() > 0;
                &&& result is Ok <==> given || at_home
                &&& given ==> result->Ok_0@ == codex_home->0@
                &&& !given && at_home ==> result->Ok_0@ == below(
                    home->0@,
                    name_bytes(".codex"@),
                )
            },
{
}

/// Credentials are taken from a file exactly when it was written by a ChatGPT sign-in and holds an
/// access token, a refresh token and an account that are not blank; then they are those of the
/// file. Otherwise the first thing that is missing is told.
pub proof fn lemma_credentials_are_those_of_the_file()
    ensures
        forall|document: &AuthDocument, result: Result<CodexCredentials, AuthError>| #[trigger]
            call_ensures(AuthDocument::credentials, (document,), result) ==> {
                let chatgpt = document.auth_mode is Some && document.auth_mode->0@ == "chatgpt"@;
                let tokens = document.tokens->0;
                let access = document.tokens is Some && tokens.access_token is Some && !is_blank(
                    tokens.access_token->0@,
                );
                let refresh = document.tokens is Some && tokens.refresh_token is Some && !is_blank(
                    tokens.refresh_token->0@,
                );
                let account = document.tokens is Some && tokens.account_id is Some && !is_blank(
                    tokens.account_id->0@,
                );
                &&& result is Ok <==> chatgpt && access && refresh && account
                &&& result is Ok ==> result->Ok_0.values().access_token == tokens.access_token->0@
                    && result->Ok_0.values().refresh_token == tokens.refresh_token->0@
                    && result->Ok_0.values().account_id == tokens.account_id->0@
                &&& !chatgpt ==> result->Err_0 is UnsupportedAuthMode
                &&& chatgpt && document.tokens is None ==> result->Err_0 is MissingCredentialField
                    && result->Err_0->field@ == "tokens"@
                &&& chatgpt && document.tokens is Some && !access
                    ==> result->Err_0 is MissingCredentialField && result->Err_0->field@
                    == "access_token"@
                &&& chatgpt && access && !refresh ==> result->Err_0 is MissingCredentialField
                    && result->Err_0->field@ == "refresh_token"@
                &&& chatgpt && access && refresh && !account
                    ==> result->Err_0 is MissingCredentialField && result->Err_0->field@
                    == "account_id"@
            },
        forall|path: Vec<u8>, read: AuthRead, result: Result<AuthFile, AuthError>| #[trigger]
            call_ensures(AuthFile::load, (path, read), result) ==> {
                &&& result is Ok ==> result->Ok_0.path == path && read is Ok && read->Ok_0 is Some
                    && read->Ok_0->0 is Ok && result->Ok_0.document == read->Ok_0->0->Ok_0
                &&& read == Ok::<Option<Result<AuthDocument, ()>>, String>(None) ==> result == Err::<
                    AuthFile,
                    AuthError,
                >(AuthError::FileRequired { path })
                &&& read is Err ==> result == Err::<AuthFile, AuthError>(
                    AuthError::Read { path, source: read->Err_0 },
                )
                &&& read is Ok && read->Ok_0 is Some && read->Ok_0->0 is Err ==> result == Err::<
                    AuthFile,
                    AuthError,
                >(AuthError::Malformed { path })
            },
{
}

/// A refused refresh is told by what the service said of the token, wherever in its answer it said
/// so; any other refusal of the request is one, and anything else a failure of the transport.
pub proof fn lemma_refused_refreshes_say_why()
    ensures
        forall|status: u16, envelope: Option<RefreshErrorEnvelope>, error: AuthError| #[trigger]
            call_ensures(refresh_rejection, (status, envelope), error) ==> {
                let value = envelope->0.error;
                let code = if envelope is None {
                    None
                } else if value is Some && value->0 is Code {
                    Some(value->0->Code_0@)
                } else if value is Some {
                    optional_text(value->0->code)
                } else {
                    optional_text(envelope->0.code)
                };
                let known = code == Some("refresh_token_expired"@) || code == Some(
                    "refresh_token_reused"@,
                ) || code == Some("refresh_token_invalidated"@);
                &&& code == Some("refresh_token_expired"@) ==> error == AuthError::RefreshFailed(
                    RefreshFailure::Expired,
                )
                &&& code == Some("refresh_token_reused"@) ==> error == AuthError::RefreshFailed(
                    RefreshFailure::Reused,
                )
                &&& code == Some("refresh_token_invalidated"@) ==> error
                    == AuthError::RefreshFailed(RefreshFailure::Revoked)
                &&& !known && 400 <= status <= 499 ==> error == AuthError::RefreshFailed(
                    RefreshFailure::Rejected,
                )
                &&& !known && !(400 <= status <= 499) ==> error is RefreshTransport
            },
        forall|status: u16, success: bool| #[trigger]
            call_ensures(is_success_status, (status,), success) ==> (success <==> 200 <= status
                && status < 300),
{
    reveal_strlit("refresh_token_expired");
    reveal_strlit("refresh_token_reused");
    reveal_strlit("refresh_token_invalidated");
    assert("refresh_token_expired"@[14] == 'e' && "refresh_token_reused"@[14] == 'r'
        && "refresh_token_invalidated"@[14] == 'i');
}

/// A refresh replaces the access token, and the other tokens where new ones came. It is only
/// written over credentials that are still those of the same account and refresh token; all else
/// in the file stays.
pub proof fn lemma_refreshes_replace_only_the_tokens()
    ensures
        forall|
            before: &CodexCredentials,
            current: AuthDocument,
            rotation: Rotation,
            now: Timestamp,
            result: Result<AuthDocument, AuthError>,
        | #[trigger]
            call_ensures(apply_rotation, (before, current, rotation, now), result) ==> {
                let old_tokens = current.tokens->0.deep_view();
                let new_tokens = result->Ok_0.tokens->0.deep_view();
                &&& result is Ok ==> {
                    &&& current.tokens is Some && result->Ok_0.tokens is Some
                    &&& old_tokens.account_id == Some(before.values().account_id)
                    &&& old_tokens.refresh_token == Some(before.values().refresh_token)
                    &&& new_tokens.access_token == Some(rotation.tokens().access_token)
                    &&& new_tokens.account_id == old_tokens.account_id
                    &&& new_tokens.extra == old_tokens.extra
                    &&& rotation.tokens().refresh_token is Some ==> new_tokens.refresh_token
                        == rotation.tokens().refresh_token
                    &&& rotation.tokens().refresh_token is None ==> new_tokens.refresh_token
                        == old_tokens.refresh_token
                    &&& rotation.tokens().id_token is Some ==> new_tokens.id_token
                        == rotation.tokens().id_token
                    &&& rotation.tokens().id_token is None ==> new_tokens.id_token
                        == old_tokens.id_token
                    &&& optional_text(result->Ok_0.auth_mode) == optional_text(current.auth_mode)
                    &&& optional_text(result->Ok_0.openai_api_key) == optional_text(
                        current.openai_api_key,
                    )
                    &&& result->Ok_0.extra@ == current.extra@
                }
                &&& has_credentials(current.deep_view()) && (old_tokens.account_id != Some(
                    before.values().account_id,
                ) || old_tokens.refresh_token != Some(before.values().refresh_token)) ==> result
                    == Err::<AuthDocument, AuthError>(AuthError::ConcurrentCredentialChange)
            },
        forall|response: RefreshResponse, result: Result<Rotation, AuthError>| #[trigger]
            call_ensures(accept_rotation, (response,), result) ==> {
                &&& result is Ok <==> response.access_token is Some && !is_blank(
                    response.access_token->0@,
                ) && (response.refresh_token is Some ==> !is_blank(response.refresh_token->0@))
                &&& result is Ok ==> result->Ok_0.tokens().access_token
                    == response.access_token->0@ && result->Ok_0.tokens().refresh_token
                    == optional_text(response.refresh_token) && result->Ok_0.tokens().id_token
                    == optional_text(response.id_token)
            },
{
}

/// A lock that is held is tried again until its time is over, and no try comes later than that; a
/// lock that cannot be tried is given up at once.
pub proof fn lemma_locks_are_tried_until_their_time_is_over()
    ensures
        forall|
            path: Vec<u8>,
            attempt: LockAttempt,
            elapsed: u64,
            timeout: u64,
            interval: u64,
            step: LockStep,
        | #[trigger]
            call_ensures(
                credential_lock_step,
                (path, attempt, elapsed, timeout, interval),
                step,
            ) ==> {
                &&& step is Locked <==> attempt is Acquired
                &&& attempt is Failed ==> step is GiveUp && step->GiveUp_0 == (AuthError::Persist {
                    path,
                    source: attempt->Failed_0,
                })
                &&& attempt is Held && elapsed >= timeout ==> step == LockStep::GiveUp(
                    AuthError::CredentialStoreBusy,
                )
                &&& attempt is Held && elapsed < timeout ==> step is Wait && step->Wait_0 <= interval
                    && elapsed + step->Wait_0 <= timeout && (step->Wait_0 == interval || elapsed
                    + step->Wait_0 == timeout)
            },
{
}

/// The steps of a refresh, in their order: lock, read, ask, read again, write. Only what was read
/// is sent, and only what was written is the result.
pub proof fn lemma_refreshes_go_step_by_step()
    ensures
        forall|refresh: CredentialRefresh, event: RefreshEvent, next: CredentialRefresh| #[trigger]
            call_ensures(CredentialRefresh::advance, (refresh, event), next) && awaits(
                refresh,
                event,
            ) ==> {
                &&& refresh is Locking ==> (next is Reading <==> event->Locked_0 is Ok) && (
                event->Locked_0 is Err ==> next == CredentialRefresh::Finished(
                    Err(event->Locked_0->Err_0),
                ))
                &&& refresh is Reading ==> next is Requesting || next is Finished
                &&& refresh is Reading && next is Requesting ==> event->Read_read is Ok
                    && event->Read_read->Ok_0 is Some && event->Read_read->Ok_0->0 is Ok
                    && optional_text(
                    event->Read_read->Ok_0->0->Ok_0.tokens->0.refresh_token,
                ) == Some(next->Requesting_before.values().refresh_token)
                &&& refresh is Requesting ==> next is Rereading || next is Finished
                &&& refresh is Requesting && next is Rereading ==> event->Replied_0 is Accepted
                    && next->Rereading_before == refresh->Requesting_before && optional_text(
                    event->Replied_0->Accepted_0.access_token,
                ) == Some(next->rotation.tokens().access_token)
                &&& refresh is Requesting && !(event->Replied_0 is Accepted) ==> next is Finished
                    && next->Finished_0 is Err
                &&& refresh is Rereading ==> next is Persisting || next is Finished
                    && next->Finished_0 is Err
                &&& refresh is Persisting ==> next is Finished
                &&& refresh is Persisting && event->Persisted_0 is Ok ==> next->Finished_0 == Ok::<
                    AuthDocument,
                    AuthError,
                >(refresh->document)
                &&& refresh is Persisting && event->Persisted_0 is Err ==> next->Finished_0
                    == Err::<AuthDocument, AuthError>(event->Persisted_0->Err_0)
                &&& next is Finished && next->Finished_0 is Ok ==> refresh is Persisting
            },
        forall|refresh: &CredentialRefresh, request: Option<RefreshRequest>| #[trigger]
            call_ensures(CredentialRefresh::request, (refresh,), request) ==> {
                &&& request is Some <==> refresh is Requesting
                &&& request is Some ==> request->0.grant_type@ == "refresh_token"@
                    && request->0.refresh_token@
                    == refresh->Requesting_before.values().refresh_token
            },
{
}

/// A list of tasks with one more at its end, and of the old ones those that had not finished.
pub open spec fn goes_on_with<T>(
    before: Seq<(u64, T)>,
    finished: Seq<bool>,
    after: Seq<(u64, T)>,
    begun: (u64, T),
) -> bool {
    &&& after.len() > 0 && after.last() == begun
    &&& forall|i: int| 0 <= i < before.len() ==> (#[trigger] before[i]).0 != begun.0
    &&& forall|i: int|
        0 <= i < before.len() && !finished[i] ==> after.contains(#[trigger] before[i])
    &&& forall|i: int|
        0 <= i < after.len() - 1 ==> exists|k: int|
            0 <= k < before.len() && !finished[k] && (#[trigger] before[k]) == #[trigger] after[i]
}

/// A refresh that is begun has a number of its own, and beginning it forgets those that finished;
/// a refresh that completes is found by its number, and only it leaves.
pub proof fn lemma_pending_refreshes_are_found_by_number<T>()
    ensures
        forall|pending: &mut PendingRefreshes<T>, task: T, finished: &[bool], id: u64| #[trigger]
            call_ensures(PendingRefreshes::<T>::register, (pending, task, finished), id)
                && pending.wf() && finished@.len() == pending.tasks().len() ==> goes_on_with(
                pending.tasks(),
                finished@,
                final(pending).tasks(),
                (id, task),
            ),
        forall|pending: &mut PendingRefreshes<T>, id: u64, task: Option<T>| #[trigger]
            call_ensures(PendingRefreshes::<T>::complete, (pending, id), task) ==> {
                &&& task is Some <==> exists|i: int|
                    0 <= i < pending.tasks().len() && (#[trigger] pending.tasks()[i]).0 == id
                &&& task is Some ==> pending.tasks().contains((id, task->0)) && final(
                    pending).tasks().len() == pending.tasks().len() - 1
                &&& task is None ==> final(pending).tasks() == pending.tasks()
            },
        forall|pending: &mut PendingRefreshes<T>, tasks: Vec<(u64, T)>| #[trigger]
            call_ensures(PendingRefreshes::<T>::drain, (pending,), tasks) ==> tasks@
                == pending.tasks() && final(pending).tasks().len() == 0,
{
    assert forall|pending: &mut PendingRefreshes<T>, task: T, finished: &[bool], id: u64| #[trigger]
        call_ensures(PendingRefreshes::<T>::register, (pending, task, finished), id)
            && pending.wf() && finished@.len() == pending.tasks().len() implies goes_on_with(
        pending.tasks(),
        finished@,
        final(pending).tasks(),
        (id, task),
    ) by {
        lemma_going_on_with(pending.tasks(), finished@, (id, task));
    }
}

proof fn lemma_going_on_with<T>(before: Seq<(u64, T)>, finished: Seq<bool>, begun: (u64, T))
    requires
        forall|i: int| 0 <= i < before.len() ==> (#[trigger] before[i]).0 != begun.0,
    ensures
        goes_on_with(before, finished, unfinished(before, finished).push(begun), begun),
{
    let kept = unfinished(before, finished);
    let after = kept.push(begun);
    lemma_unfinished_tasks(before, finished);
    assert forall|i: int| 0 <= i < before.len() && !finished[i] implies after.contains(
        #[trigger] before[i],
    ) by {
        let k = choose|k: int| 0 <= k < kept.len() && kept[k] == before[i];
        assert(after[k] == before[i]);
    }
    assert forall|i: int| 0 <= i < after.len() - 1 implies exists|k: int|
        0 <= k < before.len() && !finished[k] && (#[trigger] before[k])
            == #[trigger] after[i] by {
        assert(after[i] == kept[i]);
    }
}

proof fn lemma_unfinished_tasks<T>(tasks: Seq<(u64, T)>, finished: Seq<bool>)
    ensures
        forall|i: int|
            0 <= i < tasks.len() && !finished[i] ==> unfinished(tasks, finished).contains(
                #[trigger] tasks[i],
            ),
        forall|i: int|
            0 <= i < unfinished(tasks, finished).len() ==> exists|k: int|
                0 <= k < tasks.len() && !finished[k] && (#[trigger] tasks[k])
                    == #[trigger] unfinished(tasks, finished)[i],
    decreases tasks.len(),
{
    if tasks.len() > 0 {
        let shorter = tasks.drop_last();
        lemma_unfinished_tasks(shorter, finished);
        let before = unfinished(shorter, finished);
        let kept = unfinished(tasks, finished);
        assert forall|i: int| 0 <= i < tasks.len() && !finished[i] implies kept.contains(
            #[trigger] tasks[i],
        ) by {
            if i < shorter.len() {
                assert(shorter[i] == tasks[i]);
                let k = choose|k: int| 0 <= k < before.len() && before[k] == tasks[i];
                assert(kept[k] == tasks[i]);
            } else {
                assert(kept[before.len() as int] == tasks[i]);
            }
        }
        assert forall|i: int| 0 <= i < kept.len() implies exists|k: int|
            0 <= k < tasks.len() && !finished[k] && (#[trigger] tasks[k])
                == #[trigger] kept[i] by {
            if i < before.len() {
                let k = choose|k: int|
                    0 <= k < shorter.len() && !finished[k] && (#[trigger] shorter[k]) == before[i];
                assert(tasks[k] == kept[i]);
            } else {
                assert(tasks[tasks.len() - 1] == kept[i]);
            }
        }
    }
}

} // verus!
