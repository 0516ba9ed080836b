//! The errors that a request to the Evervault API can end in, and their texts.

use vstd::prelude::*;

use crate::status::{status_display, status_text};
use crate::text::{contains_text, decimal, lemma_contains_at, lemma_contains_middle, same_text};

verus! {

/// Path of the endpoint that turns plaintext into a token.
pub const ENCRYPT_PATH: &'static str = "/encrypt";

/// Path of the endpoint that turns a token back into plaintext.
pub const DECRYPT_PATH: &'static str = "/decrypt";

/// Why a call to the API failed.
#[derive(Debug)]
pub enum ClientError {
    /// The request could not be sent.
    SendFailed { url: String, cause: String },
    /// The response body could not be read.
    ReadFailed { url: String, cause: String },
    /// `/decrypt` answered 403: the key lacks the `decrypt` permission.
    DecryptForbidden { body: String },
    /// The API answered 401: the credentials are wrong.
    Unauthorized { body: String },
    /// Any other unsuccessful status.
    Api { path: String, status: u16, body: String },
    /// A successful response whose body is not JSON.
    InvalidJson { url: String, raw: String, cause: String },
    /// The JSON response lacks a string member under the requested field.
    MissingField { field: String, response: String },
}

/// `ClientError` with its texts taken as character sequences.
pub enum ErrorView {
    SendFailed { url: Seq<char>, cause: Seq<char> },
    ReadFailed { url: Seq<char>, cause: Seq<char> },
    DecryptForbidden { body: Seq<char> },
    Unauthorized { body: Seq<char> },
    Api { path: Seq<char>, status: u16, body: Seq<char> },
    InvalidJson { url: Seq<char>, raw: Seq<char>, cause: Seq<char> },
    MissingField { field: Seq<char>, response: Seq<char> },
}

impl View for ClientError {
    type V = ErrorView;

    open spec fn view(&self) -> ErrorView {
        match self {
            ClientError::SendFailed { url, cause } => ErrorView::SendFailed {
                url: url@,
                cause: cause@,
            },
            ClientError::ReadFailed { url, cause } => ErrorView::ReadFailed {
                url: url@,
                cause: cause@,
            },
            ClientError::DecryptForbidden { body } => ErrorView::DecryptForbidden { body: body@ },
            ClientError::Unauthorized { body } => ErrorView::Unauthorized { body: body@ },
            ClientError::Api { path, status, body } => ErrorView::Api {
                path: path@,
                status: *status,
                body: body@,
            },
            ClientError::InvalidJson { url, raw, cause } => ErrorView::InvalidJson {
                url: url@,
                raw: raw@,
                cause: cause@,
            },
            ClientError::MissingField { field, response } => ErrorView::MissingField {
                field: field@,
                response: response@,
            },
        }
    }
}

/// Text of the 403-on-decrypt error before the response body.
pub open spec fn forbidden_prefix() -> Seq<char> {
    "decrypt request was forbidden (HTTP 403). Make sure your API key has the `decrypt` permission enabled in the Evervault dashboard. Response body: "@
}

/// Text of the 401 error before the response body.
pub open spec fn unauthorized_prefix() -> Seq<char> {
    "authentication failed (HTTP 401). Check that EV_APP_ID and EV_API_KEY are correct. Response body: "@
}

impl ErrorView {
    /// The one-line message of the error (what `Display` shows).
    pub open spec fn message(self) -> Seq<char> {
        match self {
            ErrorView::SendFailed { url, .. } => "failed to send request to "@ + url,
            ErrorView::ReadFailed { url, .. } => "failed to read response body from "@ + url,
            ErrorView::DecryptForbidden { body } => forbidden_prefix() + body,
            ErrorView::Unauthorized { body } => unauthorized_prefix() + body,
            ErrorView::Api { path, status, body } => "Evervault API error from "@ + path
                + ": HTTP "@ + status_text(status) + ". Body: "@ + body,
            ErrorView::InvalidJson { url, raw, .. } => "failed to parse JSON from "@ + url
                + "; raw response: "@ + raw,
            ErrorView::MissingField { field, response } => "expected string field `"@ + field
                + "` in response, got: "@ + response,
        }
    }

    /// The message followed by the underlying cause, where there is one
    /// (what the alternate `{:#}` form shows).
    pub open spec fn detailed_message(self) -> Seq<char> {
        match self {
            ErrorView::SendFailed { cause, .. } => self.message() + ": "@ + cause,
            ErrorView::ReadFailed { cause, .. } => self.message() + ": "@ + cause,
            ErrorView::InvalidJson { cause, .. } => self.message() + ": "@ + cause,
            _ => self.message(),
        }
    }
}

/// The error for an unsuccessful status from `path`: a 403 from `/decrypt`
/// names the missing permission, a 401 from any path names the credentials,
/// and everything else is reported with its path and status.
pub open spec fn api_error_view(path: Seq<char>, status: u16, body: Seq<char>) -> ErrorView {
    if path == DECRYPT_PATH@ && status == 403 {
        ErrorView::DecryptForbidden { body }
    } else if status == 401 {
        ErrorView::Unauthorized { body }
    } else {
        ErrorView::Api { path, status, body }
    }
}

/// Classifies an unsuccessful response from `path`.
pub fn api_error(path: &str, status: u16, body: &str) -> (e: ClientError)
    ensures
        e@ == api_error_view(path@, status, body@),
{
    if status == 403 && same_text(path, DECRYPT_PATH) {
        ClientError::DecryptForbidden { body: String::from_str(body) }
    } else if status == 401 {
        ClientError::Unauthorized { body: String::from_str(body) }
    } else {
        ClientError::Api { path: String::from_str(path), status, body: String::from_str(body) }
    }
}

impl ClientError {
    /// The one-line message, as the error's `Display` would show it.
    pub fn message(&self) -> (m: String)
        ensures
            m@ == self@.message(),
    {
        let mut m;
        match self {
            ClientError::SendFailed { url, .. } => {
                m = String::from_str("failed to send request to ");
                m.append(url.as_str());
            },
            ClientError::ReadFailed { url, .. } => {
                m = String::from_str("failed to read response body from ");
                m.append(url.as_str());
            },
            ClientError::DecryptForbidden { body } => {
                m = String::from_str(
                    "decrypt request was forbidden (HTTP 403). Make sure your API key has the `decrypt` permission enabled in the Evervault dashboard. Response body: ",
                );
                m.append(body.as_str());
            },
            ClientError::Unauthorized { body } => {
                m = String::from_str(
                    "authentication failed (HTTP 401). Check that EV_APP_ID and EV_API_KEY are correct. Response body: ",
                );
                m.append(body.as_str());
            },
            ClientError::Api { path, status, body } => {
                m = String::from_str("Evervault API error from ");
                m.append(path.as_str());
                m.append(": HTTP ");
                let shown = status_display(*status);
                m.append(shown.as_str());
                m.append(". Body: ");
                m.append(body.as_str());
            },
            ClientError::InvalidJson { url, raw, .. } => {
                m = String::from_str("failed to parse JSON from ");
                m.append(url.as_str());
                m.append("; raw response: ");
                m.append(raw.as_str());
            },
            ClientError::MissingField { field, response } => {
                m = String::from_str("expected string field `");
                m.append(field.as_str());
                m.append("` in response, got: ");
                m.append(response.as_str());
            },
        }
        m
    }

    /// The message followed by the underlying cause, where there is one.
    pub fn detailed_message(&self) -> (m: String)
        ensures
            m@ == self@.detailed_message(),
    {
        let mut m = self.message();
        match self {
            ClientError::SendFailed { cause, .. } | ClientError::ReadFailed { cause, .. }
            | ClientError::InvalidJson { cause, .. } => {
                m.append(": ");
                m.append(cause.as_str());
            },
            _ => {},
        }
        m
    }
}

/// Every error that an unsuccessful status produces quotes the response body
/// in its message.
pub proof fn lemma_api_error_quotes_body(path: Seq<char>, status: u16, body: Seq<char>)
    ensures
        contains_text(api_error_view(path, status, body).message(), body),
{
    let e = api_error_view(path, status, body);
    let m = e.message();
    match e {
        ErrorView::DecryptForbidden { .. } => {
            lemma_contains_middle(forbidden_prefix(), body, Seq::empty());
            assert(forbidden_prefix() + body + Seq::empty() =~= m);
        },
        ErrorView::Unauthorized { .. } => {
            lemma_contains_middle(unauthorized_prefix(), body, Seq::empty());
            assert(unauthorized_prefix() + body + Seq::empty() =~= m);
        },
        _ => {
            let front = "Evervault API error from "@ + path + ": HTTP "@ + status_text(status)
                + ". Body: "@;
            lemma_contains_middle(front, body, Seq::empty());
            assert(front + body + Seq::empty() =~= m);
        },
    }
}

/// An unsuccessful status other than 401, and other than 403 from `/decrypt`,
/// is reported with its path and its number.
pub proof fn lemma_generic_api_error_names_path_and_status(
    path: Seq<char>,
    status: u16,
    body: Seq<char>,
)
    requires
        status != 401,
        !(path == DECRYPT_PATH@ && status == 403),
    ensures
        api_error_view(path, status, body) == (ErrorView::Api { path, status, body }),
        contains_text(api_error_view(path, status, body).message(), path),
        contains_text(api_error_view(path, status, body).message(), decimal(status as nat)),
{
    let m = api_error_view(path, status, body).message();
    let reason = status_text(status).subrange(
        decimal(status as nat).len() as int,
        status_text(status).len() as int,
    );
    let after = ". Body: "@ + body;
    lemma_contains_middle("Evervault API error from "@, path, ": HTTP "@ + status_text(status) + after);
    assert("Evervault API error from "@ + path + (": HTTP "@ + status_text(status) + after) =~= m);
    lemma_contains_middle("Evervault API error from "@ + path + ": HTTP "@, decimal(status as nat), reason + after);
    assert("Evervault API error from "@ + path + ": HTTP "@ + decimal(status as nat) + (reason + after) =~= m);
}

/// A 401 is reported as a credentials problem whatever the path, never as a
/// missing permission.
pub proof fn lemma_unauthorized_names_credentials(path: Seq<char>, body: Seq<char>)
    ensures
        api_error_view(path, 401, body) == (ErrorView::Unauthorized { body }),
        contains_text(api_error_view(path, 401, body).message(), "EV_APP_ID"@),
        contains_text(api_error_view(path, 401, body).message(), "EV_API_KEY"@),
{
    reveal_strlit("authentication failed (HTTP 401). Check that EV_APP_ID and EV_API_KEY are correct. Response body: ");
    reveal_strlit("EV_APP_ID");
    reveal_strlit("EV_API_KEY");
    let m = api_error_view(path, 401, body).message();
    assert(m.subrange(45, 54) =~= "EV_APP_ID"@);
    assert(m.subrange(59, 69) =~= "EV_API_KEY"@);
    lemma_contains_at(m, "EV_APP_ID"@, 45);
    lemma_contains_at(m, "EV_API_KEY"@, 59);
}

/// A 403 from `/decrypt` is reported as a missing `decrypt` permission.
pub proof fn lemma_forbidden_decrypt_names_permission(body: Seq<char>)
    ensures
        api_error_view(DECRYPT_PATH@, 403, body) == (ErrorView::DecryptForbidden { body }),
        contains_text(api_error_view(DECRYPT_PATH@, 403, body).message(), "permission"@),
{
    reveal_strlit("decrypt request was forbidden (HTTP 403). Make sure your API key has the `decrypt` permission enabled in the Evervault dashboard. Response body: ");
    reveal_strlit("permission");
    let m = api_error_view(DECRYPT_PATH@, 403, body).message();
    assert(m.subrange(83, 93) =~= "permission"@);
    lemma_contains_at(m, "permission"@, 83);
}

} // verus!
