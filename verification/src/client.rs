//! The Evervault client without its network: it holds the credentials header
//! and the base URL, frames each request, and decides what a response means.
//! The HTTP exchange itself is performed by the caller between the two steps.

use vstd::prelude::*;
use vstd::utf8::encode_utf8;

use crate::error::{api_error, api_error_view, ClientError, ErrorView, DECRYPT_PATH, ENCRYPT_PATH};
use crate::json::{
    lemma_extract_field_returns_member_string,
    extract_field, extract_field_view, json_parse, json_single_member_object, parse_json,
    single_member_object_text, string_member, JsonDocument,
};
use crate::status::{is_success, is_success_status};
use crate::text::{contains_text, lemma_contains_middle, trim_end_slashes, trim_trailing_slashes};

verus! {

/// The production endpoint of the Evervault REST API.
pub const API_BASE: &'static str = "https://api.evervault.com";

/// The media type of every request body.
pub const JSON_CONTENT_TYPE: &'static str = "application/json";

/// What `base64::engine::general_purpose::STANDARD.encode` returns for the
/// given bytes (the standard alphabet, with `=` padding).
pub uninterp spec fn base64_standard(bytes: Seq<u8>) -> Seq<char>;

/// `n` input bytes can be encoded without the encoded length overflowing
/// `usize` (the encoder panics otherwise).
pub open spec fn base64_fits(n: int) -> bool {
    (n + 2) / 3 * 4 <= usize::MAX
}

/// Calls `base64::Engine::encode` on the `STANDARD` engine. Claims only that
/// the text is the one named `base64_standard(bytes)`; the length bound keeps
/// out the inputs on which the encoder panics computing its buffer size.
#[verifier::external_body]
fn base64_encode(bytes: &[u8]) -> (text: String)
    requires
        base64_fits(bytes@.len() as int),
    ensures
        text@ == base64_standard(bytes@),
{
    base64::Engine::encode(&base64::engine::general_purpose::STANDARD, bytes)
}

/// The Basic credentials `app_id:api_key`.
pub open spec fn credentials_text(app_id: Seq<char>, api_key: Seq<char>) -> Seq<char> {
    app_id + ":"@ + api_key
}

/// The UTF-8 form of the credentials (the bytes of both texts and the colon)
/// is short enough to be encoded.
pub open spec fn credentials_fit(app_id: Seq<char>, api_key: Seq<char>) -> bool {
    base64_fits((encode_utf8(app_id).len() + 1 + encode_utf8(api_key).len()) as int)
}

/// Whether the credentials are short enough to be encoded.
pub fn credentials_encodable(app_id: &str, api_key: &str) -> (r: bool)
    ensures
        r == credentials_fit(app_id@, api_key@),
{
    let a = app_id.as_bytes().len();
    let k = api_key.as_bytes().len();
    assert(a == encode_utf8(app_id@).len());
    assert(k == encode_utf8(api_key@).len());
    if a >= usize::MAX - k {
        return false;
    }
    let n = a + 1 + k;
    let chunks = n / 3 + if n % 3 == 0 { 0 } else { 1 };
    assert(chunks == (n + 2) / 3);
    chunks <= usize::MAX / 4
}

/// UTF-8 encoding distributes over concatenation.
proof fn lemma_encode_utf8_concat(a: Seq<char>, b: Seq<char>)
    ensures
        encode_utf8(a + b) == encode_utf8(a) + encode_utf8(b),
    decreases a.len(),
{
    if a.len() == 0 {
        assert(a + b =~= b);
        assert(encode_utf8(a) + encode_utf8(b) =~= encode_utf8(b));
    } else {
        lemma_encode_utf8_concat(a.drop_first(), b);
        assert((a + b).drop_first() =~= a.drop_first() + b);
        assert((a + b)[0] == a[0]);
        let head = vstd::utf8::encode_scalar(a[0] as u32);
        assert(encode_utf8(a + b) =~= head + (encode_utf8(a.drop_first()) + encode_utf8(b)));
        assert(encode_utf8(a) + encode_utf8(b) =~= head + encode_utf8(a.drop_first()) + encode_utf8(b));
    }
}

/// The UTF-8 length of the credentials is that of both texts plus the colon.
proof fn lemma_credentials_utf8_len(app_id: Seq<char>, api_key: Seq<char>)
    ensures
        encode_utf8(credentials_text(app_id, api_key)).len() == encode_utf8(app_id).len() + 1
            + encode_utf8(api_key).len(),
{
    reveal_strlit(":");
    lemma_encode_utf8_concat(app_id + ":"@, api_key);
    lemma_encode_utf8_concat(app_id, ":"@);
    let colon = ":"@;
    assert(colon.drop_first() =~= Seq::<char>::empty());
    assert(encode_utf8(colon.drop_first()) =~= Seq::<u8>::empty());
    assert(encode_utf8(colon).len() == 1);
}

/// The `Authorization` header: `Basic ` and the base64 of the UTF-8 bytes of
/// `app_id:api_key`.
pub open spec fn auth_header_text(app_id: Seq<char>, api_key: Seq<char>) -> Seq<char> {
    "Basic "@ + base64_standard(encode_utf8(credentials_text(app_id, api_key)))
}

/// Builds the HTTP Basic `Authorization` header for an app and API key.
pub fn build_auth_header(app_id: &str, api_key: &str) -> (header: String)
    requires
        credentials_fit(app_id@, api_key@),
    ensures
        header@ == auth_header_text(app_id@, api_key@),
        header@ == "Basic "@ + base64_standard(
            encode_utf8(app_id@) + seq![58u8] + encode_utf8(api_key@),
        ),
{
    proof {
        lemma_credentials_utf8_len(app_id@, api_key@);
    }
    proof {
        lemma_auth_header_encodes_all_credential_bytes(app_id@, api_key@);
    }
    let mut credentials = String::from_str(app_id);
    credentials.append(":");
    credentials.append(api_key);
    let token = base64_encode(credentials.as_str().as_bytes());
    let mut header = String::from_str("Basic ");
    header.append(token.as_str());
    header
}

/// A client: the credentials header and the base URL of the API, which never
/// ends in `/`.
pub struct EvervaultClient {
    auth_header: String,
    base_url: String,
}

/// The state of a client.
pub struct ClientView {
    pub auth_header: Seq<char>,
    pub base_url: Seq<char>,
}

impl View for EvervaultClient {
    type V = ClientView;

    closed spec fn view(&self) -> ClientView {
        ClientView { auth_header: self.auth_header@, base_url: self.base_url@ }
    }
}

/// One HTTP `POST` to perform.
#[derive(Debug)]
pub struct ApiRequest {
    pub url: String,
    pub authorization: String,
    pub content_type: String,
    pub body: String,
}

/// How the HTTP exchange went.
#[derive(Debug)]
pub enum HttpOutcome {
    /// The request could not be sent.
    SendFailed { cause: String },
    /// A response came, but its body could not be read.
    ReadFailed { cause: String },
    /// A response with this status and body came.
    Received { status: u16, body: String },
}

/// `HttpOutcome` with its texts taken as character sequences.
pub enum OutcomeView {
    SendFailed { cause: Seq<char> },
    ReadFailed { cause: Seq<char> },
    Received { status: u16, body: Seq<char> },
}

impl View for HttpOutcome {
    type V = OutcomeView;

    open spec fn view(&self) -> OutcomeView {
        match self {
            HttpOutcome::SendFailed { cause } => OutcomeView::SendFailed { cause: cause@ },
            HttpOutcome::ReadFailed { cause } => OutcomeView::ReadFailed { cause: cause@ },
            HttpOutcome::Received { status, body } => OutcomeView::Received {
                status: *status,
                body: body@,
            },
        }
    }
}

/// The view of a parsed response, or of the error it ended in.
pub open spec fn document_result_view(r: Result<JsonDocument, ClientError>) -> Result<
    (Seq<char>, Option<Seq<(Seq<char>, Option<Seq<char>>)>>),
    ErrorView,
> {
    match r {
        Ok(d) => Ok(d@),
        Err(e) => Err(e@),
    }
}

/// The view of a text result, or of the error it ended in.
pub open spec fn text_result_view(r: Result<String, ClientError>) -> Result<Seq<char>, ErrorView> {
    match r {
        Ok(s) => Ok(s@),
        Err(e) => Err(e@),
    }
}

/// What a `POST` to `url` (for `path`) ends in: transport failures are
/// reported with the URL, an unsuccessful status is classified by
/// `api_error_view`, a successful body must parse as JSON.
pub open spec fn post_outcome_view(path: Seq<char>, url: Seq<char>, outcome: OutcomeView) -> Result<
    (Seq<char>, Option<Seq<(Seq<char>, Option<Seq<char>>)>>),
    ErrorView,
> {
    match outcome {
        OutcomeView::SendFailed { cause } => Err(ErrorView::SendFailed { url, cause }),
        OutcomeView::ReadFailed { cause } => Err(ErrorView::ReadFailed { url, cause }),
        OutcomeView::Received { status, body } => if !is_success_status(status) {
            Err(api_error_view(path, status, body))
        } else {
            match json_parse(body) {
                Ok(doc) => Ok(doc),
                Err(cause) => Err(ErrorView::InvalidJson { url, raw: body, cause }),
            }
        },
    }
}

/// What a whole exchange for `field` ends in: the response's string member
/// `field`, or the first error met on the way.
pub open spec fn exchange_view(
    path: Seq<char>,
    url: Seq<char>,
    field: Seq<char>,
    outcome: OutcomeView,
) -> Result<Seq<char>, ErrorView> {
    match post_outcome_view(path, url, outcome) {
        Ok(doc) => extract_field_view(doc, field),
        Err(e) => Err(e),
    }
}

impl EvervaultClient {
    /// A client for the production API.
    pub fn new(app_id: &str, api_key: &str) -> (c: Self)
        requires
            credentials_fit(app_id@, api_key@),
        ensures
            c@ == (ClientView { auth_header: auth_header_text(app_id@, api_key@), base_url: API_BASE@ }),
    {
        proof {
            reveal_strlit("https://api.evervault.com");
        }
        Self::with_base_url(app_id, api_key, API_BASE)
    }

    /// A client for the API at `base_url`; trailing `/` are dropped.
    pub fn with_base_url(app_id: &str, api_key: &str, base_url: &str) -> (c: Self)
        requires
            credentials_fit(app_id@, api_key@),
        ensures
            c@ == (ClientView {
                auth_header: auth_header_text(app_id@, api_key@),
                base_url: trim_trailing_slashes(base_url@),
            }),
    {
        EvervaultClient {
            auth_header: build_auth_header(app_id, api_key),
            base_url: trim_end_slashes(base_url),
        }
    }

    /// The URL of an endpoint: the base URL followed by `path`.
    pub fn endpoint_url(&self, path: &str) -> (url: String)
        ensures
            url@ == self@.base_url + path@,
    {
        let mut url = self.base_url.clone();
        url.append(path);
        url
    }

    /// The `POST` of a JSON `body` to `path`, with the credentials header.
    pub fn post_request(&self, path: &str, body: String) -> (req: ApiRequest)
        ensures
            req.url@ == self@.base_url + path@,
            req.authorization@ == self@.auth_header,
            req.content_type@ == JSON_CONTENT_TYPE@,
            req.body@ == body@,
    {
        ApiRequest {
            url: self.endpoint_url(path),
            authorization: self.auth_header.clone(),
            content_type: String::from_str(JSON_CONTENT_TYPE),
            body,
        }
    }

    /// Decides what the exchange for a `POST` to `path` produced: the parsed
    /// JSON response, or the error it ends in.
    pub fn post_outcome(&self, path: &str, outcome: HttpOutcome) -> (r: Result<
        JsonDocument,
        ClientError,
    >)
        ensures
            document_result_view(r) == post_outcome_view(
                path@,
                self@.base_url + path@,
                outcome@,
            ),
    {
        let url = self.endpoint_url(path);
        match outcome {
            HttpOutcome::SendFailed { cause } => Err(ClientError::SendFailed { url, cause }),
            HttpOutcome::ReadFailed { cause } => Err(ClientError::ReadFailed { url, cause }),
            HttpOutcome::Received { status, body } => {
                if !is_success(status) {
                    Err(api_error(path, status, body.as_str()))
                } else {
                    match parse_json(body.as_str()) {
                        Ok(doc) => Ok(doc),
                        Err(cause) => Err(ClientError::InvalidJson { url, raw: body, cause }),
                    }
                }
            },
        }
    }

    /// Decides what an exchange for `field` produced: the response's string
    /// member `field`, or the error it ends in.
    pub fn field_outcome(&self, path: &str, field: &str, outcome: HttpOutcome) -> (r: Result<
        String,
        ClientError,
    >)
        ensures
            text_result_view(r) == exchange_view(path@, self@.base_url + path@, field@, outcome@),
    {
        match self.post_outcome(path, outcome) {
            Ok(doc) => extract_field(&doc, field),
            Err(e) => Err(e),
        }
    }

    /// The request that turns `value` into a token: `POST /encrypt` with the
    /// body `{ field: value }`.
    pub fn encrypt_request(&self, field: &str, value: &str) -> (req: ApiRequest)
        ensures
            req.url@ == self@.base_url + ENCRYPT_PATH@,
            req.authorization@ == self@.auth_header,
            req.content_type@ == JSON_CONTENT_TYPE@,
            req.body@ == json_single_member_object(field@, value@),
    {
        self.post_request(ENCRYPT_PATH, single_member_object_text(field, value))
    }

    /// The token that the encrypt exchange for `field` produced.
    pub fn encrypt_outcome(&self, field: &str, outcome: HttpOutcome) -> (r: Result<
        String,
        ClientError,
    >)
        ensures
            text_result_view(r) == exchange_view(
                ENCRYPT_PATH@,
                self@.base_url + ENCRYPT_PATH@,
                field@,
                outcome@,
            ),
    {
        self.field_outcome(ENCRYPT_PATH, field, outcome)
    }

    /// The request that turns `token` back into plaintext: `POST /decrypt`
    /// with the body `{ field: token }`.
    pub fn decrypt_request(&self, field: &str, token: &str) -> (req: ApiRequest)
        ensures
            req.url@ == self@.base_url + DECRYPT_PATH@,
            req.authorization@ == self@.auth_header,
            req.content_type@ == JSON_CONTENT_TYPE@,
            req.body@ == json_single_member_object(field@, token@),
    {
        self.post_request(DECRYPT_PATH, single_member_object_text(field, token))
    }

    /// The plaintext that the decrypt exchange for `field` produced.
    pub fn decrypt_outcome(&self, field: &str, outcome: HttpOutcome) -> (r: Result<
        String,
        ClientError,
    >)
        ensures
            text_result_view(r) == exchange_view(
                DECRYPT_PATH@,
                self@.base_url + DECRYPT_PATH@,
                field@,
                outcome@,
            ),
    {
        self.field_outcome(DECRYPT_PATH, field, outcome)
    }
}

/// Trailing `/` on a base URL make no difference: a client made with
/// `base_url + "/"` is the client made with `base_url`, and normalizing twice
/// is normalizing once.
pub proof fn lemma_trailing_slashes_ignored(base_url: Seq<char>)
    ensures
        trim_trailing_slashes(base_url + "/"@) == trim_trailing_slashes(base_url),
        trim_trailing_slashes(trim_trailing_slashes(base_url)) == trim_trailing_slashes(base_url),
{
    reveal_strlit("/");
    let with_slash = base_url + "/"@;
    assert(with_slash.len() > 0 && with_slash.last() == '/');
    assert(with_slash.drop_last() =~= base_url);
    crate::text::lemma_trim_shape(base_url);
}

/// An exchange yields a value exactly when the response arrived with a
/// successful status, its body parses as JSON, and the document holds a string
/// under `field`; the value is that string.
pub proof fn lemma_exchange_succeeds_exactly_when(
    path: Seq<char>,
    url: Seq<char>,
    field: Seq<char>,
    outcome: OutcomeView,
)
    ensures
        exchange_view(path, url, field, outcome) is Ok <==> (outcome matches OutcomeView::Received {
            status,
            body,
        } && is_success_status(status) && json_parse(body) is Ok && string_member(
            json_parse(body)->Ok_0,
            field,
        ) is Some),
        exchange_view(path, url, field, outcome) is Ok ==> (outcome matches OutcomeView::Received {
            body,
            ..
        } && exchange_view(path, url, field, outcome)->Ok_0 == string_member(
            json_parse(body)->Ok_0,
            field,
        )->Some_0),
{
}

/// A response with an unsuccessful status is classified by its status and the
/// path alone; its body is never parsed.
pub proof fn lemma_unsuccessful_status_is_api_error(
    path: Seq<char>,
    url: Seq<char>,
    field: Seq<char>,
    status: u16,
    body: Seq<char>,
)
    requires
        !(200 <= status && status <= 299),
    ensures
        exchange_view(path, url, field, OutcomeView::Received { status, body }) == Err::<
            Seq<char>,
            ErrorView,
        >(api_error_view(path, status, body)),
{
}

/// A successful response whose body is not JSON is reported with the URL and
/// the raw body.
pub proof fn lemma_invalid_json_quotes_raw_body(
    path: Seq<char>,
    url: Seq<char>,
    field: Seq<char>,
    status: u16,
    body: Seq<char>,
)
    requires
        200 <= status <= 299,
        json_parse(body) is Err,
    ensures
        exchange_view(path, url, field, OutcomeView::Received { status, body }) is Err,
        contains_text(
            exchange_view(path, url, field, OutcomeView::Received { status, body })->Err_0.message(),
            body,
        ),
        contains_text(
            exchange_view(path, url, field, OutcomeView::Received { status, body })->Err_0.message(),
            url,
        ),
{
    let m = exchange_view(path, url, field, OutcomeView::Received { status, body })->Err_0.message();
    lemma_contains_middle("failed to parse JSON from "@ + url + "; raw response: "@, body, Seq::empty());
    assert("failed to parse JSON from "@ + url + "; raw response: "@ + body + Seq::empty() =~= m);
    lemma_contains_middle("failed to parse JSON from "@, url, "; raw response: "@ + body);
    assert("failed to parse JSON from "@ + url + ("; raw response: "@ + body) =~= m);
}

/// A status counts as a success exactly when it lies in 200..=299.
pub proof fn lemma_success_is_exactly_2xx(status: u16)
    ensures
        is_success_status(status) <==> (200 <= status && status <= 299),
{
}

/// Every 2xx status is treated as 200 is: the outcome then depends on the
/// body alone.
pub proof fn lemma_every_2xx_status_acts_like_200(
    path: Seq<char>,
    url: Seq<char>,
    field: Seq<char>,
    status: u16,
    body: Seq<char>,
)
    requires
        200 <= status <= 299,
    ensures
        post_outcome_view(path, url, OutcomeView::Received { status, body }) == post_outcome_view(
            path,
            url,
            OutcomeView::Received { status: 200, body },
        ),
        exchange_view(path, url, field, OutcomeView::Received { status, body }) == exchange_view(
            path,
            url,
            field,
            OutcomeView::Received { status: 200, body },
        ),
{
}

/// A 2xx response whose JSON object holds the string `t` under `field` (its
/// first member of that name) yields exactly `t`, however long.
pub proof fn lemma_exchange_returns_whole_member_string(
    path: Seq<char>,
    url: Seq<char>,
    field: Seq<char>,
    status: u16,
    body: Seq<char>,
    text: Seq<char>,
    members: Seq<(Seq<char>, Option<Seq<char>>)>,
    i: int,
    t: Seq<char>,
)
    requires
        200 <= status <= 299,
        json_parse(body) == Ok::<(Seq<char>, Option<Seq<(Seq<char>, Option<Seq<char>>)>>), Seq<char>>(
            (text, Some(members)),
        ),
        0 <= i < members.len(),
        members[i] == (field, Some(t)),
        forall|j: int| 0 <= j < i ==> members[j].0 != field,
    ensures
        exchange_view(path, url, field, OutcomeView::Received { status, body }) == Ok::<
            Seq<char>,
            ErrorView,
        >(t),
{
    lemma_extract_field_returns_member_string(text, members, field, i, t);
}

/// The `:` separating app ID and key is the single byte 58 in UTF-8.
proof fn lemma_colon_utf8()
    ensures
        encode_utf8(":"@) == seq![58u8],
{
    reveal_strlit(":");
    let colon = ":"@;
    assert(colon.drop_first() =~= Seq::<char>::empty());
    assert(encode_utf8(colon.drop_first()) =~= Seq::<u8>::empty());
    assert(colon[0] as u32 == 58u32);
    assert((58u32 & 0x7Fu32) as u8 == 58u8) by (bit_vector);
    assert(encode_utf8(colon) =~= seq![58u8]);
}

/// The header is `Basic ` followed by the base64 of every byte of the
/// credentials: all UTF-8 bytes of the app ID, the colon, all UTF-8 bytes of
/// the key.
pub proof fn lemma_auth_header_encodes_all_credential_bytes(app_id: Seq<char>, api_key: Seq<char>)
    ensures
        auth_header_text(app_id, api_key) == "Basic "@ + base64_standard(
            encode_utf8(app_id) + seq![58u8] + encode_utf8(api_key),
        ),
        (encode_utf8(app_id) + seq![58u8] + encode_utf8(api_key)).len() == encode_utf8(app_id).len()
            + 1 + encode_utf8(api_key).len(),
{
    lemma_colon_utf8();
    lemma_encode_utf8_concat(app_id + ":"@, api_key);
    lemma_encode_utf8_concat(app_id, ":"@);
}

/// Credentials can be encoded exactly when the padded base64 length of their
/// UTF-8 form, ceil((app ID bytes + 1 + key bytes) / 3) * 4, fits in `usize`.
pub proof fn lemma_credentials_fit_exactly_when(app_id: Seq<char>, api_key: Seq<char>)
    ensures
        credentials_fit(app_id, api_key) <==> (encode_utf8(app_id).len() + 1 + encode_utf8(
            api_key,
        ).len() + 2) / 3 * 4 <= usize::MAX,
{
}

/// Credentials of up to a million UTF-8 bytes are always encodable.
pub proof fn lemma_ordinary_credentials_fit(app_id: Seq<char>, api_key: Seq<char>)
    requires
        encode_utf8(app_id).len() + encode_utf8(api_key).len() <= 1_000_000,
    ensures
        credentials_fit(app_id, api_key),
{
    let n = encode_utf8(app_id).len() + 1 + encode_utf8(api_key).len();
    assert((n + 2) / 3 <= 333_335);
    assert(usize::MAX >= 4294967295);
}

} // verus!
