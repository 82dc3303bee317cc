use vstd::prelude::*;

use crate::cache::ReferenceCache;
use crate::errors::DomainError;
use crate::http::{spec_error_status, HttpOutcome, HttpRequest, Method};
use crate::json::JsonVal;
use crate::messages::InSetCredentials;
use crate::rtcv_types::{spec_error_response_of, ErrorResponse};

verus! {

/// What SHA-512 returns: a function of the input bytes alone.
pub uninterp spec fn sha512_of(data: Seq<u8>) -> Seq<u8>;

/// Relies on sha2::Sha512 (through its Digest impl): the digest depends on
/// the input bytes alone and is 64 bytes long.
#[verifier::external_body]
fn sha512_digest(data: &[u8]) -> (r: Vec<u8>)
    ensures
        r@ == sha512_of(data@),
        r@.len() == 64,
{
    <sha2::Sha512 as sha2::Digest>::digest(data).to_vec()
}

/// Relies on String::push: appends the one character.
#[verifier::external_body]
pub(crate) fn string_push(s: &mut String, c: char)
    ensures
        final(s)@ == old(s)@.push(c),
{
    s.push(c);
}

/// Uppercase hexadecimal digit of a value below 16.
pub open spec fn hex_digit_char(n: int) -> char {
    if n == 0 {
        '0'
    } else if n == 1 {
        '1'
    } else if n == 2 {
        '2'
    } else if n == 3 {
        '3'
    } else if n == 4 {
        '4'
    } else if n == 5 {
        '5'
    } else if n == 6 {
        '6'
    } else if n == 7 {
        '7'
    } else if n == 8 {
        '8'
    } else if n == 9 {
        '9'
    } else if n == 10 {
        'A'
    } else if n == 11 {
        'B'
    } else if n == 12 {
        'C'
    } else if n == 13 {
        'D'
    } else if n == 14 {
        'E'
    } else {
        'F'
    }
}

/// An uppercase hexadecimal digit.
pub open spec fn is_hex_upper_char(c: char) -> bool {
    exists|n: int| 0 <= n < 16 && c == hex_digit_char(n)
}

/// Uppercase hexadecimal rendering of bytes, two digits per byte, high
/// nibble first.
pub open spec fn hex_upper_of(data: Seq<u8>) -> Seq<char> {
    Seq::new(
        data.len() * 2,
        |i: int|
            if i % 2 == 0 {
                hex_digit_char(data[i / 2] as int / 16)
            } else {
                hex_digit_char(data[i / 2] as int % 16)
            },
    )
}

pub(crate) fn hex_digit(n: u8) -> (c: char)
    requires
        n < 16,
    ensures
        c == hex_digit_char(n as int),
{
    if n == 0 {
        '0'
    } else if n == 1 {
        '1'
    } else if n == 2 {
        '2'
    } else if n == 3 {
        '3'
    } else if n == 4 {
        '4'
    } else if n == 5 {
        '5'
    } else if n == 6 {
        '6'
    } else if n == 7 {
        '7'
    } else if n == 8 {
        '8'
    } else if n == 9 {
        '9'
    } else if n == 10 {
        'A'
    } else if n == 11 {
        'B'
    } else if n == 12 {
        'C'
    } else if n == 13 {
        'D'
    } else if n == 14 {
        'E'
    } else {
        'F'
    }
}

/// Render bytes as uppercase hexadecimal text.
#[verifier::loop_isolation(false)]
fn to_hex_upper(data: &Vec<u8>) -> (r: String)
    ensures
        r@ == hex_upper_of(data@),
{
    let mut out = String::new();
    let n = data.len();
    let mut i: usize = 0;
    while i < n
        invariant
            i <= n,
            out@ =~= hex_upper_of(data@).take(2 * i as int),
        decreases n - i,
    {
        let b = data[i];
        let hi = b / 16;
        let lo = b % 16;
        string_push(&mut out, hex_digit(hi));
        string_push(&mut out, hex_digit(lo));
        proof {
            assert(out@ =~= hex_upper_of(data@).take(2 * (i + 1) as int));
        }
        i = i + 1;
    }
    proof {
        assert(hex_upper_of(data@).take(2 * n as int) =~= hex_upper_of(data@));
    }
    out
}

/// The authorization header value a credential pair derives:
/// `Basic`, the key id, then the SHA-512 digest of the key rendered as
/// uppercase hexadecimal.
pub open spec fn auth_header_of(api_key_id: Seq<char>, api_key: Seq<char>) -> Seq<char> {
    "Basic "@ + api_key_id + ":"@ + hex_upper_of(sha512_of(vstd::utf8::encode_utf8(api_key)))
}

/// Derive the authorization header value from a key id and a key.
pub(crate) fn derive_auth_header(api_key_id: &String, api_key: &String) -> (r: String)
    ensures
        r@ == auth_header_of(api_key_id@, api_key@),
{
    let digest = sha512_digest(api_key.as_str().as_bytes());
    let hex = to_hex_upper(&digest);
    let mut out = String::from_str("Basic ");
    out.append(api_key_id.as_str());
    out.append(":");
    out.append(hex.as_str());
    out
}

/// Law: the derived header is `Basic `, then the key id, then `:`, then two
/// uppercase hexadecimal digits per digest byte (so 128 of them for the
/// 64-byte SHA-512 digest); being a function, the derivation yields the
/// same header whenever the same id and key are given.
pub proof fn lemma_auth_header_shape(api_key_id: Seq<char>, api_key: Seq<char>)
    ensures
        auth_header_of(api_key_id, api_key) == "Basic "@ + api_key_id + ":"@ + hex_upper_of(
            sha512_of(vstd::utf8::encode_utf8(api_key)),
        ),
        hex_upper_of(sha512_of(vstd::utf8::encode_utf8(api_key))).len() == 2 * sha512_of(
            vstd::utf8::encode_utf8(api_key),
        ).len(),
        forall|i: int|
            0 <= i < 2 * sha512_of(vstd::utf8::encode_utf8(api_key)).len()
                ==> is_hex_upper_char(
                #[trigger] hex_upper_of(sha512_of(vstd::utf8::encode_utf8(api_key)))[i],
            ),
{
    let digest = sha512_of(vstd::utf8::encode_utf8(api_key));
    assert forall|i: int| 0 <= i < 2 * digest.len() implies is_hex_upper_char(
        #[trigger] hex_upper_of(digest)[i],
    ) by {
        let b = digest[i / 2] as int;
        assert(0 <= b < 256);
        if i % 2 == 0 {
            assert(0 <= b / 16 < 16);
            assert(hex_upper_of(digest)[i] == hex_digit_char(b / 16));
        } else {
            assert(0 <= b % 16 < 16);
            assert(hex_upper_of(digest)[i] == hex_digit_char(b % 16));
        }
    }
}

/// The validation failure a credential set carries: the first empty field
/// among server location, key id and key, in that order.
pub open spec fn spec_credentials_error(c: InSetCredentials) -> Seq<char> {
    if c.server_location@.len() == 0 {
        "server_location cannot be empty"@
    } else if c.api_key_id@.len() == 0 {
        "api_key_id cannot be empty"@
    } else {
        "api_key cannot be empty"@
    }
}

/// Credential store and reference cache of the bridge process.
pub struct Api {
    pub auth_header_value: String,
    pub credentials: Option<InSetCredentials>,
    pub cache: ReferenceCache,
}

impl Api {
    /// The stored credentials, if any are set.
    pub open spec fn spec_credentials(&self) -> Option<InSetCredentials> {
        self.credentials
    }

    /// The stored authorization header value.
    pub open spec fn spec_auth_header(&self) -> Seq<char> {
        self.auth_header_value@
    }

    /// Either no credentials are set and no header is held, or all three
    /// fields are non-empty and the header is the one they derive.
    pub open spec fn wf(&self) -> bool {
        &&& self.cache.wf()
        &&& match self.spec_credentials() {
            None => self.spec_auth_header() == Seq::<char>::empty(),
            Some(c) => c.spec_valid() && self.spec_auth_header() == auth_header_of(
                c.api_key_id@,
                c.api_key@,
            ),
        }
    }

    pub fn new() -> (r: Api)
        ensures
            r.wf(),
            r.spec_credentials() is None,
            r.cache@ == Map::<Seq<char>, u64>::empty(),
    {
        Api { auth_header_value: String::new(), credentials: None, cache: ReferenceCache::new() }
    }

    /// Validate a credential set and, when all three fields are non-empty,
    /// derive its header and replace any stored credentials wholesale; a
    /// validation failure names the first empty field and leaves the store
    /// untouched.
    pub fn set_credentials(&mut self, credentials: InSetCredentials) -> (r: Result<
        (),
        DomainError,
    >)
        requires
            old(self).wf(),
        ensures
            final(self).wf(),
            final(self).cache == old(self).cache,
            match r {
                Ok(()) => credentials.spec_valid() && final(self).spec_credentials() == Some(
                    credentials,
                ) && final(self).spec_auth_header() == auth_header_of(
                    credentials.api_key_id@,
                    credentials.api_key@,
                ),
                Err(e) => !credentials.spec_valid() && *final(self) == *old(self) && (
                e matches DomainError::Validation(m) && m@ == spec_credentials_error(credentials)),
            },
    {
        if credentials.server_location.as_str().is_empty() {
            return Err(
                DomainError::Validation(String::from_str("server_location cannot be empty")),
            );
        }
        if credentials.api_key_id.as_str().is_empty() {
            return Err(DomainError::Validation(String::from_str("api_key_id cannot be empty")));
        }
        if credentials.api_key.as_str().is_empty() {
            return Err(DomainError::Validation(String::from_str("api_key cannot be empty")));
        }
        self.auth_header_value = derive_auth_header(&credentials.api_key_id, &credentials.api_key);
        self.credentials = Some(credentials);
        Ok(())
    }

    /// The stored authorization header value, or the not-authenticated
    /// failure when no credentials are set.
    pub fn header(&self) -> (r: Result<&String, DomainError>)
        ensures
            match r {
                Ok(h) => self.spec_credentials() is Some && h@ == self.spec_auth_header(),
                Err(e) => self.spec_credentials() is None && e == DomainError::NotAuthenticated,
            },
    {
        match &self.credentials {
            None => Err(DomainError::NotAuthenticated),
            Some(_) => Ok(&self.auth_header_value),
        }
    }

    /// Build an authenticated request against the stored credentials: the
    /// URL is the stored base location with `path` appended, unchanged;
    /// fails when no credentials are set.
    pub fn build_request(&self, method: Method, path: &String, body: Option<JsonVal>) -> (r: Result<
        HttpRequest,
        DomainError,
    >)
        requires
            self.wf(),
        ensures
            match r {
                Ok(req) => self.spec_credentials() is Some && req.method == method && req.url@
                    == self.spec_credentials().unwrap().server_location@ + path@
                    && req.auth_header@ == self.spec_auth_header() && req.body == body,
                Err(e) => self.spec_credentials() is None && e == DomainError::NotAuthenticated,
            },
    {
        match &self.credentials {
            None => Err(DomainError::NotAuthenticated),
            Some(c) => {
                let mut url = c.server_location.clone();
                url.append(path.as_str());
                Ok(
                    HttpRequest {
                        method,
                        url,
                        auth_header: self.auth_header_value.clone(),
                        body,
                    },
                )
            },
        }
    }
}

/// Build a request from explicit location and header values, as used while
/// a credential set is still being validated and is not yet stored.
pub fn build_request_with(
    server_location: &String,
    auth_header: &String,
    method: Method,
    path: &String,
    body: Option<JsonVal>,
) -> (r: HttpRequest)
    ensures
        r.method == method,
        r.url@ == server_location@ + path@,
        r.auth_header@ == auth_header@,
        r.body == body,
{
    let mut url = server_location.clone();
    url.append(path.as_str());
    HttpRequest { method, url, auth_header: auth_header.clone(), body }
}

/// The path of a secret lookup: key, then encryption key.
pub open spec fn spec_secret_path(key: Seq<char>, encryption_key: Seq<char>) -> Seq<char> {
    "/api/v1/secrets/myKey/"@ + key + "/"@ + encryption_key
}

/// Render the path of a secret lookup.
pub fn secret_path(key: &String, encryption_key: &String) -> (r: String)
    ensures
        r@ == spec_secret_path(key@, encryption_key@),
{
    let mut out = String::from_str("/api/v1/secrets/myKey/");
    out.append(key.as_str());
    out.append("/");
    out.append(encryption_key.as_str());
    out
}

/// A non-error response arrived and its body was valid JSON.
pub open spec fn spec_outcome_is_ok(outcome: HttpOutcome) -> bool {
    match outcome {
        HttpOutcome::Transport(_) => false,
        HttpOutcome::Response { status, body } => !spec_error_status(status) && body is Some,
    }
}

/// The JSON value a non-error response carries.
pub open spec fn spec_outcome_value(outcome: HttpOutcome) -> JsonVal
    recommends
        spec_outcome_is_ok(outcome),
{
    match outcome {
        HttpOutcome::Transport(_) => JsonVal::Null,
        HttpOutcome::Response { status, body } => match body {
            Some(v) => v,
            None => JsonVal::Null,
        },
    }
}

/// The domain error a failed outcome maps to: a transport failure is a
/// network error; a 4xx/5xx body carrying `{"error": ...}` surfaces that
/// text as an API error, and any other 4xx/5xx body is a protocol error;
/// a non-error response whose body is not valid JSON is a protocol error.
pub open spec fn spec_interpret_err(outcome: HttpOutcome, e: DomainError) -> bool {
    match outcome {
        HttpOutcome::Transport(m) => e == DomainError::Network(m),
        HttpOutcome::Response { status, body } => {
            if spec_error_status(status) {
                match body {
                    Some(v) => match spec_error_response_of(v) {
                        Some(msg) => e matches DomainError::Api(m) && m@ == msg,
                        None => e == DomainError::Protocol,
                    },
                    None => e == DomainError::Protocol,
                }
            } else {
                e == DomainError::Protocol
            }
        },
    }
}

/// The message text a failed outcome yields.
pub open spec fn spec_outcome_err_message(outcome: HttpOutcome) -> Seq<char> {
    match outcome {
        HttpOutcome::Transport(m) => m@,
        HttpOutcome::Response { status, body } => {
            if spec_error_status(status) {
                match body {
                    Some(v) => match spec_error_response_of(v) {
                        Some(msg) => msg,
                        None => "unexpected response body from server"@,
                    },
                    None => "unexpected response body from server"@,
                }
            } else {
                "unexpected response body from server"@
            }
        },
    }
}

/// Map one transport outcome to the domain: the JSON value of a non-error
/// response, or the domain error the outcome denotes.
pub fn interpret_response(outcome: HttpOutcome) -> (r: Result<JsonVal, DomainError>)
    ensures
        match r {
            Ok(v) => spec_outcome_is_ok(outcome) && v == spec_outcome_value(outcome),
            Err(e) => !spec_outcome_is_ok(outcome) && spec_interpret_err(outcome, e)
                && e.spec_message() == spec_outcome_err_message(outcome),
        },
{
    match outcome {
        HttpOutcome::Transport(m) => Err(DomainError::Network(m)),
        HttpOutcome::Response { status, body } => {
            if 400 <= status && status < 600 {
                match body {
                    Some(v) => match ErrorResponse::of_json(&v) {
                        Some(e) => Err(DomainError::Api(e.error)),
                        None => Err(DomainError::Protocol),
                    },
                    None => Err(DomainError::Protocol),
                }
            } else {
                match body {
                    Some(v) => Ok(v),
                    None => Err(DomainError::Protocol),
                }
            }
        },
    }
}

} // verus!
