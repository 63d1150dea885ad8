//! The authorization decision: which credential a request carries, whether
//! the key behind it may pass, and what the proxy is told.

use vstd::prelude::*;
use crate::api_key::{key_opt, ApiKey, ApiKeyStatus, ApiKeyView};
use crate::error::Error;
use crate::json::{JsonField, JsonValue};
use crate::metadata::{
    api_key_to_dynamic_metadata, dynamic_metadata, json_map_to_prost_struct,
    json_value_to_prost_value, members_view, proto_of, struct_of, Struct, Value, ValueView,
};
use crate::store::{first_index, lemma_first_index, ApiKeyRepo, StoreView};
use crate::text::{
    from_utf8, lowered, strip_prefix, text_eq, to_ascii_lowercase, trim, trimmed, without_prefix,
};
use crate::time::Timestamp;

verus! {

/// One entry of the flat header map of a request.
#[derive(Debug, PartialEq, Eq)]
pub struct Header {
    pub key: String,
    pub value: String,
}

/// One entry of the header list of a request: the value as raw bytes.
#[derive(Debug, PartialEq, Eq)]
pub struct HeaderValue {
    pub key: String,
    pub raw_value: Vec<u8>,
}

/// The HTTP attributes of a request, in the two shapes a proxy may send.
#[derive(Debug, PartialEq, Eq)]
pub struct HttpRequest {
    pub headers: Vec<Header>,
    pub header_map: Option<Vec<HeaderValue>>,
}

/// What the proxy asks: the HTTP attributes of the request, if it has any.
#[derive(Debug, PartialEq, Eq)]
pub struct CheckRequest {
    pub http: Option<HttpRequest>,
}

impl View for Header {
    type V = (Seq<char>, Seq<char>);

    open spec fn view(&self) -> (Seq<char>, Seq<char>) {
        (self.key@, self.value@)
    }
}

impl View for HeaderValue {
    type V = (Seq<char>, Seq<u8>);

    open spec fn view(&self) -> (Seq<char>, Seq<u8>) {
        (self.key@, self.raw_value@)
    }
}

/// The entries that a sequence of headers holds.
pub open spec fn headers_view(v: Seq<Header>) -> Seq<(Seq<char>, Seq<char>)> {
    v.map_values(|h: Header| h@)
}

/// The entries that a sequence of raw headers holds.
pub open spec fn raw_headers_view(v: Seq<HeaderValue>) -> Seq<(Seq<char>, Seq<u8>)> {
    v.map_values(|h: HeaderValue| h@)
}

/// The mathematical content of an [`HttpRequest`].
pub struct HttpRequestView {
    pub headers: Seq<(Seq<char>, Seq<char>)>,
    pub header_map: Option<Seq<(Seq<char>, Seq<u8>)>>,
}

impl View for HttpRequest {
    type V = HttpRequestView;

    open spec fn view(&self) -> HttpRequestView {
        HttpRequestView {
            headers: headers_view(self.headers@),
            header_map: match self.header_map {
                Some(m) => Some(raw_headers_view(m@)),
                None => None,
            },
        }
    }
}

impl View for CheckRequest {
    type V = Option<HttpRequestView>;

    open spec fn view(&self) -> Option<HttpRequestView> {
        match self.http {
            Some(h) => Some(h@),
            None => None,
        }
    }
}

/// What follows `Bearer ` or `bearer ` at the start of a header value.
pub open spec fn bearer_rest(value: Seq<char>) -> Option<Seq<char>> {
    match without_prefix(value, "Bearer "@) {
        Some(rest) => Some(rest),
        None => without_prefix(value, "bearer "@),
    }
}

/// The lower-case names of the headers that carry a bare API key.
pub open spec fn is_key_header(name: Seq<char>) -> bool {
    name == "x-api-key"@ || name == "x-api_key"@ || name == "x-api-token"@ || name
        == "x-api_token"@
}

/// The credential that one header carries. `authorization` carries what
/// follows the bearer prefix, trimmed, unless that is empty; a key header
/// carries its value, unless that is empty; no other header carries one.
/// The name of the header counts in any case.
pub open spec fn credential_of_header(key: Seq<char>, value: Seq<char>) -> Option<Seq<char>> {
    let name = lowered(key);
    if name == "authorization"@ {
        match bearer_rest(value) {
            Some(rest) => if trimmed(rest).len() > 0 {
                Some(trimmed(rest))
            } else {
                None
            },
            None => None,
        }
    } else if is_key_header(name) {
        if value.len() > 0 {
            Some(value)
        } else {
            None
        }
    } else {
        None
    }
}

/// The headers with the name `name`.
pub open spec fn named(name: Seq<char>) -> spec_fn((Seq<char>, Seq<char>)) -> bool {
    |h: (Seq<char>, Seq<char>)| h.0 == name
}

/// The credential that the first header named `name` carries.
pub open spec fn header_credential(headers: Seq<(Seq<char>, Seq<char>)>, name: Seq<char>)
    -> Option<Seq<char>> {
    match first_index(headers, named(name)) {
        Some(i) => credential_of_header(name, headers[i].1),
        None => None,
    }
}

/// `a`, or `b` where `a` is nothing.
pub open spec fn or_else(a: Option<Seq<char>>, b: Option<Seq<char>>) -> Option<Seq<char>> {
    match a {
        Some(x) => Some(x),
        None => b,
    }
}

/// The credential among `headers`: that of `authorization` first, then the
/// first that `x-api-key`, `x-api_key`, `x-api-token` and `x-api_token`
/// carry, in this order.
pub open spec fn credential_in(headers: Seq<(Seq<char>, Seq<char>)>) -> Option<Seq<char>> {
    or_else(
        header_credential(headers, "authorization"@),
        or_else(
            header_credential(headers, "x-api-key"@),
            or_else(
                header_credential(headers, "x-api_key"@),
                or_else(
                    header_credential(headers, "x-api-token"@),
                    header_credential(headers, "x-api_token"@),
                ),
            ),
        ),
    )
}

/// A raw header as a header: the name in lower case, the value decoded.
/// A value that is not UTF-8 gives no header.
pub open spec fn decoding() -> spec_fn((Seq<char>, Seq<u8>)) -> Option<(Seq<char>, Seq<char>)> {
    |e: (Seq<char>, Seq<u8>)|
        if vstd::utf8::valid_utf8(e.1) {
            Some((lowered(e.0), vstd::utf8::decode_utf8(e.1)))
        } else {
            None
        }
}

/// The headers that a raw header list stands for, in its order.
pub open spec fn decoded_headers(map: Seq<(Seq<char>, Seq<u8>)>) -> Seq<(Seq<char>, Seq<char>)> {
    map.filter_map(decoding())
}

/// The credential of a request: that of the flat header map where it has
/// entries, else that of the raw header list, where there is one.
pub open spec fn request_credential(req: Option<HttpRequestView>) -> Option<Seq<char>> {
    match req {
        Some(http) => if http.headers.len() > 0 {
            credential_in(http.headers)
        } else {
            match http.header_map {
                Some(map) => credential_in(decoded_headers(map)),
                None => None,
            }
        },
        None => None,
    }
}

/// The text that `o` holds, where it holds one.
pub open spec fn string_opt(o: Option<String>) -> Option<Seq<char>> {
    match o {
        Some(s) => Some(s@),
        None => None,
    }
}

/// The credential that one header carries, if any.
pub fn extract_api_key_from_header(key: &str, value: &str) -> (r: Option<String>)
    ensures
        string_opt(r) == credential_of_header(key@, value@),
{
    let name = to_ascii_lowercase(key);
    if text_eq(name.as_str(), "authorization") {
        let rest = match strip_prefix(value, "Bearer ") {
            Some(rest) => Some(rest),
            None => strip_prefix(value, "bearer "),
        };
        match rest {
            Some(rest) => {
                let token = trim(rest);
                if token.unicode_len() > 0 {
                    Some(token.to_owned())
                } else {
                    None
                }
            },
            None => None,
        }
    } else if text_eq(name.as_str(), "x-api-key") || text_eq(name.as_str(), "x-api_key")
        || text_eq(name.as_str(), "x-api-token") || text_eq(name.as_str(), "x-api_token") {
        if value.unicode_len() > 0 {
            Some(value.to_owned())
        } else {
            None
        }
    } else {
        None
    }
}

/// The credential that the first header named `name` carries, if any.
fn credential_named(headers: &Vec<Header>, name: &str) -> (r: Option<String>)
    ensures
        string_opt(r) == header_credential(headers_view(headers@), name@),
{
    let ghost all = headers_view(headers@);
    let ghost p = named(name@);
    let mut i: usize = 0;
    while i < headers.len()
        invariant
            i <= headers.len(),
            all == headers_view(headers@),
            p == named(name@),
            forall|k: int| 0 <= k < i ==> !p(#[trigger] all[k]),
        decreases headers.len() - i,
    {
        assert(all[i as int] == headers[i as int]@);
        if text_eq(headers[i].key.as_str(), name) {
            proof {
                assert(p(all[i as int]));
                lemma_first_index(all, p);
            }
            return extract_api_key_from_header(name, headers[i].value.as_str());
        }
        i += 1;
    }
    proof {
        lemma_first_index(all, p);
    }
    None
}

/// The credential among `headers`, if any.
fn find_credential(headers: &Vec<Header>) -> (r: Option<String>)
    ensures
        string_opt(r) == credential_in(headers_view(headers@)),
{
    if let Some(c) = credential_named(headers, "authorization") {
        return Some(c);
    }
    if let Some(c) = credential_named(headers, "x-api-key") {
        return Some(c);
    }
    if let Some(c) = credential_named(headers, "x-api_key") {
        return Some(c);
    }
    if let Some(c) = credential_named(headers, "x-api-token") {
        return Some(c);
    }
    credential_named(headers, "x-api_token")
}

/// The headers that a raw header list stands for.
fn decode_header_map(map: &Vec<HeaderValue>) -> (r: Vec<Header>)
    ensures
        headers_view(r@) == decoded_headers(raw_headers_view(map@)),
{
    let ghost all = raw_headers_view(map@);
    let ghost f = decoding();
    let mut out: Vec<Header> = Vec::new();
    let mut i: usize = 0;
    proof {
        assert(all.subrange(0, 0) =~= Seq::empty());
        assert(headers_view(out@) =~= all.subrange(0, 0).filter_map(f));
    }
    while i < map.len()
        invariant
            i <= map.len(),
            all == raw_headers_view(map@),
            f == decoding(),
            headers_view(out@) == all.subrange(0, i as int).filter_map(f),
        decreases map.len() - i,
    {
        let entry = &map[i];
        proof {
            assert(all[i as int] == entry@);
            let next = all.subrange(0, i + 1);
            assert(next.drop_last() =~= all.subrange(0, i as int));
            assert(next.last() == all[i as int]);
        }
        match from_utf8(entry.raw_value.as_slice()) {
            Some(value) => {
                let ghost before = headers_view(out@);
                let header = Header {
                    key: to_ascii_lowercase(entry.key.as_str()),
                    value: value.to_owned(),
                };
                out.push(header);
                proof {
                    assert(headers_view(out@) =~= before + seq![header@]);
                }
            },
            None => {},
        }
        i += 1;
    }
    assert(all.subrange(0, all.len() as int) =~= all);
    out
}

/// The credential of a request, if it carries one.
pub fn get_api_key(req: CheckRequest) -> (r: Option<String>)
    ensures
        string_opt(r) == request_credential(req@),
{
    match &req.http {
        Some(http) => {
            if http.headers.len() > 0 {
                find_credential(&http.headers)
            } else {
                match &http.header_map {
                    Some(map) => {
                        let headers = decode_header_map(map);
                        find_credential(&headers)
                    },
                    None => None,
                }
            }
        },
        None => None,
    }
}

/// The status that the proxy is given.
#[derive(Clone, Copy, Debug, PartialEq, Eq, Structural)]
pub enum Code {
    /// The request may pass: the status `OK`.
    Okay,
    /// The request is turned away: the status `PERMISSION_DENIED`.
    PermissionDenied,
}

/// A header that the proxy is to set on the request it lets through.
#[derive(Debug, PartialEq, Eq)]
pub struct HeaderValueOption {
    pub key: String,
    pub value: String,
    /// Whether the value is added to the values that are there; if not, it
    /// takes their place.
    pub append: bool,
}

/// What the proxy is told.
#[derive(Debug, PartialEq, Eq)]
pub struct CheckResponse {
    pub code: Code,
    pub message: String,
    pub headers: Vec<HeaderValueOption>,
    pub dynamic_metadata: Option<Struct>,
}

/// The mathematical content of a [`CheckResponse`].
pub struct CheckResponseView {
    pub code: Code,
    pub message: Seq<char>,
    pub headers: Seq<(Seq<char>, Seq<char>, bool)>,
    pub dynamic_metadata: Option<Seq<(Seq<char>, ValueView)>>,
}

impl View for HeaderValueOption {
    type V = (Seq<char>, Seq<char>, bool);

    open spec fn view(&self) -> (Seq<char>, Seq<char>, bool) {
        (self.key@, self.value@, self.append)
    }
}

impl View for CheckResponse {
    type V = CheckResponseView;

    open spec fn view(&self) -> CheckResponseView {
        CheckResponseView {
            code: self.code,
            message: self.message@,
            headers: self.headers@.map_values(|h: HeaderValueOption| h@),
            dynamic_metadata: match self.dynamic_metadata {
                Some(m) => Some(m@),
                None => None,
            },
        }
    }
}

/// Whether a key has an expiry that lies before `now`.
pub open spec fn is_expired(key: ApiKeyView, now: Timestamp) -> bool {
    match key.expires_at {
        Some(e) => e.micros < now.micros,
        None => false,
    }
}

/// The key that may pass at `now`, given what the store found for the
/// credential: the key found, unless it is expired or revoked.
pub open spec fn resolved(found: Option<ApiKeyView>, now: Timestamp) -> Result<ApiKeyView, Error> {
    match found {
        Some(key) => if is_expired(key, now) || key.status == ApiKeyStatus::Revoked {
            Err(Error::NotFound)
        } else {
            Ok(key)
        },
        None => Err(Error::NotFound),
    }
}

/// The answer that lets a request pass: the owner of the key as a header
/// that replaces any value sent, and the dynamic metadata of the key.
pub open spec fn allowed(key: ApiKeyView) -> CheckResponseView {
    CheckResponseView {
        code: Code::Okay,
        message: "welcome bro"@,
        headers: seq![("x-custom-lightbridge-authz-user-id"@, key.user_id, false)],
        dynamic_metadata: Some(dynamic_metadata(key)),
    }
}

/// The answer that turns a request away, with a short reason and nothing
/// else.
pub open spec fn denied(message: Seq<char>) -> CheckResponseView {
    CheckResponseView {
        code: Code::PermissionDenied,
        message,
        headers: Seq::empty(),
        dynamic_metadata: None,
    }
}

/// The answer to a request, given its credential and what the store found
/// for it: without a credential the key is missing; with one, the request
/// passes if the key found may pass at `now`, and else the key is invalid.
pub open spec fn decision(
    credential: Option<Seq<char>>,
    found: Option<ApiKeyView>,
    now: Timestamp,
) -> CheckResponseView {
    match credential {
        None => denied("API key missing"@),
        Some(_) => match resolved(found, now) {
            Ok(key) => allowed(key),
            Err(_) => denied("Invalid API key"@),
        },
    }
}

/// The answer to a request at `now`, over the keys of `store`.
pub open spec fn check_answer(store: StoreView, req: Option<HttpRequestView>, now: Timestamp)
    -> CheckResponseView {
    match request_credential(req) {
        Some(token) => decision(Some(token), store.find_api_key_for_authz(token), now),
        None => decision(None, None, now),
    }
}

/// What a result holds, where it holds a key.
pub open spec fn resolved_view(r: Result<ApiKey, Error>) -> Result<ApiKeyView, Error> {
    match r {
        Ok(k) => Ok(k@),
        Err(e) => Err(e),
    }
}

/// The key that may pass at `now`, given what the store found for the
/// credential. A key that is expired or revoked is as good as none.
pub fn resolve(found: Option<ApiKey>, now: Timestamp) -> (r: Result<ApiKey, Error>)
    ensures
        resolved_view(r) == resolved(key_opt(found), now),
{
    match found {
        Some(key) => {
            if let Some(expires_at) = key.expires_at {
                if expires_at.is_before(&now) {
                    return Err(Error::NotFound);
                }
            }
            match key.status {
                ApiKeyStatus::Revoked => Err(Error::NotFound),
                ApiKeyStatus::Active => Ok(key),
            }
        },
        None => Err(Error::NotFound),
    }
}

/// The answer that turns a request away.
fn deny(message: &str) -> (r: CheckResponse)
    ensures
        r@ == denied(message@),
{
    let r = CheckResponse {
        code: Code::PermissionDenied,
        message: message.to_owned(),
        headers: Vec::new(),
        dynamic_metadata: None,
    };
    assert(r@.headers =~= Seq::empty());
    r
}

/// The answer to a request, given its credential and what the store found
/// for it.
pub fn decide(credential: Option<String>, found: Option<ApiKey>, now: Timestamp) -> (r:
    CheckResponse)
    ensures
        r@ == decision(string_opt(credential), key_opt(found), now),
{
    match credential {
        None => deny("API key missing"),
        Some(_) => match resolve(found, now) {
            Ok(key) => {
                let mut headers: Vec<HeaderValueOption> = Vec::new();
                headers.push(
                    HeaderValueOption {
                        key: "x-custom-lightbridge-authz-user-id".to_owned(),
                        value: key.user_id.clone(),
                        append: false,
                    },
                );
                let ghost k = key@;
                let metadata = match api_key_to_dynamic_metadata(key) {
                    Ok(m) => m,
                    Err(_) => {
                        return deny("Invalid API key");
                    },
                };
                let r = CheckResponse {
                    code: Code::Okay,
                    message: "welcome bro".to_owned(),
                    headers,
                    dynamic_metadata: Some(metadata),
                };
                assert(r@.headers =~= allowed(k).headers);
                r
            },
            Err(_) => deny("Invalid API key"),
        },
    }
}

/// The authorization server: the store of keys, and the decision on each
/// request.
#[derive(Debug)]
pub struct AuthServer {
    pub store: ApiKeyRepo,
}

impl AuthServer {
    /// Whether the store meets the constraints of the schema.
    pub open spec fn wf(&self) -> bool {
        self.store.wf()
    }

    /// A server over `store`.
    pub fn new(store: ApiKeyRepo) -> (r: AuthServer)
        ensures
            r.store == store,
    {
        AuthServer { store }
    }

    /// The dynamic metadata of a key.
    pub fn api_key_to_dynamic_metadata(&self, api_key: ApiKey) -> (r: Result<Struct, Error>)
        ensures
            r.is_ok(),
            r.unwrap()@ == dynamic_metadata(api_key@),
    {
        api_key_to_dynamic_metadata(api_key)
    }

    /// The structured value of a JSON value.
    pub fn json_value_to_prost_value(&self, json_val: JsonValue) -> (r: Value)
        ensures
            r@ == proto_of(json_val@),
    {
        json_value_to_prost_value(json_val)
    }

    /// The structure of a JSON object: each member as a field.
    pub fn json_map_to_prost_struct(&self, json_map: Vec<JsonField>) -> (r: Struct)
        ensures
            r@ == struct_of(members_view(json_map@)),
    {
        json_map_to_prost_struct(&json_map)
    }

    /// The key that `token` stands for, if it may pass at `now`.
    pub fn resolve_api_key_at(&self, token: &str, now: Timestamp) -> (r: Result<ApiKey, Error>)
        requires
            self.wf(),
        ensures
            resolved_view(r) == resolved(self.store@.find_api_key_for_authz(token@), now),
    {
        match self.store.find_api_key_for_authz(token) {
            Ok(found) => resolve(found, now),
            Err(e) => Err(e),
        }
    }

    /// The key that `token` stands for, if it may pass at the time that the
    /// clock gives.
    pub fn resolve_api_key(&self, token: &str) -> (r: Result<ApiKey, Error>)
        requires
            self.wf(),
        ensures
            exists|now: Timestamp|
                resolved_view(r) == #[trigger] resolved(
                    self.store@.find_api_key_for_authz(token@),
                    now,
                ),
    {
        let now = crate::time::now();
        self.resolve_api_key_at(token, now)
    }

    /// The dynamic metadata of the key that `token` stands for, if it may
    /// pass at `now`.
    pub fn build_dynamic_metadata_at(&self, token: &str, now: Timestamp) -> (r: Result<
        Struct,
        Error,
    >)
        requires
            self.wf(),
        ensures
            match resolved(self.store@.find_api_key_for_authz(token@), now) {
                Ok(key) => r.is_ok() && r.unwrap()@ == dynamic_metadata(key),
                Err(e) => r == Err::<Struct, Error>(e),
            },
    {
        match self.resolve_api_key_at(token, now) {
            Ok(key) => api_key_to_dynamic_metadata(key),
            Err(e) => Err(e),
        }
    }

    /// The dynamic metadata of the key that `token` stands for, if it may
    /// pass at the time that the clock gives.
    pub fn build_dynamic_metadata(&self, token: &str) -> (r: Result<Struct, Error>)
        requires
            self.wf(),
        ensures
            exists|now: Timestamp|
                match #[trigger] resolved(self.store@.find_api_key_for_authz(token@), now) {
                    Ok(key) => r.is_ok() && r.unwrap()@ == dynamic_metadata(key),
                    Err(e) => r == Err::<Struct, Error>(e),
                },
    {
        let now = crate::time::now();
        self.build_dynamic_metadata_at(token, now)
    }

    /// The answer to `request` at `now`. The store is not changed.
    pub fn check_at(&self, request: CheckRequest, now: Timestamp) -> (r: CheckResponse)
        requires
            self.wf(),
        ensures
            r@ == check_answer(self.store@, request@, now),
    {
        match get_api_key(request) {
            Some(token) => {
                let found = match self.store.find_api_key_for_authz(token.as_str()) {
                    Ok(found) => found,
                    Err(_) => None,
                };
                decide(Some(token), found, now)
            },
            None => decide(None, None, now),
        }
    }

    /// The answer to `request` at the time that the clock gives.
    pub fn check(&self, request: CheckRequest) -> (r: CheckResponse)
        requires
            self.wf(),
        ensures
            exists|now: Timestamp| r@ == #[trigger] check_answer(self.store@, request@, now),
    {
        let now = crate::time::now();
        self.check_at(request, now)
    }
}

} // verus!
