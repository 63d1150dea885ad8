//! API keys and their access-control lists, as the management plane sees them.

use vstd::prelude::*;
use crate::json::{JsonValue, JsonView};
use crate::text::{lowered, text_eq, to_ascii_lowercase};
use crate::time::Timestamp;

verus! {

/// The life-cycle state of an API key.
#[derive(Clone, Copy, Debug, PartialEq, Eq, Structural)]
pub enum ApiKeyStatus {
    Active,
    Revoked,
}

/// The text under which a status is stored: lower case, always.
pub open spec fn status_text(status: ApiKeyStatus) -> Seq<char> {
    match status {
        ApiKeyStatus::Active => "active"@,
        ApiKeyStatus::Revoked => "revoked"@,
    }
}

/// The status that a stored text stands for: `revoked` in any case is
/// `Revoked`, every other text is `Active`.
pub open spec fn status_of_text(text: Seq<char>) -> ApiKeyStatus {
    if lowered(text) == "revoked"@ {
        ApiKeyStatus::Revoked
    } else {
        ApiKeyStatus::Active
    }
}

impl ApiKeyStatus {
    /// The stored form of the status.
    pub fn as_str(&self) -> (r: &'static str)
        ensures
            r@ == status_text(*self),
    {
        match self {
            ApiKeyStatus::Active => "active",
            ApiKeyStatus::Revoked => "revoked",
        }
    }

    /// The stored form of the status, as an owned string.
    pub fn to_string(&self) -> (r: String)
        ensures
            r@ == status_text(*self),
    {
        self.as_str().to_owned()
    }

    /// Reads a stored status leniently: any spelling of `revoked` revokes,
    /// anything else counts as active.
    pub fn from_text(text: &str) -> (r: ApiKeyStatus)
        ensures
            r == status_of_text(text@),
    {
        let lower = to_ascii_lowercase(text);
        if text_eq(lower.as_str(), "revoked") {
            ApiKeyStatus::Revoked
        } else {
            ApiKeyStatus::Active
        }
    }
}

impl From<String> for ApiKeyStatus {
    fn from(s: String) -> (r: ApiKeyStatus) {
        ApiKeyStatus::from_text(s.as_str())
    }
}

impl vstd::std_specs::convert::FromSpecImpl<String> for ApiKeyStatus {
    open spec fn obeys_from_spec() -> bool {
        true
    }

    open spec fn from_spec(s: String) -> ApiKeyStatus {
        status_of_text(s@)
    }
}

/// Writing a status and reading it back gives the status.
pub proof fn lemma_status_round_trip(status: ApiKeyStatus)
    ensures
        status_of_text(status_text(status)) == status,
{
    reveal_strlit("active");
    reveal_strlit("revoked");
    assert(lowered("revoked"@) =~= "revoked"@);
    assert(lowered("active"@).len() == 6);
}

/// How many requests a key may make in a window of time.
#[derive(Clone, Copy, Debug, PartialEq, Eq, Structural)]
pub struct RateLimit {
    pub requests: u32,
    pub window_seconds: u32,
}

impl Default for RateLimit {
    /// A thousand requests an hour.
    fn default() -> (r: RateLimit)
        ensures
            r == default_rate_limit(),
    {
        RateLimit { requests: 1000, window_seconds: 3600 }
    }
}

/// The rate limit of a key that was created without one.
pub open spec fn default_rate_limit() -> RateLimit {
    RateLimit { requests: 1000, window_seconds: 3600 }
}

/// The token budget of one model.
#[derive(Debug, PartialEq, Eq)]
pub struct ModelLimit {
    pub model: String,
    pub tokens: u64,
}

impl View for ModelLimit {
    type V = (Seq<char>, u64);

    open spec fn view(&self) -> (Seq<char>, u64) {
        (self.model@, self.tokens)
    }
}

impl Clone for ModelLimit {
    fn clone(&self) -> (r: Self)
        ensures
            r@ == self@,
    {
        ModelLimit { model: self.model.clone(), tokens: self.tokens }
    }
}

/// The texts that a sequence of strings holds.
pub open spec fn texts(v: Seq<String>) -> Seq<Seq<char>> {
    v.map_values(|s: String| s@)
}

/// The pairs that a sequence of token budgets holds.
pub open spec fn limits(v: Seq<ModelLimit>) -> Seq<(Seq<char>, u64)> {
    v.map_values(|m: ModelLimit| m@)
}

/// The budget that `entries` gives `model`: that of the first entry for it.
pub open spec fn limit_of(entries: Seq<(Seq<char>, u64)>, model: Seq<char>) -> Option<u64>
    decreases entries.len(),
{
    if entries.len() == 0 {
        None
    } else if entries[0].0 == model {
        Some(entries[0].1)
    } else {
        limit_of(entries.subrange(1, entries.len() as int), model)
    }
}

/// The models that `entries` names, in their order.
pub open spec fn limit_models(entries: Seq<(Seq<char>, u64)>) -> Seq<Seq<char>> {
    entries.map_values(|e: (Seq<char>, u64)| e.0)
}

/// `entries` read as a map from model to budget.
pub open spec fn limit_map(entries: Seq<(Seq<char>, u64)>) -> Map<Seq<char>, u64> {
    Map::new(
        |m: Seq<char>| limit_of(entries, m).is_some(),
        |m: Seq<char>| limit_of(entries, m).unwrap(),
    )
}

/// An access-control list: the models a key may use, the token budget of
/// each, and the rate of requests.
#[derive(Debug, PartialEq, Eq)]
pub struct Acl {
    pub allowed_models: Vec<String>,
    pub tokens_per_model: Vec<ModelLimit>,
    pub rate_limit: RateLimit,
}

/// The mathematical content of an [`Acl`].
pub struct AclView {
    pub allowed_models: Seq<Seq<char>>,
    pub tokens_per_model: Seq<(Seq<char>, u64)>,
    pub rate_limit: RateLimit,
}

impl AclView {
    /// The budgets form a map: no model has two of them.
    pub open spec fn wf(self) -> bool {
        limit_models(self.tokens_per_model).no_duplicates()
    }
}

/// The list of a key that was created without one: no models, no budgets,
/// the default rate limit.
pub open spec fn default_acl() -> AclView {
    AclView {
        allowed_models: Seq::empty(),
        tokens_per_model: Seq::empty(),
        rate_limit: default_rate_limit(),
    }
}

impl View for Acl {
    type V = AclView;

    open spec fn view(&self) -> AclView {
        AclView {
            allowed_models: texts(self.allowed_models@),
            tokens_per_model: limits(self.tokens_per_model@),
            rate_limit: self.rate_limit,
        }
    }
}

/// A copy of a list of strings.
pub fn clone_strings(v: &Vec<String>) -> (r: Vec<String>)
    ensures
        texts(r@) == texts(v@),
{
    let mut out: Vec<String> = Vec::new();
    let mut i: usize = 0;
    while i < v.len()
        invariant
            i <= v.len(),
            out.len() == i,
            forall|k: int| 0 <= k < i ==> (#[trigger] out[k])@ == v[k]@,
        decreases v.len() - i,
    {
        out.push(v[i].clone());
        i += 1;
    }
    assert(texts(out@) =~= texts(v@));
    out
}

/// A copy of a list of token budgets.
pub fn clone_limits(v: &Vec<ModelLimit>) -> (r: Vec<ModelLimit>)
    ensures
        limits(r@) == limits(v@),
{
    let mut out: Vec<ModelLimit> = Vec::new();
    let mut i: usize = 0;
    while i < v.len()
        invariant
            i <= v.len(),
            out.len() == i,
            forall|k: int| 0 <= k < i ==> (#[trigger] out[k])@ == v[k]@,
        decreases v.len() - i,
    {
        out.push(v[i].clone());
        i += 1;
    }
    assert(limits(out@) =~= limits(v@));
    out
}

impl Clone for Acl {
    fn clone(&self) -> (r: Self)
        ensures
            r@ == self@,
    {
        Acl {
            allowed_models: clone_strings(&self.allowed_models),
            tokens_per_model: clone_limits(&self.tokens_per_model),
            rate_limit: self.rate_limit,
        }
    }
}

impl Default for Acl {
    fn default() -> (r: Acl)
        ensures
            r@ == default_acl(),
    {
        let r = Acl {
            allowed_models: Vec::new(),
            tokens_per_model: Vec::new(),
            rate_limit: RateLimit::default(),
        };
        assert(r@.allowed_models =~= Seq::empty());
        assert(r@.tokens_per_model =~= Seq::empty());
        r
    }
}

/// What `o` holds, where it holds a JSON value.
pub open spec fn json_opt(o: Option<JsonValue>) -> Option<JsonView> {
    match o {
        Some(v) => Some(v@),
        None => None,
    }
}

/// What `o` holds, where it holds a list.
pub open spec fn acl_opt(o: Option<Acl>) -> Option<AclView> {
    match o {
        Some(a) => Some(a@),
        None => None,
    }
}

/// A copy of optional metadata.
pub fn clone_json_opt(o: &Option<JsonValue>) -> (r: Option<JsonValue>)
    ensures
        json_opt(r) == json_opt(*o),
{
    match o {
        Some(v) => Some(v.clone()),
        None => None,
    }
}

/// What a caller asks for when creating a key.
#[derive(Debug, PartialEq, Eq)]
pub struct CreateApiKey {
    pub expires_at: Option<Timestamp>,
    pub metadata: Option<JsonValue>,
    pub acl: Option<Acl>,
}

/// The mathematical content of a [`CreateApiKey`].
pub struct CreateApiKeyView {
    pub expires_at: Option<Timestamp>,
    pub metadata: Option<JsonView>,
    pub acl: Option<AclView>,
}

impl View for CreateApiKey {
    type V = CreateApiKeyView;

    open spec fn view(&self) -> CreateApiKeyView {
        CreateApiKeyView {
            expires_at: self.expires_at,
            metadata: json_opt(self.metadata),
            acl: acl_opt(self.acl),
        }
    }
}

impl Clone for CreateApiKey {
    fn clone(&self) -> (r: Self)
        ensures
            r@ == self@,
    {
        CreateApiKey {
            expires_at: self.expires_at,
            metadata: clone_json_opt(&self.metadata),
            acl: match &self.acl {
                Some(a) => Some(a.clone()),
                None => None,
            },
        }
    }
}

/// A change to a key. A field that is `None` leaves the key as it is. For
/// the expiry and the metadata, `Some(None)` clears the field and
/// `Some(Some(v))` sets it to `v`.
#[derive(Debug, PartialEq, Eq)]
pub struct PatchApiKey {
    pub expires_at: Option<Option<Timestamp>>,
    pub metadata: Option<Option<JsonValue>>,
    pub status: Option<ApiKeyStatus>,
    pub acl: Option<Acl>,
}

/// The mathematical content of a [`PatchApiKey`].
pub struct PatchApiKeyView {
    pub expires_at: Option<Option<Timestamp>>,
    pub metadata: Option<Option<JsonView>>,
    pub status: Option<ApiKeyStatus>,
    pub acl: Option<AclView>,
}

impl View for PatchApiKey {
    type V = PatchApiKeyView;

    open spec fn view(&self) -> PatchApiKeyView {
        PatchApiKeyView {
            expires_at: self.expires_at,
            metadata: match self.metadata {
                Some(m) => Some(json_opt(m)),
                None => None,
            },
            status: self.status,
            acl: acl_opt(self.acl),
        }
    }
}

impl Clone for PatchApiKey {
    fn clone(&self) -> (r: Self)
        ensures
            r@ == self@,
    {
        PatchApiKey {
            expires_at: self.expires_at,
            metadata: match &self.metadata {
                Some(m) => Some(clone_json_opt(m)),
                None => None,
            },
            status: self.status,
            acl: match &self.acl {
                Some(a) => Some(a.clone()),
                None => None,
            },
        }
    }
}

/// An API key with its access-control list.
///
/// `key_hash` is the credential that a client presents. It is stored as it
/// is, not digested, and every lookup at authorization time compares it for
/// equality.
#[derive(Debug, PartialEq, Eq)]
pub struct ApiKey {
    pub id: String,
    pub user_id: String,
    pub key_hash: String,
    pub created_at: Timestamp,
    pub expires_at: Option<Timestamp>,
    pub metadata: Option<JsonValue>,
    pub status: ApiKeyStatus,
    pub acl: Acl,
}

/// The mathematical content of an [`ApiKey`].
pub struct ApiKeyView {
    pub id: Seq<char>,
    pub user_id: Seq<char>,
    pub key_hash: Seq<char>,
    pub created_at: Timestamp,
    pub expires_at: Option<Timestamp>,
    pub metadata: Option<JsonView>,
    pub status: ApiKeyStatus,
    pub acl: AclView,
}

impl View for ApiKey {
    type V = ApiKeyView;

    open spec fn view(&self) -> ApiKeyView {
        ApiKeyView {
            id: self.id@,
            user_id: self.user_id@,
            key_hash: self.key_hash@,
            created_at: self.created_at,
            expires_at: self.expires_at,
            metadata: json_opt(self.metadata),
            status: self.status,
            acl: self.acl@,
        }
    }
}

impl Clone for ApiKey {
    fn clone(&self) -> (r: Self)
        ensures
            r@ == self@,
    {
        ApiKey {
            id: self.id.clone(),
            user_id: self.user_id.clone(),
            key_hash: self.key_hash.clone(),
            created_at: self.created_at,
            expires_at: self.expires_at,
            metadata: clone_json_opt(&self.metadata),
            status: self.status,
            acl: self.acl.clone(),
        }
    }
}

/// What `o` holds, where it holds a key.
pub open spec fn key_opt(o: Option<ApiKey>) -> Option<ApiKeyView> {
    match o {
        Some(k) => Some(k@),
        None => None,
    }
}

/// The keys that a sequence holds.
pub open spec fn keys(v: Seq<ApiKey>) -> Seq<ApiKeyView> {
    v.map_values(|k: ApiKey| k@)
}

} // verus!
