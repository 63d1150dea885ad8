//! Bearer tokens of the management plane: where a request carries one, what
//! is asked of the key set to check it, and what a checked token yields.

use vstd::prelude::*;
use crate::config::Oauth2;
use crate::error::Error;
use crate::text::{lowered, text_eq, to_ascii_lowercase, trim, trimmed};

verus! {

/// Who a valid token speaks for, and until when.
#[derive(Debug, Clone, PartialEq, Eq)]
pub struct TokenInfo {
    pub active: bool,
    pub sub: String,
    pub exp: u64,
}

/// The mathematical content of a [`TokenInfo`].
pub struct TokenInfoView {
    pub active: bool,
    pub sub: Seq<char>,
    pub exp: u64,
}

impl View for TokenInfo {
    type V = TokenInfoView;

    open spec fn view(&self) -> TokenInfoView {
        TokenInfoView { active: self.active, sub: self.sub@, exp: self.exp }
    }
}

/// What the header of a token says of its key: the name of the algorithm
/// and, if given, the id of the key.
#[derive(Debug, Clone, PartialEq, Eq)]
pub struct JwtHeader {
    pub alg: String,
    pub kid: Option<String>,
}

/// The mathematical content of a [`JwtHeader`].
pub struct JwtHeaderView {
    pub alg: Seq<char>,
    pub kid: Option<Seq<char>>,
}

impl View for JwtHeader {
    type V = JwtHeaderView;

    open spec fn view(&self) -> JwtHeaderView {
        JwtHeaderView {
            alg: self.alg@,
            kid: match self.kid {
                Some(k) => Some(k@),
                None => None,
            },
        }
    }
}

/// What a header holds, where there is one.
pub open spec fn header_opt(o: Option<JwtHeader>) -> Option<JwtHeaderView> {
    match o {
        Some(h) => Some(h@),
        None => None,
    }
}

/// What is asked of the key set before a token can be checked.
#[derive(Debug, Clone, PartialEq, Eq)]
pub struct KeyRequest {
    /// Where the key set is published.
    pub jwks_url: String,
    /// The id of the key that signed the token.
    pub kid: String,
    /// The name of the algorithm that the token declares.
    pub alg: String,
    /// The token, trimmed.
    pub token: String,
}

/// The mathematical content of a [`KeyRequest`].
pub struct KeyRequestView {
    pub jwks_url: Seq<char>,
    pub kid: Seq<char>,
    pub alg: Seq<char>,
    pub token: Seq<char>,
}

impl View for KeyRequest {
    type V = KeyRequestView;

    open spec fn view(&self) -> KeyRequestView {
        KeyRequestView {
            jwks_url: self.jwks_url@,
            kid: self.kid@,
            alg: self.alg@,
            token: self.token@,
        }
    }
}

/// What came of checking a token against the key set.
#[derive(Debug, Clone, PartialEq, Eq)]
pub enum KeyOutcome {
    /// The key set could not be fetched.
    FetchFailed,
    /// The key set has no key with the id asked for.
    KeyMissing,
    /// The signature or the temporal claims did not hold.
    Rejected,
    /// The token holds: its subject and its expiry, as far as it has them.
    Claims { sub: Option<String>, exp: Option<u64> },
}

/// The header of `token` as `jsonwebtoken::decode_header` reads it, without
/// checking any signature; `None` where the token does not have three parts
/// or its first part is not a header.
pub uninterp spec fn jwt_header(token: Seq<char>) -> Option<JwtHeaderView>;

/// `jsonwebtoken::decode_header`: the header of a token, read without any
/// validation. The outcome depends on the token alone. Of the header the
/// key id is kept, and the algorithm under the name of its variant.
#[verifier::external_body]
fn decode_header(token: &str) -> (r: Option<JwtHeader>)
    ensures
        header_opt(r) == jwt_header(token@),
{
    match jsonwebtoken::decode_header(token) {
        Ok(header) => Some(JwtHeader { alg: format!("{:?}", header.alg), kid: header.kid }),
        Err(_) => None,
    }
}

/// The bearer token that an `Authorization` header carries: what follows
/// `bearer ` in any case at the start of the trimmed value, trimmed.
pub open spec fn bearer_token(header: Seq<char>) -> Option<Seq<char>> {
    let h = trimmed(header);
    if h.len() >= 7 && lowered(h.subrange(0, 7)) == "bearer "@ {
        Some(trimmed(h.subrange(7, h.len() as int)))
    } else {
        None
    }
}

/// What a token asks of the key set, given its header as it was decoded:
/// nothing can be asked where the token is blank, has no header, or names
/// no key.
pub open spec fn key_request(jwks_url: Seq<char>, token: Seq<char>, header: Option<JwtHeaderView>)
    -> Result<KeyRequestView, Error> {
    if trimmed(token).len() == 0 {
        Err(Error::Unauthorized)
    } else {
        match header {
            Some(h) => match h.kid {
                Some(kid) => Ok(
                    KeyRequestView { jwks_url, kid, alg: h.alg, token: trimmed(token) },
                ),
                None => Err(Error::Unauthorized),
            },
            None => Err(Error::Unauthorized),
        }
    }
}

/// What a checked token yields: an active token for its subject, where the
/// check held and the token has a subject and an expiry.
pub open spec fn token_info(sub: Option<Seq<char>>, exp: Option<u64>) -> Result<
    TokenInfoView,
    Error,
> {
    match (sub, exp) {
        (Some(sub), Some(exp)) => Ok(TokenInfoView { active: true, sub, exp }),
        _ => Err(Error::Unauthorized),
    }
}

/// What a result holds, where it holds a request to the key set.
pub open spec fn request_result(r: Result<KeyRequest, Error>) -> Result<KeyRequestView, Error> {
    match r {
        Ok(k) => Ok(k@),
        Err(e) => Err(e),
    }
}

/// What a result holds, where it holds a token's information.
pub open spec fn info_result(r: Result<TokenInfo, Error>) -> Result<TokenInfoView, Error> {
    match r {
        Ok(k) => Ok(k@),
        Err(e) => Err(e),
    }
}

/// The bearer token that an `Authorization` header carries, if any.
pub fn bearer_token_of(header: &str) -> (r: Option<String>)
    ensures
        crate::server::string_opt(r) == bearer_token(header@),
{
    let h = trim(header);
    let n = h.unicode_len();
    if n >= 7 {
        let prefix = to_ascii_lowercase(h.substring_char(0, 7));
        if text_eq(prefix.as_str(), "bearer ") {
            return Some(trim(h.substring_char(7, n)).to_owned());
        }
    }
    None
}

/// The service that checks bearer tokens against a published key set.
#[derive(Debug, Clone)]
pub struct BearerTokenService {
    pub config: Oauth2,
}

impl BearerTokenService {
    /// A service for the key set that `config` names.
    pub fn new(config: Oauth2) -> (r: BearerTokenService)
        ensures
            r.config == config,
    {
        BearerTokenService { config }
    }

    /// What `token` asks of the key set, given its header as it was
    /// decoded.
    pub fn key_request_for(&self, token: &str, header: Option<JwtHeader>) -> (r: Result<
        KeyRequest,
        Error,
    >)
        ensures
            request_result(r) == key_request(self.config.jwks_url@, token@, header_opt(header)),
    {
        let token = trim(token);
        if token.unicode_len() == 0 {
            return Err(Error::Unauthorized);
        }
        match header {
            Some(h) => match h.kid {
                Some(kid) => Ok(
                    KeyRequest {
                        jwks_url: self.config.jwks_url.clone(),
                        kid,
                        alg: h.alg,
                        token: token.to_owned(),
                    },
                ),
                None => Err(Error::Unauthorized),
            },
            None => Err(Error::Unauthorized),
        }
    }

    /// The first step of checking `token`: what it asks of the key set. A
    /// blank token, a token without a readable header and a token that
    /// names no key are unauthorized.
    pub fn begin_validation(&self, token: &str) -> (r: Result<KeyRequest, Error>)
        ensures
            request_result(r) == key_request(
                self.config.jwks_url@,
                token@,
                jwt_header(trimmed(token@)),
            ),
    {
        let header = decode_header(trim(token));
        self.key_request_for(token, header)
    }

    /// The last step of checking a token: what came of the check decides.
    /// Only a token that held and has both a subject and an expiry is
    /// valid; everything else is unauthorized.
    pub fn finish_validation(outcome: KeyOutcome) -> (r: Result<TokenInfo, Error>)
        ensures
            info_result(r) == match outcome {
                KeyOutcome::Claims { sub, exp } => token_info(crate::server::string_opt(sub), exp),
                _ => Err(Error::Unauthorized),
            },
    {
        match outcome {
            KeyOutcome::Claims { sub: Some(sub), exp: Some(exp) } => Ok(
                TokenInfo { active: true, sub, exp },
            ),
            _ => Err(Error::Unauthorized),
        }
    }
}

/// Who may enter the management plane: the holder of a token that was
/// found valid and is active.
pub open spec fn entry_of(checked: Result<TokenInfoView, Error>) -> Result<TokenInfoView, Error> {
    match checked {
        Ok(info) => if info.active {
            Ok(info)
        } else {
            Err(Error::Unauthorized)
        },
        Err(_) => Err(Error::Unauthorized),
    }
}

/// Whether a request may enter the management plane, given what the check
/// of its token gave. Every failure is unauthorized.
pub fn let_in(checked: Result<TokenInfo, Error>) -> (r: Result<TokenInfo, Error>)
    ensures
        info_result(r) == entry_of(info_result(checked)),
{
    match checked {
        Ok(info) => {
            if info.active {
                Ok(info)
            } else {
                Err(Error::Unauthorized)
            }
        },
        Err(_) => Err(Error::Unauthorized),
    }
}

/// The token of a request to the management plane: that of its
/// `Authorization` header. Without the header, or without a bearer token
/// in it, the request is unauthorized.
pub fn bearer_auth(authorization: Option<&str>) -> (r: Result<String, Error>)
    ensures
        match authorization {
            Some(h) => match bearer_token(h@) {
                Some(t) => r.is_ok() && r.unwrap()@ == t,
                None => r == Err::<String, Error>(Error::Unauthorized),
            },
            None => r == Err::<String, Error>(Error::Unauthorized),
        },
{
    match authorization {
        Some(h) => match bearer_token_of(h) {
            Some(t) => Ok(t),
            None => Err(Error::Unauthorized),
        },
        None => Err(Error::Unauthorized),
    }
}

} // verus!
