//! The management plane: for each route, the status and the body that the
//! authenticated user is answered with.

use vstd::prelude::*;
use crate::api_key::{ApiKey, ApiKeyView, CreateApiKey, PatchApiKey};
use crate::bearer::{BearerTokenService, TokenInfo};
use crate::error::{http_status, Error};
use crate::ident::is_key_text;
use crate::service::{found_or_missing, APIKeyHandlerImpl, LIST_LIMIT};
use crate::time::Timestamp;

verus! {

/// The status of a request that was served.
pub const OK: u16 = 200;

/// The status of a request that created a key.
pub const CREATED: u16 = 201;

/// The status of a request that was served and has nothing to say.
pub const NO_CONTENT: u16 = 204;

/// What the handlers of all routes share: the management service and the
/// service that checks bearer tokens.
#[derive(Debug)]
pub struct AppState {
    pub handler: APIKeyHandlerImpl,
    pub bearer: BearerTokenService,
}

impl AppState {
    /// Whether the store behind the handler meets the constraints of the
    /// schema.
    pub open spec fn wf(&self) -> bool {
        self.handler.wf()
    }
}

/// The body of the root route.
#[derive(Debug, Clone, PartialEq, Eq)]
pub struct RootResponse {
    pub status: String,
    pub message: String,
}

/// A key with a status, or the failure.
pub open spec fn with_status(status: u16, r: Result<ApiKeyView, Error>) -> Result<
    (u16, ApiKeyView),
    Error,
> {
    match r {
        Ok(k) => Ok((status, k)),
        Err(e) => Err(e),
    }
}

/// What a reply holds, where it holds a key.
pub open spec fn reply_view(r: Result<(u16, ApiKey), Error>) -> Result<(u16, ApiKeyView), Error> {
    match r {
        Ok((s, k)) => Ok((s, k@)),
        Err(e) => Err(e),
    }
}

/// The HTTP status of a reply: its own where the request was served, that
/// of the failure otherwise.
pub open spec fn reply_status<T>(r: Result<(u16, T), Error>) -> u16 {
    match r {
        Ok((s, _)) => s,
        Err(e) => http_status(e),
    }
}

/// `GET /`: the service greets.
pub fn root_handler() -> (r: (u16, RootResponse))
    ensures
        r.0 == OK,
        r.1.status@ == "ok"@,
        r.1.message@ == "Welcome to Lightbridge Authz API"@,
{
    (
        OK,
        RootResponse {
            status: "ok".to_owned(),
            message: "Welcome to Lightbridge Authz API".to_owned(),
        },
    )
}

/// `POST /api-keys`: creates a key for the subject of the token and
/// answers 201 with it.
pub fn create_api_key(state: &mut AppState, token_info: &TokenInfo, input: CreateApiKey) -> (r:
    Result<(u16, ApiKey), Error>)
    requires
        old(state).wf(),
    ensures
        final(state).wf(),
        final(state).bearer == old(state).bearer,
        exists|key_hash: Seq<char>, key_id: Seq<char>, acl_id: Seq<char>, now: Timestamp|
            is_key_text(key_hash) && final(state).handler.store@ == #[trigger] old(
                state,
            ).handler.store@.after_create(token_info.sub@, input@, key_hash, key_id, acl_id, now)
                && reply_view(r) == with_status(
                CREATED,
                old(state).handler.store@.create_result(
                    token_info.sub@,
                    input@,
                    key_hash,
                    key_id,
                    acl_id,
                    now,
                ),
            ),
{
    match state.handler.create_api_key(token_info.sub.clone(), input) {
        Ok(key) => Ok((CREATED, key)),
        Err(e) => Err(e),
    }
}

/// `GET /api-keys/{key}`: answers 200 with the key, if the subject of the
/// token owns it. A key of another user is not found, as if it were not
/// there.
pub fn get_api_key(state: &AppState, token_info: &TokenInfo, key: String) -> (r: Result<
    (u16, ApiKey),
    Error,
>)
    requires
        state.wf(),
    ensures
        reply_view(r) == with_status(
            OK,
            found_or_missing(state.handler.store@.find_by_id(token_info.sub@, key@)),
        ),
{
    match state.handler.get_api_key(token_info.sub.clone(), key) {
        Ok(k) => Ok((OK, k)),
        Err(e) => Err(e),
    }
}

/// `PUT /api-keys/{key}`: changes the key as the body says and answers 200
/// with the key as it is then.
pub fn patch_api_key(
    state: &mut AppState,
    token_info: &TokenInfo,
    key: String,
    input: PatchApiKey,
) -> (r: Result<(u16, ApiKey), Error>)
    requires
        old(state).wf(),
    ensures
        final(state).wf(),
        final(state).bearer == old(state).bearer,
        exists|now: Timestamp|
            final(state).handler.store@ == old(state).handler.store@.after_update(
                token_info.sub@,
                key@,
                input@,
                now,
            ) && reply_view(r) == with_status(
                OK,
                #[trigger] old(state).handler.store@.update_result(
                    token_info.sub@,
                    key@,
                    input@,
                    now,
                ),
            ),
{
    match state.handler.patch_api_key(token_info.sub.clone(), key, input) {
        Ok(k) => Ok((OK, k)),
        Err(e) => Err(e),
    }
}

/// `DELETE /api-keys/{key}`: revokes the key, if the subject of the token
/// owns it, and answers 204 either way.
pub fn delete_api_key(state: &mut AppState, token_info: &TokenInfo, key: String) -> (r: Result<
    u16,
    Error,
>)
    requires
        old(state).wf(),
    ensures
        final(state).wf(),
        final(state).bearer == old(state).bearer,
        r == Ok::<u16, Error>(NO_CONTENT),
        final(state).handler.store@ == old(state).handler.store@.after_delete(
            token_info.sub@,
            key@,
        ),
{
    let _ = state.handler.delete_api_key(token_info.sub.clone(), key);
    Ok(NO_CONTENT)
}

/// `GET /api-keys`: answers 200 with the keys of the subject of the token,
/// newest first, a hundred at most.
pub fn list_api_keys(state: &AppState, token_info: &TokenInfo) -> (r: Result<
    (u16, Vec<ApiKey>),
    Error,
>)
    requires
        state.wf(),
    ensures
        match state.handler.store@.find_all(token_info.sub@, LIST_LIMIT, 0) {
            Ok(found) => r.is_ok() && r.unwrap().0 == OK && crate::api_key::keys(r.unwrap().1@)
                == found,
            Err(e) => r.is_err() && r.unwrap_err() == e,
        },
{
    match state.handler.list_api_keys(token_info.sub.clone()) {
        Ok(found) => Ok((OK, found)),
        Err(e) => Err(e),
    }
}

} // verus!
