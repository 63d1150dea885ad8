//! The management service: what an authenticated user may do with their
//! own keys.

use vstd::prelude::*;
use crate::api_key::{
    Acl, ApiKey, ApiKeyView, CreateApiKey, CreateApiKeyView, PatchApiKey, PatchApiKeyView,
};
use crate::error::Error;
use crate::ident::{generate_key, is_key_text};
use crate::store::{key_result, keys_result, ApiKeyRepo};
use crate::time::Timestamp;

verus! {

/// How many keys a listing returns at most.
pub const LIST_LIMIT: i64 = 100;

/// The request that creates a key with the list `acl` and nothing else.
pub open spec fn create_with_acl(acl: crate::api_key::AclView) -> CreateApiKeyView {
    CreateApiKeyView { expires_at: None, metadata: None, acl: Some(acl) }
}

/// The patch that replaces the list by `acl` and changes nothing else.
pub open spec fn patch_with_acl(acl: crate::api_key::AclView) -> PatchApiKeyView {
    PatchApiKeyView { expires_at: None, metadata: None, status: None, acl: Some(acl) }
}

/// The key that a lookup gave, or not found.
pub open spec fn found_or_missing(found: Option<ApiKeyView>) -> Result<ApiKeyView, Error> {
    match found {
        Some(k) => Ok(k),
        None => Err(Error::NotFound),
    }
}

/// Creates a key for `user_id` with the list `acl`, under a fresh
/// credential of the shape `sk-<slug>-<id>`. Whatever credential, ids and
/// time were drawn, the outcome is that of [`ApiKeyRepo::create_with`] for them.
pub fn create_api_key(store: &mut ApiKeyRepo, user_id: &str, acl: Acl) -> (r: Result<ApiKey, Error>)
    requires
        old(store).wf(),
    ensures
        final(store).wf(),
        exists|key_hash: Seq<char>, key_id: Seq<char>, acl_id: Seq<char>, now: Timestamp|
            is_key_text(key_hash) && final(store)@ == #[trigger] old(store)@.after_create(
                user_id@,
                create_with_acl(acl@),
                key_hash,
                key_id,
                acl_id,
                now,
            ) && key_result(r) == old(store)@.create_result(
                user_id@,
                create_with_acl(acl@),
                key_hash,
                key_id,
                acl_id,
                now,
            ),
{
    let input = CreateApiKey { expires_at: None, metadata: None, acl: Some(acl) };
    let key_plain = generate_key();
    store.create(user_id, input, key_plain)
}

/// The key with the id `key_id`, if `user_id` owns it.
pub fn get_api_key(store: &ApiKeyRepo, user_id: &str, key_id: &str) -> (r: Result<
    Option<ApiKey>,
    Error,
>)
    requires
        store.wf(),
    ensures
        r.is_ok(),
        crate::api_key::key_opt(r.unwrap()) == store@.find_by_id(user_id@, key_id@),
{
    store.find_by_id(user_id, key_id)
}

/// Replaces the list of the key `key_id` of `user_id` by `acl`, at the
/// time that the clock gives.
pub fn update_api_key(store: &mut ApiKeyRepo, user_id: &str, key_id: &str, acl: Acl) -> (r: Result<
    ApiKey,
    Error,
>)
    requires
        old(store).wf(),
    ensures
        final(store).wf(),
        exists|now: Timestamp|
            final(store)@ == old(store)@.after_update(
                user_id@,
                key_id@,
                patch_with_acl(acl@),
                now,
            ) && key_result(r) == #[trigger] old(store)@.update_result(
                user_id@,
                key_id@,
                patch_with_acl(acl@),
                now,
            ),
{
    let patch = PatchApiKey { expires_at: None, metadata: None, status: None, acl: Some(acl) };
    store.update(user_id, key_id, patch)
}

/// Revokes the key `key_id` of `user_id`. This always succeeds: where the
/// user owns no such key, nothing changes.
pub fn delete_api_key(store: &mut ApiKeyRepo, user_id: &str, key_id: &str) -> (r: Result<(), Error>)
    requires
        old(store).wf(),
    ensures
        final(store).wf(),
        r.is_ok(),
        final(store)@ == old(store)@.after_delete(user_id@, key_id@),
{
    let _ = store.delete(user_id, key_id);
    Ok(())
}

/// The keys of `user_id`, newest first, a hundred at most.
pub fn list_api_keys(store: &ApiKeyRepo, user_id: &str) -> (r: Result<Vec<ApiKey>, Error>)
    requires
        store.wf(),
    ensures
        keys_result(r) == store@.find_all(user_id@, LIST_LIMIT, 0),
{
    store.find_all(user_id, LIST_LIMIT, 0)
}

/// The management service over a store of its own.
#[derive(Debug)]
pub struct APIKeyHandlerImpl {
    pub store: ApiKeyRepo,
}

impl APIKeyHandlerImpl {
    /// Whether the store meets the constraints of the schema.
    pub open spec fn wf(&self) -> bool {
        self.store.wf()
    }

    /// A service over `store`.
    pub fn with_store(store: ApiKeyRepo) -> (r: APIKeyHandlerImpl)
        ensures
            r.store == store,
    {
        APIKeyHandlerImpl { store }
    }

    /// Creates a key for `user_id` as `input` asks, under a fresh
    /// credential of the shape `sk-<slug>-<id>`. Whatever credential, ids
    /// and time were drawn, the outcome is that of [`ApiKeyRepo::create_with`]
    /// for them.
    pub fn create_api_key(&mut self, user_id: String, input: CreateApiKey) -> (r: Result<
        ApiKey,
        Error,
    >)
        requires
            old(self).wf(),
        ensures
            final(self).wf(),
            exists|key_hash: Seq<char>, key_id: Seq<char>, acl_id: Seq<char>, now: Timestamp|
                is_key_text(key_hash) && final(self).store@ == #[trigger] old(
                    self,
                ).store@.after_create(user_id@, input@, key_hash, key_id, acl_id, now)
                    && key_result(r) == old(self).store@.create_result(
                    user_id@,
                    input@,
                    key_hash,
                    key_id,
                    acl_id,
                    now,
                ),
    {
        let key_plain = generate_key();
        self.store.create(user_id.as_str(), input, key_plain)
    }

    /// The key with the id `api_key_id`, if `user_id` owns it; not found
    /// otherwise, also where the key exists and is another user's.
    pub fn get_api_key(&self, user_id: String, api_key_id: String) -> (r: Result<ApiKey, Error>)
        requires
            self.wf(),
        ensures
            key_result(r) == found_or_missing(self.store@.find_by_id(user_id@, api_key_id@)),
    {
        match self.store.find_by_id(user_id.as_str(), api_key_id.as_str()) {
            Ok(Some(key)) => Ok(key),
            Ok(None) => Err(Error::NotFound),
            Err(e) => Err(e),
        }
    }

    /// Changes the key `api_key_id` of `user_id` as `input` says, at the
    /// time `now`.
    pub fn patch_api_key_at(
        &mut self,
        user_id: String,
        api_key_id: String,
        input: PatchApiKey,
        now: Timestamp,
    ) -> (r: Result<ApiKey, Error>)
        requires
            old(self).wf(),
        ensures
            final(self).wf(),
            final(self).store@ == old(self).store@.after_update(
                user_id@,
                api_key_id@,
                input@,
                now,
            ),
            key_result(r) == old(self).store@.update_result(user_id@, api_key_id@, input@, now),
    {
        self.store.update_at(user_id.as_str(), api_key_id.as_str(), input, now)
    }

    /// Changes the key `api_key_id` of `user_id` as `input` says, at the
    /// time that the clock gives.
    pub fn patch_api_key(&mut self, user_id: String, api_key_id: String, input: PatchApiKey) -> (r:
        Result<ApiKey, Error>)
        requires
            old(self).wf(),
        ensures
            final(self).wf(),
            exists|now: Timestamp|
                final(self).store@ == old(self).store@.after_update(
                    user_id@,
                    api_key_id@,
                    input@,
                    now,
                ) && key_result(r) == #[trigger] old(self).store@.update_result(
                    user_id@,
                    api_key_id@,
                    input@,
                    now,
                ),
    {
        self.store.update(user_id.as_str(), api_key_id.as_str(), input)
    }

    /// Revokes the key `api_key_id` of `user_id`. This always succeeds.
    pub fn delete_api_key(&mut self, user_id: String, api_key_id: String) -> (r: Result<(), Error>)
        requires
            old(self).wf(),
        ensures
            final(self).wf(),
            r.is_ok(),
            final(self).store@ == old(self).store@.after_delete(user_id@, api_key_id@),
    {
        let _ = self.store.delete(user_id.as_str(), api_key_id.as_str());
        Ok(())
    }

    /// The keys of `user_id`, newest first, a hundred at most.
    pub fn list_api_keys(&self, user_id: String) -> (r: Result<Vec<ApiKey>, Error>)
        requires
            self.wf(),
        ensures
            keys_result(r) == self.store@.find_all(user_id@, LIST_LIMIT, 0),
    {
        self.store.find_all(user_id.as_str(), LIST_LIMIT, 0)
    }
}

/// The management service over a store that the caller holds.
#[derive(Debug, Clone)]
pub struct APIKeyHandlerViaCrateImpl;

impl APIKeyHandlerViaCrateImpl {
    /// Creates a key for `user_id` with the list that `input` asks for, or
    /// the default list, and nothing else of `input`.
    pub fn create_api_key(&self, store: &mut ApiKeyRepo, user_id: String, input: CreateApiKey) -> (r:
        Result<ApiKey, Error>)
        requires
            old(store).wf(),
        ensures
            final(store).wf(),
            exists|key_hash: Seq<char>, key_id: Seq<char>, acl_id: Seq<char>, now: Timestamp|
                is_key_text(key_hash) && final(store)@ == #[trigger] old(store)@.after_create(
                    user_id@,
                    create_with_acl(crate::store::create_acl(input@)),
                    key_hash,
                    key_id,
                    acl_id,
                    now,
                ) && key_result(r) == old(store)@.create_result(
                    user_id@,
                    create_with_acl(crate::store::create_acl(input@)),
                    key_hash,
                    key_id,
                    acl_id,
                    now,
                ),
    {
        let acl = match input.acl {
            Some(a) => a,
            None => Acl::default(),
        };
        create_api_key(store, user_id.as_str(), acl)
    }

    /// The key with the id `key`, if `user_id` owns it; not found otherwise.
    pub fn get_api_key(&self, store: &ApiKeyRepo, user_id: String, key: String) -> (r: Result<
        ApiKey,
        Error,
    >)
        requires
            store.wf(),
        ensures
            key_result(r) == found_or_missing(store@.find_by_id(user_id@, key@)),
    {
        match get_api_key(store, user_id.as_str(), key.as_str()) {
            Ok(Some(k)) => Ok(k),
            Ok(None) => Err(Error::NotFound),
            Err(e) => Err(e),
        }
    }

    /// Replaces the list of the key `key` of `user_id` by `acl`.
    pub fn update_api_key(&self, store: &mut ApiKeyRepo, user_id: String, key: String, acl: Acl) -> (r:
        Result<ApiKey, Error>)
        requires
            old(store).wf(),
        ensures
            final(store).wf(),
            exists|now: Timestamp|
                final(store)@ == old(store)@.after_update(
                    user_id@,
                    key@,
                    patch_with_acl(acl@),
                    now,
                ) && key_result(r) == #[trigger] old(store)@.update_result(
                    user_id@,
                    key@,
                    patch_with_acl(acl@),
                    now,
                ),
    {
        update_api_key(store, user_id.as_str(), key.as_str(), acl)
    }

    /// Revokes the key `key` of `user_id`. This always succeeds.
    pub fn delete_api_key(&self, store: &mut ApiKeyRepo, user_id: String, key: String) -> (r: Result<
        (),
        Error,
    >)
        requires
            old(store).wf(),
        ensures
            final(store).wf(),
            r.is_ok(),
            final(store)@ == old(store)@.after_delete(user_id@, key@),
    {
        delete_api_key(store, user_id.as_str(), key.as_str())
    }

    /// The keys of `user_id`, newest first, a hundred at most.
    pub fn list_api_keys(&self, store: &ApiKeyRepo, user_id: String) -> (r: Result<Vec<ApiKey>, Error>)
        requires
            store.wf(),
        ensures
            keys_result(r) == store@.find_all(user_id@, LIST_LIMIT, 0),
    {
        list_api_keys(store, user_id.as_str())
    }
}

} // verus!
