//! The rows of the three tables: `api_keys`, `acls` and `acl_models`.

use vstd::prelude::*;
use crate::api_key::{clone_json_opt, json_opt};
use crate::json::{JsonValue, JsonView};
use crate::time::Timestamp;

verus! {

/// A row of `api_keys`.
#[derive(Debug, PartialEq, Eq)]
pub struct ApiKeyRow {
    pub id: String,
    pub user_id: String,
    pub key_hash: String,
    pub created_at: Timestamp,
    pub expires_at: Option<Timestamp>,
    pub metadata: Option<JsonValue>,
    pub status: String,
    pub acl_id: String,
}

/// A row of `api_keys` that is about to be inserted.
#[derive(Debug, PartialEq, Eq)]
pub struct NewApiKeyRow {
    pub id: String,
    pub user_id: String,
    pub key_hash: String,
    pub created_at: Timestamp,
    pub expires_at: Option<Timestamp>,
    pub metadata: Option<JsonValue>,
    pub status: String,
    pub acl_id: String,
}

/// The mathematical content of a row of `api_keys`.
pub struct ApiKeyRowView {
    pub id: Seq<char>,
    pub user_id: Seq<char>,
    pub key_hash: Seq<char>,
    pub created_at: Timestamp,
    pub expires_at: Option<Timestamp>,
    pub metadata: Option<JsonView>,
    pub status: Seq<char>,
    pub acl_id: Seq<char>,
}

impl View for ApiKeyRow {
    type V = ApiKeyRowView;

    open spec fn view(&self) -> ApiKeyRowView {
        ApiKeyRowView {
            id: self.id@,
            user_id: self.user_id@,
            key_hash: self.key_hash@,
            created_at: self.created_at,
            expires_at: self.expires_at,
            metadata: json_opt(self.metadata),
            status: self.status@,
            acl_id: self.acl_id@,
        }
    }
}

impl View for NewApiKeyRow {
    type V = ApiKeyRowView;

    open spec fn view(&self) -> ApiKeyRowView {
        ApiKeyRowView {
            id: self.id@,
            user_id: self.user_id@,
            key_hash: self.key_hash@,
            created_at: self.created_at,
            expires_at: self.expires_at,
            metadata: json_opt(self.metadata),
            status: self.status@,
            acl_id: self.acl_id@,
        }
    }
}

impl Clone for ApiKeyRow {
    fn clone(&self) -> (r: Self)
        ensures
            r@ == self@,
    {
        ApiKeyRow {
            id: self.id.clone(),
            user_id: self.user_id.clone(),
            key_hash: self.key_hash.clone(),
            created_at: self.created_at,
            expires_at: self.expires_at,
            metadata: clone_json_opt(&self.metadata),
            status: self.status.clone(),
            acl_id: self.acl_id.clone(),
        }
    }
}

impl Clone for NewApiKeyRow {
    fn clone(&self) -> (r: Self)
        ensures
            r@ == self@,
    {
        NewApiKeyRow {
            id: self.id.clone(),
            user_id: self.user_id.clone(),
            key_hash: self.key_hash.clone(),
            created_at: self.created_at,
            expires_at: self.expires_at,
            metadata: clone_json_opt(&self.metadata),
            status: self.status.clone(),
            acl_id: self.acl_id.clone(),
        }
    }
}

impl NewApiKeyRow {
    /// The row as it stands in the table once inserted.
    pub fn into_row(self) -> (r: ApiKeyRow)
        ensures
            r@ == self@,
    {
        ApiKeyRow {
            id: self.id,
            user_id: self.user_id,
            key_hash: self.key_hash,
            created_at: self.created_at,
            expires_at: self.expires_at,
            metadata: self.metadata,
            status: self.status,
            acl_id: self.acl_id,
        }
    }
}

/// A row of `acls`.
#[derive(Debug, PartialEq, Eq)]
pub struct AclRow {
    pub id: String,
    pub rate_limit_requests: i32,
    pub rate_limit_window: i32,
    pub created_at: Timestamp,
    pub updated_at: Timestamp,
}

/// A row of `acls` that is about to be inserted.
#[derive(Debug, PartialEq, Eq)]
pub struct NewAclRow {
    pub id: String,
    pub rate_limit_requests: i32,
    pub rate_limit_window: i32,
    pub created_at: Timestamp,
    pub updated_at: Timestamp,
}

/// The mathematical content of a row of `acls`.
pub struct AclRowView {
    pub id: Seq<char>,
    pub rate_limit_requests: i32,
    pub rate_limit_window: i32,
    pub created_at: Timestamp,
    pub updated_at: Timestamp,
}

impl View for AclRow {
    type V = AclRowView;

    open spec fn view(&self) -> AclRowView {
        AclRowView {
            id: self.id@,
            rate_limit_requests: self.rate_limit_requests,
            rate_limit_window: self.rate_limit_window,
            created_at: self.created_at,
            updated_at: self.updated_at,
        }
    }
}

impl View for NewAclRow {
    type V = AclRowView;

    open spec fn view(&self) -> AclRowView {
        AclRowView {
            id: self.id@,
            rate_limit_requests: self.rate_limit_requests,
            rate_limit_window: self.rate_limit_window,
            created_at: self.created_at,
            updated_at: self.updated_at,
        }
    }
}

impl Clone for AclRow {
    fn clone(&self) -> (r: Self)
        ensures
            r@ == self@,
    {
        AclRow {
            id: self.id.clone(),
            rate_limit_requests: self.rate_limit_requests,
            rate_limit_window: self.rate_limit_window,
            created_at: self.created_at,
            updated_at: self.updated_at,
        }
    }
}

impl Clone for NewAclRow {
    fn clone(&self) -> (r: Self)
        ensures
            r@ == self@,
    {
        NewAclRow {
            id: self.id.clone(),
            rate_limit_requests: self.rate_limit_requests,
            rate_limit_window: self.rate_limit_window,
            created_at: self.created_at,
            updated_at: self.updated_at,
        }
    }
}

impl NewAclRow {
    /// The row as it stands in the table once inserted.
    pub fn into_row(self) -> (r: AclRow)
        ensures
            r@ == self@,
    {
        AclRow {
            id: self.id,
            rate_limit_requests: self.rate_limit_requests,
            rate_limit_window: self.rate_limit_window,
            created_at: self.created_at,
            updated_at: self.updated_at,
        }
    }
}

/// A row of `acl_models`.
#[derive(Debug, PartialEq, Eq)]
pub struct AclModelRow {
    pub acl_id: String,
    pub model_name: String,
    pub token_limit: i64,
}

/// A row of `acl_models` that is about to be inserted.
#[derive(Debug, PartialEq, Eq)]
pub struct NewAclModelRow {
    pub acl_id: String,
    pub model_name: String,
    pub token_limit: i64,
}

/// The mathematical content of a row of `acl_models`.
pub struct AclModelRowView {
    pub acl_id: Seq<char>,
    pub model_name: Seq<char>,
    pub token_limit: i64,
}

impl View for AclModelRow {
    type V = AclModelRowView;

    open spec fn view(&self) -> AclModelRowView {
        AclModelRowView {
            acl_id: self.acl_id@,
            model_name: self.model_name@,
            token_limit: self.token_limit,
        }
    }
}

impl View for NewAclModelRow {
    type V = AclModelRowView;

    open spec fn view(&self) -> AclModelRowView {
        AclModelRowView {
            acl_id: self.acl_id@,
            model_name: self.model_name@,
            token_limit: self.token_limit,
        }
    }
}

impl Clone for AclModelRow {
    fn clone(&self) -> (r: Self)
        ensures
            r@ == self@,
    {
        AclModelRow {
            acl_id: self.acl_id.clone(),
            model_name: self.model_name.clone(),
            token_limit: self.token_limit,
        }
    }
}

impl Clone for NewAclModelRow {
    fn clone(&self) -> (r: Self)
        ensures
            r@ == self@,
    {
        NewAclModelRow {
            acl_id: self.acl_id.clone(),
            model_name: self.model_name.clone(),
            token_limit: self.token_limit,
        }
    }
}

impl NewAclModelRow {
    /// The row as it stands in the table once inserted.
    pub fn into_row(self) -> (r: AclModelRow)
        ensures
            r@ == self@,
    {
        AclModelRow {
            acl_id: self.acl_id,
            model_name: self.model_name,
            token_limit: self.token_limit,
        }
    }
}

/// The rows that a sequence of key rows holds.
pub open spec fn key_rows(v: Seq<ApiKeyRow>) -> Seq<ApiKeyRowView> {
    v.map_values(|r: ApiKeyRow| r@)
}

/// The rows that a sequence of list rows holds.
pub open spec fn acl_rows(v: Seq<AclRow>) -> Seq<AclRowView> {
    v.map_values(|r: AclRow| r@)
}

/// The rows that a sequence of model rows holds.
pub open spec fn model_rows(v: Seq<AclModelRow>) -> Seq<AclModelRowView> {
    v.map_values(|r: AclModelRow| r@)
}

/// The rows that a sequence of model rows to insert holds.
pub open spec fn new_model_rows(v: Seq<NewAclModelRow>) -> Seq<AclModelRowView> {
    v.map_values(|r: NewAclModelRow| r@)
}

} // verus!
