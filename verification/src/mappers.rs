//! Between rows and domain values: how an access-control list is laid out in
//! `acls` and `acl_models`, and how a key is read back from its rows.

use vstd::prelude::*;
use crate::api_key::{
    clone_json_opt, limit_models, limit_of, limits, status_of_text, Acl, AclView, ApiKey,
    ApiKeyStatus, ApiKeyView, ModelLimit, RateLimit,
};
use crate::entities::{
    model_rows, new_model_rows, AclModelRow, AclModelRowView, AclRow, AclRowView, ApiKeyRow,
    ApiKeyRowView, NewAclModelRow, NewAclRow,
};
use crate::text::text_eq;
use crate::time::Timestamp;

verus! {

/// The token budget of a model that the list names without giving it one.
pub const DEFAULT_TOKEN_LIMIT: u64 = 10_000;

/// A 32-bit count as the signed column holds it: the same 32 bits.
pub open spec fn signed32(x: u32) -> i32 {
    if x <= 0x7fff_ffff {
        x as i32
    } else {
        (x - 0x1_0000_0000) as i32
    }
}

/// The 32-bit count that a signed column value stands for: the same 32 bits.
pub open spec fn unsigned32(x: i32) -> u32 {
    if x >= 0 {
        x as u32
    } else {
        (x + 0x1_0000_0000) as u32
    }
}

/// A 64-bit count as the signed column holds it: the same 64 bits.
pub open spec fn signed64(x: u64) -> i64 {
    if x <= 0x7fff_ffff_ffff_ffff {
        x as i64
    } else {
        (x - 0x1_0000_0000_0000_0000) as i64
    }
}

/// The 64-bit count that a signed column value stands for: the same 64 bits.
pub open spec fn unsigned64(x: i64) -> u64 {
    if x >= 0 {
        x as u64
    } else {
        (x + 0x1_0000_0000_0000_0000) as u64
    }
}

/// Computes [`signed32`].
pub fn to_signed32(x: u32) -> (r: i32)
    ensures
        r == signed32(x),
        unsigned32(r) == x,
{
    if x <= 0x7fff_ffff {
        x as i32
    } else {
        ((x - 0x8000_0000) as i32) + i32::MIN
    }
}

/// Computes [`unsigned32`].
pub fn to_unsigned32(x: i32) -> (r: u32)
    ensures
        r == unsigned32(x),
        signed32(r) == x,
{
    if x >= 0 {
        x as u32
    } else {
        ((x - i32::MIN) as u32) + 0x8000_0000
    }
}

/// Computes [`signed64`].
pub fn to_signed64(x: u64) -> (r: i64)
    ensures
        r == signed64(x),
        unsigned64(r) == x,
{
    if x <= 0x7fff_ffff_ffff_ffff {
        x as i64
    } else {
        ((x - 0x8000_0000_0000_0000) as i64) + i64::MIN
    }
}

/// Computes [`unsigned64`].
pub fn to_unsigned64(x: i64) -> (r: u64)
    ensures
        r == unsigned64(x),
        signed64(r) == x,
{
    if x >= 0 {
        x as u64
    } else {
        ((x - i64::MIN) as u64) + 0x8000_0000_0000_0000
    }
}

/// The list that a row of `acls` and the rows of `acl_models` under it
/// stand for: one allowed model and one budget per model row, in the rows'
/// order, and the rate limit of the list's own row.
pub open spec fn acl_of_rows(acl: AclRowView, models: Seq<AclModelRowView>) -> AclView {
    AclView {
        allowed_models: models.map_values(|m: AclModelRowView| m.model_name),
        tokens_per_model: models.map_values(
            |m: AclModelRowView| (m.model_name, unsigned64(m.token_limit)),
        ),
        rate_limit: RateLimit {
            requests: unsigned32(acl.rate_limit_requests),
            window_seconds: unsigned32(acl.rate_limit_window),
        },
    }
}

/// The key that a row of `api_keys` stands for, with the list read from
/// `acl` and `models`. The status text is read leniently.
pub open spec fn key_of_rows(
    row: ApiKeyRowView,
    acl: AclRowView,
    models: Seq<AclModelRowView>,
) -> ApiKeyView {
    ApiKeyView {
        id: row.id,
        user_id: row.user_id,
        key_hash: row.key_hash,
        created_at: row.created_at,
        expires_at: row.expires_at,
        metadata: row.metadata,
        status: status_of_text(row.status),
        acl: acl_of_rows(acl, models),
    }
}

/// The models that get a row: the allowed models, or, where none is
/// allowed, the models that have a budget.
pub open spec fn model_names(acl: AclView) -> Seq<Seq<char>> {
    if acl.allowed_models.len() > 0 {
        acl.allowed_models
    } else {
        limit_models(acl.tokens_per_model)
    }
}

/// The row of `acl_models` for `name` under the list `acl_id`: its budget
/// from the list, or the default where the list gives it none.
pub open spec fn model_row_for(acl: AclView, acl_id: Seq<char>, name: Seq<char>)
    -> AclModelRowView {
    AclModelRowView {
        acl_id,
        model_name: name,
        token_limit: signed64(
            match limit_of(acl.tokens_per_model, name) {
                Some(l) => l,
                None => DEFAULT_TOKEN_LIMIT,
            },
        ),
    }
}

/// The rows of `acl_models` that lay out `acl` under the id `acl_id`.
pub open spec fn model_rows_of(acl: AclView, acl_id: Seq<char>) -> Seq<AclModelRowView> {
    model_names(acl).map_values(|n: Seq<char>| model_row_for(acl, acl_id, n))
}

/// The row of `acls` that lays out `acl` under the id `acl_id`.
pub open spec fn acl_row_of(
    acl: AclView,
    acl_id: Seq<char>,
    created_at: Timestamp,
    updated_at: Timestamp,
) -> AclRowView {
    AclRowView {
        id: acl_id,
        rate_limit_requests: signed32(acl.rate_limit.requests),
        rate_limit_window: signed32(acl.rate_limit.window_seconds),
        created_at,
        updated_at,
    }
}

/// The budget that `entries` gives `model`, if any.
pub fn find_limit(entries: &Vec<ModelLimit>, model: &str) -> (r: Option<u64>)
    ensures
        r == limit_of(limits(entries@), model@),
{
    let ghost all = limits(entries@);
    assert(all.subrange(0, all.len() as int) =~= all);
    let mut i: usize = 0;
    while i < entries.len()
        invariant
            i <= entries.len(),
            all == limits(entries@),
            limit_of(all, model@) == limit_of(all.subrange(i as int, all.len() as int), model@),
        decreases entries.len() - i,
    {
        proof {
            let rest = all.subrange(i as int, all.len() as int);
            assert(rest[0] == entries[i as int]@);
            assert(rest.subrange(1, rest.len() as int) =~= all.subrange(
                i + 1,
                all.len() as int,
            ));
        }
        if text_eq(entries[i].model.as_str(), model) {
            return Some(entries[i].tokens);
        }
        i += 1;
    }
    None
}

/// Reads a list back from its rows.
pub fn rows_to_acl(acl: &AclRow, models: &[AclModelRow]) -> (r: Acl)
    ensures
        r@ == acl_of_rows(acl@, model_rows(models@)),
{
    let mut allowed_models: Vec<String> = Vec::new();
    let mut tokens_per_model: Vec<ModelLimit> = Vec::new();
    let mut i: usize = 0;
    while i < models.len()
        invariant
            i <= models.len(),
            allowed_models.len() == i,
            tokens_per_model.len() == i,
            forall|k: int| 0 <= k < i ==> (#[trigger] allowed_models[k])@ == models[k].model_name@,
            forall|k: int|
                0 <= k < i ==> (#[trigger] tokens_per_model[k])@ == (
                    models[k].model_name@,
                    unsigned64(models[k].token_limit),
                ),
        decreases models.len() - i,
    {
        allowed_models.push(models[i].model_name.clone());
        tokens_per_model.push(
            ModelLimit {
                model: models[i].model_name.clone(),
                tokens: to_unsigned64(models[i].token_limit),
            },
        );
        i += 1;
    }
    let r = Acl {
        allowed_models,
        tokens_per_model,
        rate_limit: RateLimit {
            requests: to_unsigned32(acl.rate_limit_requests),
            window_seconds: to_unsigned32(acl.rate_limit_window),
        },
    };
    proof {
        let want = acl_of_rows(acl@, model_rows(models@));
        assert(r@.allowed_models =~= want.allowed_models);
        assert(r@.tokens_per_model =~= want.tokens_per_model);
    }
    r
}

/// Reads a key back from its row, the row of its list and the model rows
/// under that list.
pub fn to_api_key(api_key: &ApiKeyRow, acl: &AclRow, models: &[AclModelRow]) -> (r: ApiKey)
    ensures
        r@ == key_of_rows(api_key@, acl@, model_rows(models@)),
{
    ApiKey {
        id: api_key.id.clone(),
        user_id: api_key.user_id.clone(),
        key_hash: api_key.key_hash.clone(),
        created_at: api_key.created_at,
        expires_at: api_key.expires_at,
        metadata: clone_json_opt(&api_key.metadata),
        status: ApiKeyStatus::from_text(api_key.status.as_str()),
        acl: rows_to_acl(acl, models),
    }
}

/// Lays a list out as rows under the id `acl_id`: one row for `acls`, and
/// one row for `acl_models` per model that [`model_names`] gives.
pub fn acl_to_rows(acl: &Acl, acl_id: &str, created_at: Timestamp, updated_at: Timestamp) -> (r: (
    NewAclRow,
    Vec<NewAclModelRow>,
))
    ensures
        r.0@ == acl_row_of(acl@, acl_id@, created_at, updated_at),
        new_model_rows(r.1@) == model_rows_of(acl@, acl_id@),
{
    let new_acl = NewAclRow {
        id: acl_id.to_owned(),
        rate_limit_requests: to_signed32(acl.rate_limit.requests),
        rate_limit_window: to_signed32(acl.rate_limit.window_seconds),
        created_at,
        updated_at,
    };
    let mut out: Vec<NewAclModelRow> = Vec::new();
    let ghost names = model_names(acl@);
    let from_allowed = acl.allowed_models.len() > 0;
    let n = if from_allowed {
        acl.allowed_models.len()
    } else {
        acl.tokens_per_model.len()
    };
    let mut i: usize = 0;
    while i < n
        invariant
            i <= n,
            names == model_names(acl@),
            n == names.len(),
            from_allowed == (acl.allowed_models.len() > 0),
            from_allowed ==> n == acl.allowed_models.len(),
            !from_allowed ==> n == acl.tokens_per_model.len(),
            out.len() == i,
            forall|k: int|
                0 <= k < i ==> (#[trigger] out[k])@ == model_row_for(acl@, acl_id@, names[k]),
        decreases n - i,
    {
        let name = if from_allowed {
            acl.allowed_models[i].clone()
        } else {
            acl.tokens_per_model[i].model.clone()
        };
        assert(name@ == names[i as int]);
        let limit = match find_limit(&acl.tokens_per_model, name.as_str()) {
            Some(l) => l,
            None => DEFAULT_TOKEN_LIMIT,
        };
        out.push(
            NewAclModelRow {
                acl_id: acl_id.to_owned(),
                model_name: name,
                token_limit: to_signed64(limit),
            },
        );
        i += 1;
    }
    assert(new_model_rows(out@) =~= model_rows_of(acl@, acl_id@));
    (new_acl, out)
}

} // verus!
