//! What the operations of the store promise of each other.

use vstd::prelude::*;
use crate::api_key::{
    limit_map, limit_models, limit_of, status_text, AclView, ApiKeyStatus, ApiKeyView,
    CreateApiKeyView, PatchApiKeyView,
};
use crate::entities::{AclModelRowView, ApiKeyRowView};
use crate::error::Error;
use crate::json::JsonView;
use crate::mappers::{
    acl_of_rows, acl_row_of, key_of_rows, model_names, model_row_for, model_rows_of, signed32,
    signed64, unsigned32, unsigned64,
};
use crate::metadata::{
    built_in_fields, custom_fields, dynamic_metadata, field_named, field_value, is_reserved,
    not_reserved,
};
use crate::server::{
    allowed, check_answer, credential_of_header, denied, is_expired, request_credential, Code,
    HttpRequestView,
};
use crate::store::{
    acl_with_id, active_with_token, create_acl, distinct_models, first_index, in_acl,
    created_before, lemma_first_index, lemma_materialize, lemma_same_owner_index, listed,
    new_key_row, newest_first, not_in_acl, of_user, owned_by, page, patched_row, StoreView,
};
use crate::time::Timestamp;

verus! {

/// Picking from a sequence in which nothing qualifies gives nothing.
pub proof fn lemma_filter_none<T>(s: Seq<T>, p: spec_fn(T) -> bool)
    requires
        forall|i: int| 0 <= i < s.len() ==> !p(#[trigger] s[i]),
    ensures
        s.filter(p) == Seq::<T>::empty(),
    decreases s.len(),
{
    reveal(Seq::filter);
    if s.len() > 0 {
        let d = s.drop_last();
        assert forall|i: int| 0 <= i < d.len() implies !p(#[trigger] d[i]) by {
            assert(d[i] == s[i]);
        }
        lemma_filter_none(d, p);
        assert(!p(s[s.len() - 1]));
    } else {
        assert(s =~= Seq::<T>::empty());
    }
}

/// Picking from a sequence in which everything qualifies gives all of it.
pub proof fn lemma_filter_all<T>(s: Seq<T>, p: spec_fn(T) -> bool)
    requires
        forall|i: int| 0 <= i < s.len() ==> p(#[trigger] s[i]),
    ensures
        s.filter(p) == s,
    decreases s.len(),
{
    reveal(Seq::filter);
    if s.len() > 0 {
        let d = s.drop_last();
        assert forall|i: int| 0 <= i < d.len() implies p(#[trigger] d[i]) by {
            assert(d[i] == s[i]);
        }
        lemma_filter_all(d, p);
        assert(p(s[s.len() - 1]));
        assert(d.push(s.last()) =~= s);
    }
}

/// Picking twice, the second time by a narrower test, is picking by the
/// narrower test.
pub proof fn lemma_filter_twice<T>(s: Seq<T>, p: spec_fn(T) -> bool, q: spec_fn(T) -> bool)
    requires
        forall|x: T| #[trigger] q(x) ==> p(x),
    ensures
        s.filter(p).filter(q) == s.filter(q),
    decreases s.len(),
{
    reveal(Seq::filter);
    if s.len() > 0 {
        let d = s.drop_last();
        lemma_filter_twice(d, p, q);
        if p(s.last()) {
            d.filter(p).lemma_filter_push(s.last(), q);
        } else {
            assert(!q(s.last()));
        }
    }
}

/// Ownership isolation. A key that one user owns is invisible to every
/// other user: the other user does not find it, cannot change it (the
/// request is refused as not found and the store stays as it is), and a
/// delete by the other user succeeds without changing anything.
pub proof fn law_ownership_isolation(
    s: StoreView,
    owner: Seq<char>,
    other: Seq<char>,
    id: Seq<char>,
    patch: PatchApiKeyView,
    now: Timestamp,
)
    requires
        s.wf(),
        s.find_by_id(owner, id).is_some(),
        owner != other,
    ensures
        s.find_by_id(other, id).is_none(),
        s.update_result(other, id, patch, now) == Err::<ApiKeyView, Error>(Error::NotFound),
        s.after_update(other, id, patch, now) == s,
        s.after_delete(other, id) == s,
{
    lemma_first_index(s.api_keys, owned_by(owner, id));
    lemma_first_index(s.api_keys, owned_by(other, id));
    let i = first_index(s.api_keys, owned_by(owner, id)).unwrap();
    match first_index(s.api_keys, owned_by(other, id)) {
        Some(j) => {
            assert(s.api_keys[i].id == s.api_keys[j].id);
            assert(i != j);
        },
        None => {},
    }
}

/// Revocation is final for authorization. After a patch that revokes a key
/// has been applied, the credential of that key authorizes nothing,
/// whatever its expiry.
pub proof fn law_revoked_key_is_not_authorized(
    s: StoreView,
    user_id: Seq<char>,
    id: Seq<char>,
    patch: PatchApiKeyView,
    now: Timestamp,
)
    requires
        s.wf(),
        patch.status == Some(ApiKeyStatus::Revoked),
        s.update_rejection(user_id, id, patch).is_none(),
    ensures
        s.find_by_id(user_id, id).is_some(),
        s.after_update(user_id, id, patch, now).find_api_key_for_authz(
            s.find_by_id(user_id, id).unwrap().key_hash,
        ).is_none(),
{
    let t = s.after_update(user_id, id, patch, now);
    lemma_first_index(s.api_keys, owned_by(user_id, id));
    let i = first_index(s.api_keys, owned_by(user_id, id)).unwrap();
    lemma_materialize(s, i);
    let token = s.api_keys[i].key_hash;
    lemma_first_index(t.api_keys, active_with_token(token));
    reveal_strlit("active");
    reveal_strlit("revoked");
    assert(status_text(ApiKeyStatus::Revoked) != status_text(ApiKeyStatus::Active)) by {
        assert(status_text(ApiKeyStatus::Revoked).len() == 7);
        assert(status_text(ApiKeyStatus::Active).len() == 6);
    }
    match first_index(t.api_keys, active_with_token(token)) {
        Some(j) => {
            assert(t.api_keys[j].key_hash == s.api_keys[j].key_hash);
            if j != i {
                assert(s.api_keys[j].key_hash != s.api_keys[i].key_hash);
            }
        },
        None => {},
    }
}

/// A deleted key authorizes nothing either: delete revokes.
pub proof fn law_deleted_key_is_not_authorized(s: StoreView, user_id: Seq<char>, id: Seq<char>)
    requires
        s.wf(),
        s.find_by_id(user_id, id).is_some(),
    ensures
        s.after_delete(user_id, id).find_api_key_for_authz(
            s.find_by_id(user_id, id).unwrap().key_hash,
        ).is_none(),
        s.after_delete(user_id, id).find_by_id(user_id, id).is_some(),
        s.after_delete(user_id, id).find_by_id(user_id, id).unwrap().status
            == ApiKeyStatus::Revoked,
{
    let t = s.after_delete(user_id, id);
    lemma_first_index(s.api_keys, owned_by(user_id, id));
    let i = first_index(s.api_keys, owned_by(user_id, id)).unwrap();
    lemma_materialize(s, i);
    crate::store::lemma_delete_wf(s, user_id, id);
    let token = s.api_keys[i].key_hash;
    lemma_first_index(t.api_keys, active_with_token(token));
    reveal_strlit("active");
    reveal_strlit("revoked");
    assert(status_text(ApiKeyStatus::Revoked) != status_text(ApiKeyStatus::Active)) by {
        assert(status_text(ApiKeyStatus::Revoked).len() == 7);
        assert(status_text(ApiKeyStatus::Active).len() == 6);
    }
    match first_index(t.api_keys, active_with_token(token)) {
        Some(j) => {
            assert(t.api_keys[j].key_hash == s.api_keys[j].key_hash);
            if j != i {
                assert(s.api_keys[j].key_hash != s.api_keys[i].key_hash);
            }
        },
        None => {},
    }
    lemma_same_owner_index(s.api_keys, i, t.api_keys[i], user_id, id);
    lemma_materialize(t, i);
    crate::api_key::lemma_status_round_trip(ApiKeyStatus::Revoked);
}

/// The tables after a patch with a list was applied.
pub proof fn lemma_after_update_tables(
    s: StoreView,
    user_id: Seq<char>,
    id: Seq<char>,
    patch: PatchApiKeyView,
    now: Timestamp,
)
    requires
        patch.acl.is_some(),
        s.update_rejection(user_id, id, patch).is_none(),
    ensures
        first_index(s.api_keys, owned_by(user_id, id)).is_some(),
        distinct_models(model_rows_of(patch.acl.unwrap(), updated_acl_id(s, user_id, id))),
        s.after_update(user_id, id, patch, now).acl_models == s.acl_models.filter(
            not_in_acl(updated_acl_id(s, user_id, id)),
        ) + model_rows_of(patch.acl.unwrap(), updated_acl_id(s, user_id, id)),
{
}

/// The list of the key that a patch by `user_id` to `id` changes.
pub open spec fn updated_acl_id(s: StoreView, user_id: Seq<char>, id: Seq<char>) -> Seq<char> {
    s.api_keys[first_index(s.api_keys, owned_by(user_id, id)).unwrap()].acl_id
}

/// Replacing a list is all or nothing. Where a patch with a list is
/// applied, the model rows under the key's list are exactly the rows of the
/// new list, none twice, and the model rows under every other list are
/// those from before. Where the patch is refused, the store is as it was.
pub proof fn law_acl_replacement(
    s: StoreView,
    user_id: Seq<char>,
    id: Seq<char>,
    patch: PatchApiKeyView,
    now: Timestamp,
    other_acl: Seq<char>,
)
    requires
        patch.acl.is_some(),
    ensures
        s.update_rejection(user_id, id, patch).is_some() ==> s.after_update(
            user_id,
            id,
            patch,
            now,
        ) == s,
        s.update_rejection(user_id, id, patch).is_none() ==> s.after_update(
            user_id,
            id,
            patch,
            now,
        ).models_of(updated_acl_id(s, user_id, id)) == model_rows_of(
            patch.acl.unwrap(),
            updated_acl_id(s, user_id, id),
        ),
        s.update_rejection(user_id, id, patch).is_none() ==> distinct_models(
            s.after_update(user_id, id, patch, now).models_of(updated_acl_id(s, user_id, id)),
        ),
        s.update_rejection(user_id, id, patch).is_none() && other_acl != updated_acl_id(
            s,
            user_id,
            id,
        ) ==> s.after_update(user_id, id, patch, now).models_of(other_acl) == s.models_of(
            other_acl,
        ),
{
    if s.update_rejection(user_id, id, patch).is_none() {
        lemma_after_update_tables(s, user_id, id, patch, now);
        lemma_replaced_models(
            s.acl_models,
            patch.acl.unwrap(),
            updated_acl_id(s, user_id, id),
            other_acl,
            s.after_update(user_id, id, patch, now).acl_models,
        );
    }
}

/// The model rows under each list after the rows under `acl_id` were
/// replaced by those of `acl`.
pub proof fn lemma_replaced_models(
    rows: Seq<AclModelRowView>,
    acl: AclView,
    acl_id: Seq<char>,
    other_acl: Seq<char>,
    after: Seq<AclModelRowView>,
)
    requires
        after == rows.filter(not_in_acl(acl_id)) + model_rows_of(acl, acl_id),
    ensures
        after.filter(in_acl(acl_id)) == model_rows_of(acl, acl_id),
        after.filter(not_in_acl(acl_id)) == rows.filter(not_in_acl(acl_id)),
        other_acl != acl_id ==> after.filter(in_acl(other_acl)) == rows.filter(in_acl(other_acl)),
{
    let kept = rows.filter(not_in_acl(acl_id));
    let fresh = model_rows_of(acl, acl_id);
    assert forall|k: int| 0 <= k < kept.len() implies not_in_acl(acl_id)(#[trigger] kept[k]) by {
        rows.lemma_filter_pred(not_in_acl(acl_id), k);
    }
    assert forall|k: int| 0 <= k < kept.len() implies !in_acl(acl_id)(#[trigger] kept[k]) by {
        assert(not_in_acl(acl_id)(kept[k]));
    }
    assert forall|k: int| 0 <= k < fresh.len() implies in_acl(acl_id)(#[trigger] fresh[k]) by {}
    assert forall|k: int| 0 <= k < fresh.len() implies !not_in_acl(acl_id)(
        #[trigger] fresh[k],
    ) by {}
    Seq::filter_distributes_over_add(kept, fresh, in_acl(acl_id));
    lemma_filter_none(kept, in_acl(acl_id));
    lemma_filter_all(fresh, in_acl(acl_id));
    assert(Seq::<AclModelRowView>::empty() + fresh =~= fresh);
    Seq::filter_distributes_over_add(kept, fresh, not_in_acl(acl_id));
    lemma_filter_all(kept, not_in_acl(acl_id));
    lemma_filter_none(fresh, not_in_acl(acl_id));
    assert(kept + Seq::<AclModelRowView>::empty() =~= kept);
    if other_acl != acl_id {
        Seq::filter_distributes_over_add(kept, fresh, in_acl(other_acl));
        assert forall|k: int| 0 <= k < fresh.len() implies !in_acl(other_acl)(
            #[trigger] fresh[k],
        ) by {}
        lemma_filter_none(fresh, in_acl(other_acl));
        assert forall|x: AclModelRowView| #[trigger]
            in_acl(other_acl)(x) implies not_in_acl(acl_id)(x) by {}
        lemma_filter_twice(rows, not_in_acl(acl_id), in_acl(other_acl));
        assert(kept.filter(in_acl(other_acl)) + Seq::<AclModelRowView>::empty()
            =~= kept.filter(in_acl(other_acl)));
    }
}

/// The key that a new row stands for in the store that `create` leaves:
/// the row joined with the row of its list and the model rows of that list.
pub proof fn lemma_created_key(
    s: StoreView,
    user_id: Seq<char>,
    input: CreateApiKeyView,
    key_hash: Seq<char>,
    key_id: Seq<char>,
    acl_id: Seq<char>,
    now: Timestamp,
)
    requires
        s.wf(),
        s.create_rejection(input, key_hash, key_id, acl_id).is_none(),
    ensures
        s.after_create(user_id, input, key_hash, key_id, acl_id, now).find_by_id(user_id, key_id)
            == Some(
            key_of_rows(
                new_key_row(user_id, input, key_hash, key_id, acl_id, now),
                acl_row_of(create_acl(input), acl_id, now, now),
                model_rows_of(create_acl(input), acl_id),
            ),
        ),
{
    let t = s.after_create(user_id, input, key_hash, key_id, acl_id, now);
    let row = new_key_row(user_id, input, key_hash, key_id, acl_id, now);
    let acl_row = acl_row_of(create_acl(input), acl_id, now, now);
    let fresh = model_rows_of(create_acl(input), acl_id);
    let n = s.api_keys.len() as int;
    let m = s.acls.len() as int;
    assert(first_index(t.api_keys, owned_by(user_id, key_id)) == Some(n)) by {
        lemma_first_index(t.api_keys, owned_by(user_id, key_id));
        assert(owned_by(user_id, key_id)(t.api_keys[n]));
        assert forall|k: int| 0 <= k < n implies !owned_by(user_id, key_id)(
            #[trigger] t.api_keys[k],
        ) by {
            assert(t.api_keys[k] == s.api_keys[k]);
        }
    }
    assert(first_index(t.acls, acl_with_id(acl_id)) == Some(m)) by {
        lemma_first_index(t.acls, acl_with_id(acl_id));
        assert(acl_with_id(acl_id)(t.acls[m]));
        assert forall|k: int| 0 <= k < m implies !acl_with_id(acl_id)(#[trigger] t.acls[k]) by {
            assert(t.acls[k] == s.acls[k]);
        }
    }
    assert(t.acl_models.filter(in_acl(acl_id)) == fresh) by {
        assert forall|k: int| 0 <= k < s.acl_models.len() implies !in_acl(acl_id)(
            #[trigger] s.acl_models[k],
        ) by {
            assert(s.has_acl(s.acl_models[k].acl_id));
        }
        assert forall|k: int| 0 <= k < fresh.len() implies in_acl(acl_id)(#[trigger] fresh[k]) by {}
        lemma_filter_none(s.acl_models, in_acl(acl_id));
        lemma_filter_all(fresh, in_acl(acl_id));
        Seq::filter_distributes_over_add(s.acl_models, fresh, in_acl(acl_id));
        assert(Seq::<AclModelRowView>::empty() + fresh =~= fresh);
    }
    assert(t.api_keys[n] == row);
    assert(t.acls[m] == acl_row);
}

/// A model has a budget exactly where an entry names it.
pub proof fn lemma_limit_of(entries: Seq<(Seq<char>, u64)>, model: Seq<char>)
    ensures
        limit_of(entries, model).is_some() <==> limit_models(entries).contains(model),
    decreases entries.len(),
{
    let names = limit_models(entries);
    if entries.len() == 0 {
    } else if entries[0].0 == model {
        assert(names[0] == model);
    } else {
        let rest = entries.subrange(1, entries.len() as int);
        lemma_limit_of(rest, model);
        let rest_names = limit_models(rest);
        if rest_names.contains(model) {
            let k = choose|k: int| 0 <= k < rest_names.len() && rest_names[k] == model;
            assert(names[k + 1] == model);
        }
        if names.contains(model) {
            let k = choose|k: int| 0 <= k < names.len() && names[k] == model;
            assert(rest_names[k - 1] == model);
        }
    }
}

/// The budget of `model` in a list of entries that gives each of `names`
/// the budget `f` of it.
pub proof fn lemma_limit_of_each(
    names: Seq<Seq<char>>,
    f: spec_fn(Seq<char>) -> u64,
    entries: Seq<(Seq<char>, u64)>,
    model: Seq<char>,
)
    requires
        entries.len() == names.len(),
        forall|i: int| 0 <= i < names.len() ==> #[trigger] entries[i] == (names[i], f(names[i])),
    ensures
        limit_of(entries, model) == if names.contains(model) {
            Some(f(model))
        } else {
            None
        },
    decreases names.len(),
{
    if names.len() == 0 {
    } else if names[0] == model {
        assert(entries[0] == (names[0], f(names[0])));
    } else {
        assert(entries[0] == (names[0], f(names[0])));
        let rest = entries.subrange(1, entries.len() as int);
        let rest_names = names.subrange(1, names.len() as int);
        assert forall|i: int| 0 <= i < rest_names.len() implies #[trigger] rest[i] == (
            rest_names[i],
            f(rest_names[i]),
        ) by {
            assert(rest[i] == entries[i + 1]);
        }
        lemma_limit_of_each(rest_names, f, rest, model);
        if rest_names.contains(model) {
            let k = choose|k: int| 0 <= k < rest_names.len() && rest_names[k] == model;
            assert(names[k + 1] == model);
        }
        if names.contains(model) {
            let k = choose|k: int| 0 <= k < names.len() && names[k] == model;
            assert(rest_names[k - 1] == model);
        }
    }
}

/// The budget that a list gives a model, or the default.
pub open spec fn limit_or_default(acl: AclView) -> spec_fn(Seq<char>) -> u64 {
    |n: Seq<char>|
        match limit_of(acl.tokens_per_model, n) {
            Some(l) => l,
            None => crate::mappers::DEFAULT_TOKEN_LIMIT,
        }
}

/// A list read back from the rows that lay it out: the models that got a
/// row, each with its budget or the default, and the rate limit unchanged.
pub proof fn lemma_acl_read_back(acl: AclView, acl_id: Seq<char>, now: Timestamp)
    ensures
        ({
            let back = acl_of_rows(acl_row_of(acl, acl_id, now, now), model_rows_of(acl, acl_id));
            &&& back.allowed_models == model_names(acl)
            &&& back.rate_limit == acl.rate_limit
            &&& back.tokens_per_model.len() == model_names(acl).len()
            &&& forall|i: int|
                0 <= i < model_names(acl).len() ==> #[trigger] back.tokens_per_model[i] == (
                    model_names(acl)[i],
                    limit_or_default(acl)(model_names(acl)[i]),
                )
        }),
{
    let back = acl_of_rows(acl_row_of(acl, acl_id, now, now), model_rows_of(acl, acl_id));
    let names = model_names(acl);
    assert(back.allowed_models =~= names);
    assert(unsigned32(signed32(acl.rate_limit.requests)) == acl.rate_limit.requests);
    assert(unsigned32(signed32(acl.rate_limit.window_seconds)) == acl.rate_limit.window_seconds);
    assert forall|i: int| 0 <= i < names.len() implies #[trigger] back.tokens_per_model[i] == (
        names[i],
        limit_or_default(acl)(names[i]),
    ) by {
        let l = limit_or_default(acl)(names[i]);
        assert(model_rows_of(acl, acl_id)[i] == model_row_for(acl, acl_id, names[i]));
        assert(unsigned64(signed64(l)) == l);
    }
}

/// Round trip. A key that was created is found by its owner under its id,
/// as the key that `create` returned: with the owner, the credential, the
/// expiry and the metadata that were given, active, and created at the
/// time of the call. Its list has the rate limit that was asked for, and
/// names as allowed the models that got a row.
pub proof fn law_create_then_find(
    s: StoreView,
    user_id: Seq<char>,
    input: CreateApiKeyView,
    key_hash: Seq<char>,
    key_id: Seq<char>,
    acl_id: Seq<char>,
    now: Timestamp,
)
    requires
        s.wf(),
        s.create_rejection(input, key_hash, key_id, acl_id).is_none(),
    ensures
        ({
            let found = s.after_create(user_id, input, key_hash, key_id, acl_id, now).find_by_id(
                user_id,
                key_id,
            );
            &&& found.is_some()
            &&& s.create_result(user_id, input, key_hash, key_id, acl_id, now) == Ok::<
                ApiKeyView,
                Error,
            >(found.unwrap())
            &&& found.unwrap().id == key_id
            &&& found.unwrap().user_id == user_id
            &&& found.unwrap().key_hash == key_hash
            &&& found.unwrap().created_at == now
            &&& found.unwrap().expires_at == input.expires_at
            &&& found.unwrap().metadata == input.metadata
            &&& found.unwrap().status == ApiKeyStatus::Active
            &&& found.unwrap().acl.rate_limit == create_acl(input).rate_limit
            &&& found.unwrap().acl.allowed_models == model_names(create_acl(input))
        }),
{
    lemma_created_key(s, user_id, input, key_hash, key_id, acl_id, now);
    lemma_acl_read_back(create_acl(input), acl_id, now);
    crate::api_key::lemma_status_round_trip(ApiKeyStatus::Active);
}

/// Round trip of the list. Where the list that was asked for gives a
/// budget to exactly the models that it allows, the key that is found
/// after `create` carries that list: the same set of allowed models, the
/// same budget for each model, the same rate limit.
pub proof fn law_create_round_trip(
    s: StoreView,
    user_id: Seq<char>,
    input: CreateApiKeyView,
    key_hash: Seq<char>,
    key_id: Seq<char>,
    acl_id: Seq<char>,
    now: Timestamp,
)
    requires
        s.wf(),
        s.create_rejection(input, key_hash, key_id, acl_id).is_none(),
        create_acl(input).allowed_models.to_set() == limit_models(
            create_acl(input).tokens_per_model,
        ).to_set(),
    ensures
        ({
            let found = s.after_create(user_id, input, key_hash, key_id, acl_id, now).find_by_id(
                user_id,
                key_id,
            );
            &&& found.is_some()
            &&& found.unwrap().acl.allowed_models.to_set() == create_acl(
                input,
            ).allowed_models.to_set()
            &&& limit_map(found.unwrap().acl.tokens_per_model) == limit_map(
                create_acl(input).tokens_per_model,
            )
            &&& found.unwrap().acl.rate_limit == create_acl(input).rate_limit
        }),
{
    let acl = create_acl(input);
    let names = model_names(acl);
    lemma_created_key(s, user_id, input, key_hash, key_id, acl_id, now);
    lemma_acl_read_back(acl, acl_id, now);
    let back = acl_of_rows(acl_row_of(acl, acl_id, now, now), model_rows_of(acl, acl_id));
    assert(names.to_set() == acl.allowed_models.to_set());
    assert forall|m: Seq<char>| #[trigger]
        limit_of(back.tokens_per_model, m) == limit_of(acl.tokens_per_model, m) by {
        lemma_limit_of_each(names, limit_or_default(acl), back.tokens_per_model, m);
        lemma_limit_of(acl.tokens_per_model, m);
        assert(names.contains(m) == names.to_set().contains(m));
        assert(limit_models(acl.tokens_per_model).contains(m) == limit_models(
            acl.tokens_per_model,
        ).to_set().contains(m));
    }
    assert(limit_map(back.tokens_per_model) =~= limit_map(acl.tokens_per_model));
}

/// Two sequences of one length in which a test holds at the same places
/// give the same first place.
pub proof fn lemma_first_index_same<T>(a: Seq<T>, b: Seq<T>, p: spec_fn(T) -> bool)
    requires
        a.len() == b.len(),
        forall|k: int| 0 <= k < a.len() ==> p(#[trigger] a[k]) == p(b[k]),
    ensures
        first_index(a, p) == first_index(b, p),
{
    lemma_first_index(a, p);
    lemma_first_index(b, p);
    match (first_index(a, p), first_index(b, p)) {
        (Some(x), Some(y)) => {
            assert(p(a[x]) == p(b[x]));
            assert(p(a[y]) == p(b[y]));
        },
        (Some(x), None) => {
            assert(p(a[x]) == p(b[x]));
        },
        (None, Some(y)) => {
            assert(p(a[y]) == p(b[y]));
        },
        (None, None) => {},
    }
}

/// Two stores read the same keys where they hold the same rows but for the
/// times at which their lists were created and changed.
pub proof fn lemma_find_same(a: StoreView, b: StoreView, user_id: Seq<char>, id: Seq<char>)
    requires
        a.api_keys == b.api_keys,
        a.acl_models == b.acl_models,
        a.acls.len() == b.acls.len(),
        forall|k: int|
            0 <= k < a.acls.len() ==> (#[trigger] a.acls[k]).id == b.acls[k].id
                && a.acls[k].rate_limit_requests == b.acls[k].rate_limit_requests
                && a.acls[k].rate_limit_window == b.acls[k].rate_limit_window,
    ensures
        a.find_by_id(user_id, id) == b.find_by_id(user_id, id),
{
    match first_index(a.api_keys, owned_by(user_id, id)) {
        Some(i) => {
            let acl_id = a.api_keys[i].acl_id;
            assert forall|k: int| 0 <= k < a.acls.len() implies acl_with_id(acl_id)(
                #[trigger] a.acls[k],
            ) == acl_with_id(acl_id)(b.acls[k]) by {}
            lemma_first_index_same(a.acls, b.acls, acl_with_id(acl_id));
            lemma_first_index(a.acls, acl_with_id(acl_id));
            assert(a.models_of(acl_id) == b.models_of(acl_id));
        },
        None => {},
    }
}

/// The tables after a patch was applied.
pub proof fn lemma_update_tables(
    s: StoreView,
    user_id: Seq<char>,
    id: Seq<char>,
    patch: PatchApiKeyView,
    now: Timestamp,
)
    requires
        s.update_rejection(user_id, id, patch).is_none(),
    ensures
        ({
            let t = s.after_update(user_id, id, patch, now);
            let i = first_index(s.api_keys, owned_by(user_id, id)).unwrap();
            &&& 0 <= i < s.api_keys.len()
            &&& t.api_keys == s.api_keys.update(i, patched_row(s.api_keys[i], patch))
            &&& first_index(t.api_keys, owned_by(user_id, id)) == Some(i)
            &&& t.update_rejection(user_id, id, patch).is_none()
            &&& t.acls.len() == s.acls.len()
            &&& forall|k: int|
                0 <= k < s.acls.len() ==> (#[trigger] t.acls[k]).id == s.acls[k].id
            &&& patch.acl.is_none() ==> t.acls == s.acls && t.acl_models == s.acl_models
            &&& patch.acl.is_some() ==> {
                &&& t.acl_models == s.acl_models.filter(not_in_acl(s.api_keys[i].acl_id))
                    + model_rows_of(patch.acl.unwrap(), s.api_keys[i].acl_id)
                &&& forall|k: int|
                    0 <= k < s.acls.len() ==> (#[trigger] t.acls[k]) == if k == first_index(
                        s.acls,
                        acl_with_id(s.api_keys[i].acl_id),
                    ).unwrap_or(-1) {
                        crate::store::patched_acl_row(s.acls[k], patch.acl.unwrap(), now)
                    } else {
                        s.acls[k]
                    }
            }
        }),
{
    lemma_first_index(s.api_keys, owned_by(user_id, id));
    let i = first_index(s.api_keys, owned_by(user_id, id)).unwrap();
    lemma_same_owner_index(s.api_keys, i, patched_row(s.api_keys[i], patch), user_id, id);
    lemma_first_index(s.acls, acl_with_id(s.api_keys[i].acl_id));
}

/// Patch idempotence. Applying a patch a second time changes nothing that
/// a reader of the key can see: the two calls return the same, the rows of
/// `api_keys` and `acl_models` are those that the first call left, and the
/// key reads back the same.
pub proof fn law_patch_idempotent(
    s: StoreView,
    user_id: Seq<char>,
    id: Seq<char>,
    patch: PatchApiKeyView,
    first: Timestamp,
    second: Timestamp,
)
    ensures
        ({
            let once = s.after_update(user_id, id, patch, first);
            let twice = once.after_update(user_id, id, patch, second);
            &&& once.update_result(user_id, id, patch, second) == s.update_result(
                user_id,
                id,
                patch,
                first,
            )
            &&& twice.find_by_id(user_id, id) == once.find_by_id(user_id, id)
            &&& twice.api_keys == once.api_keys
            &&& twice.acl_models == once.acl_models
        }),
{
    let once = s.after_update(user_id, id, patch, first);
    let twice = once.after_update(user_id, id, patch, second);
    if s.update_rejection(user_id, id, patch).is_none() {
        let i = first_index(s.api_keys, owned_by(user_id, id)).unwrap();
        assert(0 <= i < s.api_keys.len() && once.api_keys == s.api_keys.update(
            i,
            patched_row(s.api_keys[i], patch),
        ) && first_index(once.api_keys, owned_by(user_id, id)) == Some(i)
            && once.update_rejection(user_id, id, patch).is_none()) by {
            lemma_update_tables(s, user_id, id, patch, first);
        }
        assert(once.api_keys[i] == patched_row(s.api_keys[i], patch));
        assert(patched_row(once.api_keys[i], patch) == once.api_keys[i]);
        assert(twice.api_keys == once.api_keys) by {
            lemma_update_tables(once, user_id, id, patch, second);
            assert(twice.api_keys =~= once.api_keys);
        }
        assert(twice.acl_models == once.acl_models) by {
            lemma_patch_twice_models(s, user_id, id, patch, first, second);
        }
        assert(twice.find_by_id(user_id, id) == once.find_by_id(user_id, id)) by {
            lemma_patch_twice_lists(s, user_id, id, patch, first, second);
            lemma_find_same(twice, once, user_id, id);
        }
    }
}

/// The model rows after a patch was applied twice are those after it was
/// applied once.
pub proof fn lemma_patch_twice_models(
    s: StoreView,
    user_id: Seq<char>,
    id: Seq<char>,
    patch: PatchApiKeyView,
    first: Timestamp,
    second: Timestamp,
)
    requires
        s.update_rejection(user_id, id, patch).is_none(),
    ensures
        s.after_update(user_id, id, patch, first).after_update(
            user_id,
            id,
            patch,
            second,
        ).acl_models == s.after_update(user_id, id, patch, first).acl_models,
{
    let once = s.after_update(user_id, id, patch, first);
    let twice = once.after_update(user_id, id, patch, second);
    let i = first_index(s.api_keys, owned_by(user_id, id)).unwrap();
    let acl_id = s.api_keys[i].acl_id;
    if patch.acl.is_some() {
        let kept = s.acl_models.filter(not_in_acl(acl_id));
        let fresh = model_rows_of(patch.acl.unwrap(), acl_id);
        assert(once.acl_models == kept + fresh && once.api_keys[i].acl_id == acl_id
            && first_index(once.api_keys, owned_by(user_id, id)) == Some(i)
            && once.update_rejection(user_id, id, patch).is_none()) by {
            lemma_update_tables(s, user_id, id, patch, first);
        }
        assert(once.acl_models.filter(not_in_acl(acl_id)) == kept) by {
            lemma_replaced_models(
                s.acl_models,
                patch.acl.unwrap(),
                acl_id,
                acl_id,
                once.acl_models,
            );
        }
        assert(twice.acl_models == once.acl_models.filter(not_in_acl(acl_id)) + fresh) by {
            lemma_update_tables(once, user_id, id, patch, second);
        }
    } else {
        assert(once.update_rejection(user_id, id, patch).is_none()) by {
            lemma_update_tables(s, user_id, id, patch, first);
        }
        lemma_update_tables(once, user_id, id, patch, second);
    }
}

/// The rows of `acls` after a patch was applied twice differ from those
/// after it was applied once in nothing but the time of the change.
pub proof fn lemma_patch_twice_lists(
    s: StoreView,
    user_id: Seq<char>,
    id: Seq<char>,
    patch: PatchApiKeyView,
    first: Timestamp,
    second: Timestamp,
)
    requires
        s.update_rejection(user_id, id, patch).is_none(),
    ensures
        ({
            let once = s.after_update(user_id, id, patch, first);
            let twice = once.after_update(user_id, id, patch, second);
            &&& twice.acls.len() == once.acls.len()
            &&& forall|k: int|
                0 <= k < twice.acls.len() ==> (#[trigger] twice.acls[k]).id == once.acls[k].id
                    && twice.acls[k].rate_limit_requests == once.acls[k].rate_limit_requests
                    && twice.acls[k].rate_limit_window == once.acls[k].rate_limit_window
        }),
{
    let once = s.after_update(user_id, id, patch, first);
    let twice = once.after_update(user_id, id, patch, second);
    let i = first_index(s.api_keys, owned_by(user_id, id)).unwrap();
    let acl_id = s.api_keys[i].acl_id;
    lemma_update_tables(s, user_id, id, patch, first);
    lemma_update_tables(once, user_id, id, patch, second);
    assert(once.api_keys[i].acl_id == acl_id);
    if patch.acl.is_some() {
        assert forall|k: int| 0 <= k < once.acls.len() implies acl_with_id(acl_id)(
            #[trigger] once.acls[k],
        ) == acl_with_id(acl_id)(s.acls[k]) by {}
        lemma_first_index_same(once.acls, s.acls, acl_with_id(acl_id));
        assert forall|k: int| 0 <= k < twice.acls.len() implies (#[trigger] twice.acls[k]).id
            == once.acls[k].id && twice.acls[k].rate_limit_requests
            == once.acls[k].rate_limit_requests && twice.acls[k].rate_limit_window
            == once.acls[k].rate_limit_window by {
            assert(once.acls[k].id == s.acls[k].id);
        }
    }
}

/// Expiry gating. A request whose credential stands for a key with an
/// expiry before `now` is turned away as carrying an invalid key, though
/// the key is active.
pub proof fn law_expired_key_is_denied(
    store: StoreView,
    req: Option<HttpRequestView>,
    token: Seq<char>,
    now: Timestamp,
)
    requires
        request_credential(req) == Some(token),
        store.find_api_key_for_authz(token).is_some(),
        is_expired(store.find_api_key_for_authz(token).unwrap(), now),
    ensures
        check_answer(store, req, now) == denied("Invalid API key"@),
{
}

/// A request without a credential is turned away as missing its key,
/// whatever the store holds.
pub proof fn law_missing_key_is_denied(
    store: StoreView,
    req: Option<HttpRequestView>,
    now: Timestamp,
)
    requires
        request_credential(req).is_none(),
    ensures
        check_answer(store, req, now) == denied("API key missing"@),
{
}

/// A request passes exactly where its credential stands for a key that is
/// stored as active and not expired at `now`; it is then answered with the
/// owner and the metadata of that key.
pub proof fn law_allowed_exactly(
    store: StoreView,
    req: Option<HttpRequestView>,
    now: Timestamp,
)
    requires
        store.wf(),
    ensures
        check_answer(store, req, now).code == Code::Okay <==> (request_credential(req).is_some()
            && store.find_api_key_for_authz(request_credential(req).unwrap()).is_some()
            && !is_expired(
            store.find_api_key_for_authz(request_credential(req).unwrap()).unwrap(),
            now,
        )),
{
    match request_credential(req) {
        Some(token) => {
            let p = active_with_token(token);
            lemma_first_index(store.api_keys, p);
            match first_index(store.api_keys, p) {
                Some(i) => {
                    lemma_materialize(store, i);
                    let key = store.find_api_key_for_authz(token).unwrap();
                    crate::api_key::lemma_status_round_trip(ApiKeyStatus::Active);
                    assert(key.status == ApiKeyStatus::Active);
                },
                None => {},
            }
        },
        None => {},
    }
}

/// A patch is local. A key with another id reads back after the patch as
/// it did before, whoever owns it.
pub proof fn law_patch_leaves_other_keys(
    s: StoreView,
    user_id: Seq<char>,
    id: Seq<char>,
    patch: PatchApiKeyView,
    now: Timestamp,
    other_user: Seq<char>,
    other_id: Seq<char>,
)
    requires
        s.wf(),
        other_id != id,
    ensures
        s.after_update(user_id, id, patch, now).find_by_id(other_user, other_id) == s.find_by_id(
            other_user,
            other_id,
        ),
{
    let t = s.after_update(user_id, id, patch, now);
    if s.update_rejection(user_id, id, patch).is_none() {
        let i = first_index(s.api_keys, owned_by(user_id, id)).unwrap();
        let acl_id = s.api_keys[i].acl_id;
        let p = owned_by(other_user, other_id);
        assert(0 <= i < s.api_keys.len() && t.api_keys == s.api_keys.update(
            i,
            patched_row(s.api_keys[i], patch),
        ) && s.api_keys[i].id == id) by {
            lemma_update_tables(s, user_id, id, patch, now);
            lemma_first_index(s.api_keys, owned_by(user_id, id));
        }
        assert(first_index(t.api_keys, p) == first_index(s.api_keys, p)) by {
            assert forall|k: int| 0 <= k < t.api_keys.len() implies p(#[trigger] t.api_keys[k])
                == p(s.api_keys[k]) by {}
            lemma_first_index_same(t.api_keys, s.api_keys, p);
        }
        lemma_first_index(s.api_keys, p);
        match first_index(s.api_keys, p) {
            Some(k) => {
                assert(k != i);
                assert(t.api_keys[k] == s.api_keys[k]);
                let other_acl = s.api_keys[k].acl_id;
                assert(other_acl != acl_id);
                lemma_other_list_unchanged(s, user_id, id, patch, now, other_acl);
            },
            None => {},
        }
    }
}

/// After a patch to a key, every other list reads as before: the row of
/// the list is found at the same place and is the same, and so are the
/// model rows under it.
pub proof fn lemma_other_list_unchanged(
    s: StoreView,
    user_id: Seq<char>,
    id: Seq<char>,
    patch: PatchApiKeyView,
    now: Timestamp,
    other_acl: Seq<char>,
)
    requires
        s.update_rejection(user_id, id, patch).is_none(),
        other_acl != updated_acl_id(s, user_id, id),
    ensures
        ({
            let t = s.after_update(user_id, id, patch, now);
            &&& first_index(t.acls, acl_with_id(other_acl)) == first_index(
                s.acls,
                acl_with_id(other_acl),
            )
            &&& first_index(s.acls, acl_with_id(other_acl)) matches Some(j) ==> t.acls[j]
                == s.acls[j]
            &&& t.models_of(other_acl) == s.models_of(other_acl)
        }),
{
    let t = s.after_update(user_id, id, patch, now);
    let acl_id = updated_acl_id(s, user_id, id);
    let q = acl_with_id(other_acl);
    lemma_update_tables(s, user_id, id, patch, now);
    assert forall|k: int| 0 <= k < t.acls.len() implies q(#[trigger] t.acls[k]) == q(
        s.acls[k],
    ) by {
        assert(t.acls[k].id == s.acls[k].id);
    }
    lemma_first_index_same(t.acls, s.acls, q);
    lemma_first_index(s.acls, q);
    lemma_first_index(s.acls, acl_with_id(acl_id));
    if patch.acl.is_some() {
        assert(t.models_of(other_acl) == s.models_of(other_acl)) by {
            lemma_replaced_models(
                s.acl_models,
                patch.acl.unwrap(),
                acl_id,
                other_acl,
                t.acl_models,
            );
        }
    }
}

/// A delete is local. A key with another id reads back after the delete
/// as it did before, whoever owns it.
pub proof fn law_delete_leaves_other_keys(
    s: StoreView,
    user_id: Seq<char>,
    id: Seq<char>,
    other_user: Seq<char>,
    other_id: Seq<char>,
)
    requires
        other_id != id,
    ensures
        s.after_delete(user_id, id).find_by_id(other_user, other_id) == s.find_by_id(
            other_user,
            other_id,
        ),
{
    let t = s.after_delete(user_id, id);
    let p = owned_by(other_user, other_id);
    lemma_first_index(s.api_keys, owned_by(user_id, id));
    match first_index(s.api_keys, owned_by(user_id, id)) {
        Some(i) => {
            assert forall|k: int| 0 <= k < t.api_keys.len() implies p(#[trigger] t.api_keys[k])
                == p(s.api_keys[k]) by {}
            lemma_first_index_same(t.api_keys, s.api_keys, p);
            lemma_first_index(s.api_keys, p);
        },
        None => {},
    }
}

/// A patch does what it says. After a patch was applied, the key reads
/// back with each field that the patch holds, and with every other field
/// as before. Where the patch holds a list, the key has its rate limit and
/// allows the models that got a row.
pub proof fn law_patch_applies(
    s: StoreView,
    user_id: Seq<char>,
    id: Seq<char>,
    patch: PatchApiKeyView,
    now: Timestamp,
)
    requires
        s.wf(),
        s.update_rejection(user_id, id, patch).is_none(),
    ensures
        ({
            let before = s.find_by_id(user_id, id);
            let after = s.after_update(user_id, id, patch, now).find_by_id(user_id, id);
            &&& before.is_some()
            &&& after.is_some()
            &&& s.update_result(user_id, id, patch, now) == Ok::<ApiKeyView, Error>(after.unwrap())
            &&& after.unwrap().id == id
            &&& after.unwrap().user_id == user_id
            &&& after.unwrap().key_hash == before.unwrap().key_hash
            &&& after.unwrap().created_at == before.unwrap().created_at
            &&& after.unwrap().status == match patch.status {
                Some(status) => status,
                None => before.unwrap().status,
            }
            &&& after.unwrap().expires_at == match patch.expires_at {
                Some(e) => e,
                None => before.unwrap().expires_at,
            }
            &&& after.unwrap().metadata == match patch.metadata {
                Some(m) => m,
                None => before.unwrap().metadata,
            }
            &&& match patch.acl {
                Some(acl) => after.unwrap().acl.rate_limit == acl.rate_limit
                    && after.unwrap().acl.allowed_models == model_names(acl),
                None => after.unwrap().acl == before.unwrap().acl,
            }
        }),
{
    let t = s.after_update(user_id, id, patch, now);
    let i = first_index(s.api_keys, owned_by(user_id, id)).unwrap();
    let row = s.api_keys[i];
    let acl_id = row.acl_id;
    lemma_first_index(s.api_keys, owned_by(user_id, id));
    lemma_materialize(s, i);
    assert(t.wf()) by {
        crate::store::lemma_update_wf(s, user_id, id, patch, now);
    }
    assert(first_index(t.api_keys, owned_by(user_id, id)) == Some(i) && t.api_keys[i]
        == patched_row(row, patch) && t.acls.len() == s.acls.len()) by {
        lemma_update_tables(s, user_id, id, patch, now);
    }
    lemma_materialize(t, i);
    if patch.status.is_some() {
        crate::api_key::lemma_status_round_trip(patch.status.unwrap());
    }
    lemma_first_index(s.acls, acl_with_id(acl_id));
    let j = first_index(s.acls, acl_with_id(acl_id)).unwrap();
    assert(first_index(t.acls, acl_with_id(acl_id)) == Some(j)) by {
        lemma_update_tables(s, user_id, id, patch, now);
        assert forall|k: int| 0 <= k < t.acls.len() implies acl_with_id(acl_id)(
            #[trigger] t.acls[k],
        ) == acl_with_id(acl_id)(s.acls[k]) by {
            assert(t.acls[k].id == s.acls[k].id);
        }
        lemma_first_index_same(t.acls, s.acls, acl_with_id(acl_id));
    }
    match patch.acl {
        Some(acl) => {
            assert(t.acls[j] == crate::store::patched_acl_row(s.acls[j], acl, now)) by {
                lemma_update_tables(s, user_id, id, patch, now);
            }
            assert(t.models_of(acl_id) == model_rows_of(acl, acl_id)) by {
                lemma_after_update_tables(s, user_id, id, patch, now);
                lemma_replaced_models(s.acl_models, acl, acl_id, acl_id, t.acl_models);
            }
            let back = acl_of_rows(t.acls[j], model_rows_of(acl, acl_id));
            assert(back.allowed_models =~= model_names(acl));
            assert(unsigned32(signed32(acl.rate_limit.requests)) == acl.rate_limit.requests);
            assert(unsigned32(signed32(acl.rate_limit.window_seconds))
                == acl.rate_limit.window_seconds);
        },
        None => {
            assert(t.acls == s.acls && t.acl_models == s.acl_models) by {
                lemma_update_tables(s, user_id, id, patch, now);
            }
        },
    }
}

/// Ordering rows by age keeps their number, takes every row from the rows
/// given, and puts no row before a newer one.
pub proof fn lemma_newest_first(rows: Seq<ApiKeyRowView>)
    ensures
        newest_first(rows).len() == rows.len(),
        forall|k: int|
            0 <= k < rows.len() ==> rows.contains(#[trigger] newest_first(rows)[k]),
        forall|a: int, b: int|
            0 <= a < b < rows.len() ==> (#[trigger] newest_first(rows)[a]).created_at.micros >= (
            #[trigger] newest_first(rows)[b]).created_at.micros,
    decreases rows.len(),
{
    if rows.len() > 0 {
        let d = rows.drop_last();
        let r = rows.last();
        let sorted = newest_first(d);
        let out = newest_first(rows);
        lemma_newest_first(d);
        lemma_first_index(sorted, created_before(r.created_at));
        let j = match first_index(sorted, created_before(r.created_at)) {
            Some(j) => j,
            None => sorted.len() as int,
        };
        assert(out =~= sorted.insert(j, r));
        assert forall|k: int| 0 <= k < rows.len() implies rows.contains(#[trigger] out[k]) by {
            if k == j {
                assert(rows[rows.len() - 1] == out[k]);
            } else {
                let from = if k < j {
                    k
                } else {
                    k - 1
                };
                assert(out[k] == sorted[from]);
                assert(d.contains(sorted[from]));
                let w = choose|w: int| 0 <= w < d.len() && d[w] == sorted[from];
                assert(rows[w] == out[k]);
            }
        }
        assert forall|a: int, b: int| 0 <= a < b < rows.len() implies (#[trigger] out[a])
            .created_at.micros >= (#[trigger] out[b]).created_at.micros by {
            if a == j {
                assert(out[b] == sorted[b - 1]);
                assert(created_before(r.created_at)(sorted[j]));
                if b - 1 > j {
                    assert(sorted[j].created_at.micros >= sorted[b - 1].created_at.micros);
                }
            } else if b == j {
                assert(out[a] == sorted[a]);
                assert(!created_before(r.created_at)(sorted[a]));
            } else {
                let fa = if a < j {
                    a
                } else {
                    a - 1
                };
                let fb = if b < j {
                    b
                } else {
                    b - 1
                };
                assert(out[a] == sorted[fa]);
                assert(out[b] == sorted[fb]);
            }
        }
    }
}

/// A listing shows a user their own keys only, and newest first.
pub proof fn law_listing_is_owned_and_ordered(
    s: StoreView,
    user_id: Seq<char>,
    limit: i64,
    offset: i64,
)
    requires
        s.wf(),
        limit >= 0,
        offset >= 0,
    ensures
        s.find_all(user_id, limit, offset).is_ok(),
        s.find_all(user_id, limit, offset).unwrap().len() <= limit,
        forall|k: int|
            0 <= k < s.find_all(user_id, limit, offset).unwrap().len() ==> (#[trigger] s.find_all(
                user_id,
                limit,
                offset,
            ).unwrap()[k]).user_id == user_id,
        forall|a: int, b: int|
            0 <= a < b < s.find_all(user_id, limit, offset).unwrap().len() ==> (
            #[trigger] s.find_all(user_id, limit, offset).unwrap()[a]).created_at.micros >= (
            #[trigger] s.find_all(user_id, limit, offset).unwrap()[b]).created_at.micros,
{
    let mine = s.api_keys.filter(of_user(user_id));
    let rows = newest_first(mine);
    let shown = page(rows, limit as int, offset as int);
    let found = s.find_all(user_id, limit, offset).unwrap();
    lemma_newest_first(mine);
    assert(listed(Some(user_id)) == of_user(user_id));
    assert(found == s.read_all(shown));
    let from = if offset < rows.len() {
        offset as int
    } else {
        rows.len() as int
    };
    assert forall|k: int| 0 <= k < found.len() implies (#[trigger] found[k]).user_id == user_id
        && found[k].created_at == rows[from + k].created_at by {
        assert(shown[k] == rows[from + k]);
        assert(mine.contains(rows[from + k]));
        let w = choose|w: int| 0 <= w < mine.len() && mine[w] == rows[from + k];
        s.api_keys.lemma_filter_pred(of_user(user_id), w);
        mine.lemma_filter_contains_rev(of_user(user_id), mine[w]);
        assert(s.api_keys.filter(of_user(user_id)).contains(mine[w]));
        s.api_keys.lemma_filter_contains_rev(of_user(user_id), mine[w]);
        let x = choose|x: int| 0 <= x < s.api_keys.len() && s.api_keys[x] == mine[w];
        lemma_materialize(s, x);
    }
}

/// A key that was just created authorizes. A request that carries the
/// credential of the new key passes at every time that is not after the
/// key's expiry, and is answered with the owner and the metadata of the key
/// that `create` returned.
pub proof fn law_created_key_is_authorized(
    s: StoreView,
    user_id: Seq<char>,
    input: CreateApiKeyView,
    key_hash: Seq<char>,
    key_id: Seq<char>,
    acl_id: Seq<char>,
    created: Timestamp,
    req: Option<HttpRequestView>,
    now: Timestamp,
)
    requires
        s.wf(),
        s.create_rejection(input, key_hash, key_id, acl_id).is_none(),
        request_credential(req) == Some(key_hash),
        input.expires_at matches Some(e) ==> e.micros >= now.micros,
    ensures
        s.create_result(user_id, input, key_hash, key_id, acl_id, created).is_ok(),
        check_answer(s.after_create(user_id, input, key_hash, key_id, acl_id, created), req, now)
            == allowed(
            s.create_result(user_id, input, key_hash, key_id, acl_id, created).unwrap(),
        ),
{
    let t = s.after_create(user_id, input, key_hash, key_id, acl_id, created);
    let n = s.api_keys.len() as int;
    law_create_then_find(s, user_id, input, key_hash, key_id, acl_id, created);
    assert(first_index(t.api_keys, owned_by(user_id, key_id)) == Some(n)) by {
        lemma_first_index(t.api_keys, owned_by(user_id, key_id));
        assert(owned_by(user_id, key_id)(t.api_keys[n]));
        assert forall|k: int| 0 <= k < n implies !owned_by(user_id, key_id)(
            #[trigger] t.api_keys[k],
        ) by {
            assert(t.api_keys[k] == s.api_keys[k]);
        }
    }
    assert(first_index(t.api_keys, active_with_token(key_hash)) == Some(n)) by {
        lemma_first_index(t.api_keys, active_with_token(key_hash));
        assert(active_with_token(key_hash)(t.api_keys[n]));
        assert forall|k: int| 0 <= k < n implies !active_with_token(key_hash)(
            #[trigger] t.api_keys[k],
        ) by {
            assert(t.api_keys[k] == s.api_keys[k]);
        }
    }
}

/// A credential is never empty: a header that carries nothing carries no
/// credential, and so a request that carries one carries a non-empty one.
pub proof fn law_credential_is_not_empty(
    key: Seq<char>,
    value: Seq<char>,
    req: Option<HttpRequestView>,
)
    ensures
        credential_of_header(key, value) matches Some(c) ==> c.len() > 0,
        request_credential(req) matches Some(c) ==> c.len() > 0,
{
}

/// The fields that the service sets cannot be shadowed. Looked up by its
/// name, each of them has the value that the service gave it, whatever the
/// owner's metadata holds; and every field of the metadata has a name that
/// is not reserved.
pub proof fn law_built_in_fields_win(key: ApiKeyView, k: int)
    requires
        0 <= k < 7,
    ensures
        built_in_fields(key).len() == 7,
        is_reserved(built_in_fields(key)[k].0),
        field_value(dynamic_metadata(key), built_in_fields(key)[k].0) == Some(
            built_in_fields(key)[k].1,
        ),
        forall|i: int|
            0 <= i < custom_fields(key.metadata).len() ==> !is_reserved(
                (#[trigger] custom_fields(key.metadata)[i]).0,
            ),
{
    let all = dynamic_metadata(key);
    let own = built_in_fields(key);
    let name = own[k].0;
    reveal_strlit("user_id");
    reveal_strlit("api_key_id");
    reveal_strlit("api_key_name");
    reveal_strlit("allowed_models");
    reveal_strlit("tokens_per_model");
    reveal_strlit("rate_limit_requests");
    reveal_strlit("rate_limit_window_seconds");
    assert(own[0].0.len() == 7 && own[1].0.len() == 10 && own[2].0.len() == 12 && own[3].0.len()
        == 14 && own[4].0.len() == 16 && own[5].0.len() == 19 && own[6].0.len() == 25);
    lemma_first_index(all, field_named(name));
    assert(all[k] == own[k]);
    assert(field_named(name)(all[k]));
    assert forall|j: int| 0 <= j < k implies !field_named(name)(#[trigger] all[j]) by {
        assert(all[j] == own[j]);
    }
    match key.metadata {
        Some(JsonView::Object(members)) => {
            assert forall|i: int| 0 <= i < custom_fields(key.metadata).len() implies !is_reserved(
                (#[trigger] custom_fields(key.metadata)[i]).0,
            ) by {
                members.lemma_filter_pred(not_reserved(), i);
            }
        },
        _ => {},
    }
}

/// A list that is read from the store is a proper list: no model is
/// allowed twice, and no model has two budgets.
pub proof fn law_read_list_has_no_duplicates(s: StoreView, user_id: Seq<char>, id: Seq<char>)
    requires
        s.wf(),
        s.find_by_id(user_id, id).is_some(),
    ensures
        s.find_by_id(user_id, id).unwrap().acl.wf(),
        s.find_by_id(user_id, id).unwrap().acl.allowed_models.no_duplicates(),
{
    lemma_first_index(s.api_keys, owned_by(user_id, id));
    let i = first_index(s.api_keys, owned_by(user_id, id)).unwrap();
    let acl_id = s.api_keys[i].acl_id;
    lemma_materialize(s, i);
    let rows = s.models_of(acl_id);
    let acl = s.find_by_id(user_id, id).unwrap().acl;
    crate::store::lemma_filter_distinct(s.acl_models, in_acl(acl_id));
    assert forall|a: int| 0 <= a < rows.len() implies (#[trigger] rows[a]).acl_id == acl_id by {
        s.acl_models.lemma_filter_pred(in_acl(acl_id), a);
    }
    let names = limit_models(acl.tokens_per_model);
    assert forall|a: int, b: int| 0 <= a < names.len() && 0 <= b < names.len() && a
        != b implies names[a] != names[b] by {
        assert(names[a] == rows[a].model_name);
        assert(names[b] == rows[b].model_name);
        if a < b {
            assert(!(rows[a].acl_id == rows[b].acl_id && rows[a].model_name
                == rows[b].model_name));
        } else {
            assert(!(rows[b].acl_id == rows[a].acl_id && rows[b].model_name
                == rows[a].model_name));
        }
    }
    assert forall|a: int, b: int| 0 <= a < acl.allowed_models.len() && 0 <= b
        < acl.allowed_models.len() && a != b implies acl.allowed_models[a]
        != acl.allowed_models[b] by {
        assert(acl.allowed_models[a] == names[a]);
        assert(acl.allowed_models[b] == names[b]);
    }
}

} // verus!
