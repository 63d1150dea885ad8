//! The persisted state: three tables and the operations on them.
//!
//! An [`ApiKeyRepo`] holds the rows of `api_keys`, `acls` and `acl_models` in
//! memory. Every operation is stated as a function on [`StoreView`], the
//! mathematical content of the tables, so that what the operations promise
//! of each other can be proved.

use vstd::prelude::*;
use crate::api_key::{
    default_acl, json_opt, key_opt, keys, status_text, Acl, AclView, ApiKey, ApiKeyStatus,
    ApiKeyView, CreateApiKey, CreateApiKeyView, PatchApiKey, PatchApiKeyView,
};
use crate::entities::{
    acl_rows, key_rows, model_rows, new_model_rows, AclModelRow, AclModelRowView, AclRow,
    AclRowView, ApiKeyRow, ApiKeyRowView, NewAclModelRow, NewAclRow, NewApiKeyRow,
};
use crate::error::Error;
use crate::json::JsonValue;
use crate::ident::new_id;
use crate::mappers::{
    acl_row_of, acl_to_rows, key_of_rows, model_rows_of, signed32, to_api_key,
};
use crate::text::text_eq;
use crate::time::Timestamp;

verus! {

/// The index of the first element of `s` that satisfies `p`.
pub open spec fn first_index<T>(s: Seq<T>, p: spec_fn(T) -> bool) -> Option<int>
    decreases s.len(),
{
    if s.len() == 0 {
        None
    } else if p(s[0]) {
        Some(0)
    } else {
        match first_index(s.subrange(1, s.len() as int), p) {
            Some(i) => Some(i + 1),
            None => None,
        }
    }
}

/// [`first_index`] gives an index at which `p` holds and before which it
/// does not, or `None` where `p` holds nowhere.
pub proof fn lemma_first_index<T>(s: Seq<T>, p: spec_fn(T) -> bool)
    ensures
        match first_index(s, p) {
            Some(i) => 0 <= i < s.len() && p(s[i]) && forall|j: int| 0 <= j < i ==> !p(s[j]),
            None => forall|j: int| 0 <= j < s.len() ==> !p(s[j]),
        },
    decreases s.len(),
{
    if s.len() > 0 && !p(s[0]) {
        let t = s.subrange(1, s.len() as int);
        lemma_first_index(t, p);
        assert forall|j: int| 0 <= j < t.len() implies t[j] == s[j + 1] by {}
        match first_index(t, p) {
            Some(i) => {
                assert forall|j: int| 0 <= j < i + 1 implies !p(s[j]) by {
                    if j > 0 {
                        assert(t[j - 1] == s[j]);
                    }
                }
            },
            None => {
                assert forall|j: int| 0 <= j < s.len() implies !p(s[j]) by {
                    if j > 0 {
                        assert(t[j - 1] == s[j]);
                    }
                }
            },
        }
    }
}

/// The rows of `api_keys` with the id `id` that `user_id` owns.
pub open spec fn owned_by(user_id: Seq<char>, id: Seq<char>) -> spec_fn(ApiKeyRowView) -> bool {
    |r: ApiKeyRowView| r.id == id && r.user_id == user_id
}

/// The rows of `api_keys` whose stored credential is `token`.
pub open spec fn with_token(token: Seq<char>) -> spec_fn(ApiKeyRowView) -> bool {
    |r: ApiKeyRowView| r.key_hash == token
}

/// The rows of `api_keys` whose stored credential is `token` and whose
/// status is stored as active.
pub open spec fn active_with_token(token: Seq<char>) -> spec_fn(ApiKeyRowView) -> bool {
    |r: ApiKeyRowView| r.key_hash == token && r.status == status_text(ApiKeyStatus::Active)
}

/// The rows of `api_keys` that `user_id` owns.
pub open spec fn of_user(user_id: Seq<char>) -> spec_fn(ApiKeyRowView) -> bool {
    |r: ApiKeyRowView| r.user_id == user_id
}

/// The rows of `acls` with the id `acl_id`.
pub open spec fn acl_with_id(acl_id: Seq<char>) -> spec_fn(AclRowView) -> bool {
    |a: AclRowView| a.id == acl_id
}

/// The rows of `acl_models` under the list `acl_id`.
pub open spec fn in_acl(acl_id: Seq<char>) -> spec_fn(AclModelRowView) -> bool {
    |m: AclModelRowView| m.acl_id == acl_id
}

/// The rows of `acl_models` under any other list than `acl_id`.
pub open spec fn not_in_acl(acl_id: Seq<char>) -> spec_fn(AclModelRowView) -> bool {
    |m: AclModelRowView| m.acl_id != acl_id
}

/// No two rows of `rows` share list and model: the primary key of
/// `acl_models`.
pub open spec fn distinct_models(rows: Seq<AclModelRowView>) -> bool {
    forall|i: int, j: int|
        #![trigger rows[i], rows[j]]
        0 <= i < j < rows.len() ==> !(rows[i].acl_id == rows[j].acl_id && rows[i].model_name
            == rows[j].model_name)
}

/// A status text as the store writes it.
pub open spec fn canonical_status(text: Seq<char>) -> bool {
    text == status_text(ApiKeyStatus::Active) || text == status_text(ApiKeyStatus::Revoked)
}

/// The mathematical content of an [`ApiKeyRepo`]: the rows of the three tables,
/// each table in the order of insertion.
pub struct StoreView {
    pub api_keys: Seq<ApiKeyRowView>,
    pub acls: Seq<AclRowView>,
    pub acl_models: Seq<AclModelRowView>,
}

impl StoreView {
    /// The empty store.
    pub open spec fn empty() -> StoreView {
        StoreView { api_keys: Seq::empty(), acls: Seq::empty(), acl_models: Seq::empty() }
    }

    /// Whether `acls` has a row with the id `acl_id`.
    pub open spec fn has_acl(self, acl_id: Seq<char>) -> bool {
        exists|j: int| 0 <= j < self.acls.len() && (#[trigger] self.acls[j]).id == acl_id
    }

    /// Whether `api_keys` has a row with the id `id`.
    pub open spec fn has_key_id(self, id: Seq<char>) -> bool {
        exists|j: int| 0 <= j < self.api_keys.len() && (#[trigger] self.api_keys[j]).id == id
    }

    /// Whether `api_keys` has a row with the stored credential `key_hash`.
    pub open spec fn has_key_hash(self, key_hash: Seq<char>) -> bool {
        exists|j: int|
            0 <= j < self.api_keys.len() && (#[trigger] self.api_keys[j]).key_hash == key_hash
    }

    /// The constraints of the schema: primary keys and the credential are
    /// unique, no two keys share a list, every foreign key refers to a row,
    /// and every status is stored in its canonical form.
    pub open spec fn wf(self) -> bool {
        &&& forall|i: int, j: int|
            #![trigger self.api_keys[i], self.api_keys[j]]
            0 <= i < j < self.api_keys.len() ==> self.api_keys[i].id != self.api_keys[j].id
        &&& forall|i: int, j: int|
            #![trigger self.api_keys[i], self.api_keys[j]]
            0 <= i < j < self.api_keys.len() ==> self.api_keys[i].key_hash
                != self.api_keys[j].key_hash
        &&& forall|i: int, j: int|
            #![trigger self.api_keys[i], self.api_keys[j]]
            0 <= i < j < self.api_keys.len() ==> self.api_keys[i].acl_id
                != self.api_keys[j].acl_id
        &&& forall|i: int, j: int|
            #![trigger self.acls[i], self.acls[j]]
            0 <= i < j < self.acls.len() ==> self.acls[i].id != self.acls[j].id
        &&& distinct_models(self.acl_models)
        &&& forall|i: int|
            0 <= i < self.api_keys.len() ==> self.has_acl((#[trigger] self.api_keys[i]).acl_id)
        &&& forall|i: int|
            0 <= i < self.acl_models.len() ==> self.has_acl(
                (#[trigger] self.acl_models[i]).acl_id,
            )
        &&& forall|i: int|
            0 <= i < self.api_keys.len() ==> canonical_status((#[trigger] self.api_keys[i]).status)
    }

    /// The rows of `acl_models` under the list `acl_id`, in table order.
    pub open spec fn models_of(self, acl_id: Seq<char>) -> Seq<AclModelRowView> {
        self.acl_models.filter(in_acl(acl_id))
    }

    /// The key that `row` stands for, joined with its list and the models
    /// under it; `None` where the list is missing.
    pub open spec fn materialize(self, row: ApiKeyRowView) -> Option<ApiKeyView> {
        match first_index(self.acls, acl_with_id(row.acl_id)) {
            Some(j) => Some(key_of_rows(row, self.acls[j], self.models_of(row.acl_id))),
            None => None,
        }
    }

    /// The list with the id `acl_id`, read from its row and the model rows
    /// under it.
    pub open spec fn acl(self, acl_id: Seq<char>) -> Result<AclView, Error> {
        match first_index(self.acls, acl_with_id(acl_id)) {
            Some(j) => Ok(crate::mappers::acl_of_rows(self.acls[j], self.models_of(acl_id))),
            None => Err(Error::NotFound),
        }
    }

    /// The key with the id `id`, if `user_id` owns it.
    pub open spec fn find_by_id(self, user_id: Seq<char>, id: Seq<char>) -> Option<ApiKeyView> {
        match first_index(self.api_keys, owned_by(user_id, id)) {
            Some(i) => self.materialize(self.api_keys[i]),
            None => None,
        }
    }

    /// The key whose stored credential is `token`.
    pub open spec fn find_by_token(self, token: Seq<char>) -> Option<ApiKeyView> {
        match first_index(self.api_keys, with_token(token)) {
            Some(i) => self.materialize(self.api_keys[i]),
            None => None,
        }
    }

    /// The key whose stored credential is `token`, if its status is active.
    /// Expiry is not looked at here.
    pub open spec fn find_api_key_for_authz(self, token: Seq<char>) -> Option<ApiKeyView> {
        match first_index(self.api_keys, active_with_token(token)) {
            Some(i) => self.materialize(self.api_keys[i]),
            None => None,
        }
    }

    /// Why `create` is refused, if it is: a primary key that is taken or
    /// given twice is a database error, a credential that is taken is a
    /// conflict.
    pub open spec fn create_rejection(
        self,
        input: CreateApiKeyView,
        key_hash: Seq<char>,
        key_id: Seq<char>,
        acl_id: Seq<char>,
    ) -> Option<Error> {
        if self.has_acl(acl_id) || !distinct_models(model_rows_of(create_acl(input), acl_id))
            || self.has_key_id(key_id) {
            Some(Error::Database)
        } else if self.has_key_hash(key_hash) {
            Some(Error::Conflict)
        } else {
            None
        }
    }

    /// The store after `create`: unchanged where the request is refused,
    /// else with one more list, its model rows, and one more key.
    pub open spec fn after_create(
        self,
        user_id: Seq<char>,
        input: CreateApiKeyView,
        key_hash: Seq<char>,
        key_id: Seq<char>,
        acl_id: Seq<char>,
        now: Timestamp,
    ) -> StoreView {
        if self.create_rejection(input, key_hash, key_id, acl_id).is_some() {
            self
        } else {
            StoreView {
                api_keys: self.api_keys.push(
                    new_key_row(user_id, input, key_hash, key_id, acl_id, now),
                ),
                acls: self.acls.push(acl_row_of(create_acl(input), acl_id, now, now)),
                acl_models: self.acl_models + model_rows_of(create_acl(input), acl_id),
            }
        }
    }

    /// What `create` returns: the reason of the refusal, or the new key as
    /// it is read back from the store.
    pub open spec fn create_result(
        self,
        user_id: Seq<char>,
        input: CreateApiKeyView,
        key_hash: Seq<char>,
        key_id: Seq<char>,
        acl_id: Seq<char>,
        now: Timestamp,
    ) -> Result<ApiKeyView, Error> {
        match self.create_rejection(input, key_hash, key_id, acl_id) {
            Some(e) => Err(e),
            None => Ok(
                self.after_create(user_id, input, key_hash, key_id, acl_id, now).find_by_id(
                    user_id,
                    key_id,
                ).unwrap(),
            ),
        }
    }

    /// Why `update` is refused, if it is: no key with that id is owned by
    /// the caller, or the new list names a model twice.
    pub open spec fn update_rejection(
        self,
        user_id: Seq<char>,
        id: Seq<char>,
        patch: PatchApiKeyView,
    ) -> Option<Error> {
        match first_index(self.api_keys, owned_by(user_id, id)) {
            None => Some(Error::NotFound),
            Some(i) => match patch.acl {
                Some(acl) => if distinct_models(model_rows_of(acl, self.api_keys[i].acl_id)) {
                    None
                } else {
                    Some(Error::Database)
                },
                None => None,
            },
        }
    }

    /// The store after `update`: unchanged where the request is refused.
    /// Otherwise the key's row carries the patch; and where the patch holds
    /// a list, the row of the key's list carries its rate limit and `now`
    /// as the time of the change, and the model rows under that list are
    /// exactly those of the new list.
    pub open spec fn after_update(
        self,
        user_id: Seq<char>,
        id: Seq<char>,
        patch: PatchApiKeyView,
        now: Timestamp,
    ) -> StoreView {
        if self.update_rejection(user_id, id, patch).is_some() {
            self
        } else {
            let i = first_index(self.api_keys, owned_by(user_id, id)).unwrap();
            let row = self.api_keys[i];
            let api_keys = self.api_keys.update(i, patched_row(row, patch));
            match patch.acl {
                None => StoreView { api_keys, ..self },
                Some(acl) => StoreView {
                    api_keys,
                    acls: match first_index(self.acls, acl_with_id(row.acl_id)) {
                        Some(j) => self.acls.update(j, patched_acl_row(self.acls[j], acl, now)),
                        None => self.acls,
                    },
                    acl_models: self.acl_models.filter(not_in_acl(row.acl_id)) + model_rows_of(
                        acl,
                        row.acl_id,
                    ),
                },
            }
        }
    }

    /// What `update` returns: the reason of the refusal, or the key as it
    /// reads back after the change.
    pub open spec fn update_result(
        self,
        user_id: Seq<char>,
        id: Seq<char>,
        patch: PatchApiKeyView,
        now: Timestamp,
    ) -> Result<ApiKeyView, Error> {
        match self.update_rejection(user_id, id, patch) {
            Some(e) => Err(e),
            None => Ok(self.after_update(user_id, id, patch, now).find_by_id(user_id, id).unwrap()),
        }
    }

    /// The store after `delete`: the key with that id that the caller owns
    /// is revoked and kept; where there is none, nothing changes.
    pub open spec fn after_delete(self, user_id: Seq<char>, id: Seq<char>) -> StoreView {
        match first_index(self.api_keys, owned_by(user_id, id)) {
            Some(i) => StoreView {
                api_keys: self.api_keys.update(i, revoked_row(self.api_keys[i])),
                ..self
            },
            None => self,
        }
    }

    /// The rows that `find_all` and `list` page through: those of `user_id`,
    /// or all rows where no user is given, newest first.
    pub open spec fn listed_rows(self, user_id: Option<Seq<char>>) -> Seq<ApiKeyRowView> {
        newest_first(self.api_keys.filter(listed(user_id)))
    }

    /// What `find_all` and `list` return: a database error for a negative
    /// limit or offset, else the keys of one page, read from their rows.
    pub open spec fn page_of(self, user_id: Option<Seq<char>>, limit: i64, offset: i64) -> Result<
        Seq<ApiKeyView>,
        Error,
    > {
        if limit < 0 || offset < 0 {
            Err(Error::Database)
        } else {
            Ok(self.read_all(page(self.listed_rows(user_id), limit as int, offset as int)))
        }
    }

    /// The keys that `rows` stand for.
    pub open spec fn read_all(self, rows: Seq<ApiKeyRowView>) -> Seq<ApiKeyView> {
        rows.map_values(|r: ApiKeyRowView| self.materialize(r).unwrap())
    }

    /// The keys of `user_id`, newest first, `limit` of them after the first
    /// `offset`.
    pub open spec fn find_all(self, user_id: Seq<char>, limit: i64, offset: i64) -> Result<
        Seq<ApiKeyView>,
        Error,
    > {
        self.page_of(Some(user_id), limit, offset)
    }

    /// The keys of all users, newest first, `limit` of them after the first
    /// `offset`.
    pub open spec fn list(self, limit: i64, offset: i64) -> Result<Seq<ApiKeyView>, Error> {
        self.page_of(None, limit, offset)
    }
}

/// The rows that a listing looks at: those of the user, or all of them.
pub open spec fn listed(user_id: Option<Seq<char>>) -> spec_fn(ApiKeyRowView) -> bool {
    match user_id {
        Some(u) => of_user(u),
        None => |r: ApiKeyRowView| true,
    }
}

/// The rows that were created before `t`.
pub open spec fn created_before(t: Timestamp) -> spec_fn(ApiKeyRowView) -> bool {
    |r: ApiKeyRowView| r.created_at.micros < t.micros
}

/// `sorted` with `row` put in front of the first row that is older than it.
pub open spec fn insert_by_age(sorted: Seq<ApiKeyRowView>, row: ApiKeyRowView) -> Seq<
    ApiKeyRowView,
> {
    match first_index(sorted, created_before(row.created_at)) {
        Some(j) => sorted.insert(j, row),
        None => sorted.push(row),
    }
}

/// `rows` ordered by the time of creation, newest first; rows of the same
/// time stay in their order.
pub open spec fn newest_first(rows: Seq<ApiKeyRowView>) -> Seq<ApiKeyRowView>
    decreases rows.len(),
{
    if rows.len() == 0 {
        Seq::empty()
    } else {
        insert_by_age(newest_first(rows.drop_last()), rows.last())
    }
}

/// The page of `rows` that starts behind the first `offset` rows and holds
/// at most `limit` of them.
pub open spec fn page<T>(rows: Seq<T>, limit: int, offset: int) -> Seq<T> {
    let from = if offset < rows.len() {
        offset
    } else {
        rows.len() as int
    };
    let to = if from + limit < rows.len() {
        from + limit
    } else {
        rows.len() as int
    };
    rows.subrange(from, to)
}

/// What a result holds, where it holds a list of keys.
pub open spec fn keys_result(r: Result<Vec<ApiKey>, Error>) -> Result<Seq<ApiKeyView>, Error> {
    match r {
        Ok(v) => Ok(keys(v@)),
        Err(e) => Err(e),
    }
}

/// A key's row with the fields that the patch holds: each field that the
/// patch leaves out stays, and the status is written in its canonical form.
pub open spec fn patched_row(row: ApiKeyRowView, patch: PatchApiKeyView) -> ApiKeyRowView {
    ApiKeyRowView {
        status: match patch.status {
            Some(status) => status_text(status),
            None => row.status,
        },
        expires_at: match patch.expires_at {
            Some(e) => e,
            None => row.expires_at,
        },
        metadata: match patch.metadata {
            Some(m) => m,
            None => row.metadata,
        },
        ..row
    }
}

/// A list's row with the rate limit of `acl`, changed at `now`.
pub open spec fn patched_acl_row(row: AclRowView, acl: AclView, now: Timestamp) -> AclRowView {
    AclRowView {
        rate_limit_requests: signed32(acl.rate_limit.requests),
        rate_limit_window: signed32(acl.rate_limit.window_seconds),
        updated_at: now,
        ..row
    }
}

/// A key's row with the status revoked.
pub open spec fn revoked_row(row: ApiKeyRowView) -> ApiKeyRowView {
    ApiKeyRowView { status: status_text(ApiKeyStatus::Revoked), ..row }
}

/// Rows that are picked from distinct rows are distinct.
pub proof fn lemma_filter_distinct(rows: Seq<AclModelRowView>, p: spec_fn(AclModelRowView) -> bool)
    requires
        distinct_models(rows),
    ensures
        distinct_models(rows.filter(p)),
    decreases rows.len(),
{
    reveal(Seq::filter);
    if rows.len() > 0 {
        let d = rows.drop_last();
        let fd = d.filter(p);
        assert forall|i: int, j: int| 0 <= i < j < d.len() implies !((#[trigger] d[i]).acl_id == (
        #[trigger] d[j]).acl_id && d[i].model_name == d[j].model_name) by {
            assert(d[i] == rows[i]);
            assert(d[j] == rows[j]);
        }
        lemma_filter_distinct(d, p);
        if p(rows.last()) {
            let f = rows.filter(p);
            assert(f == fd.push(rows.last()));
            assert forall|i: int, j: int| 0 <= i < j < f.len() implies !((#[trigger] f[i]).acl_id
                == (#[trigger] f[j]).acl_id && f[i].model_name == f[j].model_name) by {
                if j < fd.len() {
                    assert(f[i] == fd[i]);
                    assert(f[j] == fd[j]);
                } else {
                    assert(f[i] == fd[i]);
                    assert(fd.contains(fd[i]));
                    d.lemma_filter_contains_rev(p, fd[i]);
                    let k = choose|k: int| 0 <= k < d.len() && d[k] == fd[i];
                    assert(rows[k] == d[k]);
                    assert(rows[rows.len() - 1] == f[j]);
                }
            }
        }
    }
}

/// `update` keeps the constraints of the schema.
pub proof fn lemma_update_wf(
    s: StoreView,
    user_id: Seq<char>,
    id: Seq<char>,
    patch: PatchApiKeyView,
    now: Timestamp,
)
    requires
        s.wf(),
    ensures
        s.after_update(user_id, id, patch, now).wf(),
{
    let t = s.after_update(user_id, id, patch, now);
    if s.update_rejection(user_id, id, patch).is_none() {
        lemma_first_index(s.api_keys, owned_by(user_id, id));
        let i = first_index(s.api_keys, owned_by(user_id, id)).unwrap();
        let row = s.api_keys[i];
        lemma_first_index(s.acls, acl_with_id(row.acl_id));
        assert(t.acls.len() == s.acls.len());
        assert forall|j: int| 0 <= j < s.acls.len() implies (#[trigger] t.acls[j]).id
            == s.acls[j].id by {}
        assert forall|x: Seq<char>| s.has_acl(x) implies t.has_acl(x) by {
            let j = choose|j: int| 0 <= j < s.acls.len() && (#[trigger] s.acls[j]).id == x;
            assert(t.acls[j].id == x);
        }
        assert forall|k: int| 0 <= k < t.api_keys.len() implies (#[trigger] t.api_keys[k]).id
            == s.api_keys[k].id && t.api_keys[k].key_hash == s.api_keys[k].key_hash
            && t.api_keys[k].acl_id == s.api_keys[k].acl_id && canonical_status(
            t.api_keys[k].status,
        ) by {}
        assert forall|k: int| 0 <= k < t.api_keys.len() implies t.has_acl(
            (#[trigger] t.api_keys[k]).acl_id,
        ) by {
            assert(s.has_acl(s.api_keys[k].acl_id));
        }
        match patch.acl {
            None => {},
            Some(acl) => {
                let kept = s.acl_models.filter(not_in_acl(row.acl_id));
                let fresh = model_rows_of(acl, row.acl_id);
                lemma_filter_distinct(s.acl_models, not_in_acl(row.acl_id));
                assert forall|a: int, b: int| 0 <= a < b < t.acl_models.len() implies !((
                #[trigger] t.acl_models[a]).acl_id == (#[trigger] t.acl_models[b]).acl_id
                    && t.acl_models[a].model_name == t.acl_models[b].model_name) by {
                    let n = kept.len() as int;
                    if b < n {
                        assert(t.acl_models[a] == kept[a]);
                        assert(t.acl_models[b] == kept[b]);
                    } else if a < n {
                        assert(t.acl_models[a] == kept[a]);
                        assert(not_in_acl(row.acl_id)(kept[a]));
                        assert(t.acl_models[b] == fresh[b - n]);
                    } else {
                        assert(t.acl_models[a] == fresh[a - n]);
                        assert(t.acl_models[b] == fresh[b - n]);
                    }
                }
                assert forall|k: int| 0 <= k < t.acl_models.len() implies t.has_acl(
                    (#[trigger] t.acl_models[k]).acl_id,
                ) by {
                    let n = kept.len() as int;
                    if k < n {
                        assert(t.acl_models[k] == kept[k]);
                        assert(kept.contains(kept[k]));
                        s.acl_models.lemma_filter_contains_rev(not_in_acl(row.acl_id), kept[k]);
                        let m = choose|m: int|
                            0 <= m < s.acl_models.len() && s.acl_models[m] == kept[k];
                        assert(s.has_acl(s.acl_models[m].acl_id));
                    } else {
                        assert(t.acl_models[k] == fresh[k - n]);
                        assert(s.has_acl(s.api_keys[i].acl_id));
                    }
                }
            },
        }
    }
}

/// `delete` keeps the constraints of the schema.
pub proof fn lemma_delete_wf(s: StoreView, user_id: Seq<char>, id: Seq<char>)
    requires
        s.wf(),
    ensures
        s.after_delete(user_id, id).wf(),
{
    let t = s.after_delete(user_id, id);
    lemma_first_index(s.api_keys, owned_by(user_id, id));
    assert forall|k: int| 0 <= k < t.api_keys.len() implies (#[trigger] t.api_keys[k]).id
        == s.api_keys[k].id && t.api_keys[k].key_hash == s.api_keys[k].key_hash
        && t.api_keys[k].acl_id == s.api_keys[k].acl_id && canonical_status(
        t.api_keys[k].status,
    ) by {}
    assert forall|x: Seq<char>| s.has_acl(x) implies t.has_acl(x) by {
        let j = choose|j: int| 0 <= j < s.acls.len() && (#[trigger] s.acls[j]).id == x;
        assert(t.acls[j].id == x);
    }
    assert forall|k: int| 0 <= k < t.api_keys.len() implies t.has_acl(
        (#[trigger] t.api_keys[k]).acl_id,
    ) by {
        assert(s.has_acl(s.api_keys[k].acl_id));
    }
    assert forall|k: int| 0 <= k < t.acl_models.len() implies t.has_acl(
        (#[trigger] t.acl_models[k]).acl_id,
    ) by {
        assert(s.has_acl(s.acl_models[k].acl_id));
    }
}

/// A change to one row that keeps its id and owner keeps the place at which
/// each key is found.
pub proof fn lemma_same_owner_index(
    rows: Seq<ApiKeyRowView>,
    i: int,
    row: ApiKeyRowView,
    user_id: Seq<char>,
    id: Seq<char>,
)
    requires
        0 <= i < rows.len(),
        row.id == rows[i].id,
        row.user_id == rows[i].user_id,
    ensures
        first_index(rows.update(i, row), owned_by(user_id, id)) == first_index(
            rows,
            owned_by(user_id, id),
        ),
{
    let p = owned_by(user_id, id);
    let t = rows.update(i, row);
    lemma_first_index(rows, p);
    lemma_first_index(t, p);
    assert forall|k: int| 0 <= k < rows.len() implies p(#[trigger] t[k]) == p(rows[k]) by {}
    match (first_index(rows, p), first_index(t, p)) {
        (Some(a), Some(b)) => {
            assert(p(t[a]) == p(rows[a]));
            assert(p(t[b]) == p(rows[b]));
        },
        (Some(a), None) => {
            assert(p(t[a]) == p(rows[a]));
        },
        (None, Some(b)) => {
            assert(p(t[b]) == p(rows[b]));
        },
        (None, None) => {},
    }
}

/// The list of a new key: the one asked for, or the default.
pub open spec fn create_acl(input: CreateApiKeyView) -> AclView {
    match input.acl {
        Some(a) => a,
        None => default_acl(),
    }
}

/// The row of a new key: active, created at `now`.
pub open spec fn new_key_row(
    user_id: Seq<char>,
    input: CreateApiKeyView,
    key_hash: Seq<char>,
    key_id: Seq<char>,
    acl_id: Seq<char>,
    now: Timestamp,
) -> ApiKeyRowView {
    ApiKeyRowView {
        id: key_id,
        user_id,
        key_hash,
        created_at: now,
        expires_at: input.expires_at,
        metadata: input.metadata,
        status: status_text(ApiKeyStatus::Active),
        acl_id,
    }
}

/// What a result holds, where it holds a key.
pub open spec fn key_result(r: Result<ApiKey, Error>) -> Result<ApiKeyView, Error> {
    match r {
        Ok(k) => Ok(k@),
        Err(e) => Err(e),
    }
}

/// A list that is in a table stays in it when a row is appended.
pub proof fn lemma_has_acl_push(s: StoreView, row: AclRowView, acl_id: Seq<char>)
    requires
        s.has_acl(acl_id) || row.id == acl_id,
    ensures
        (StoreView { acls: s.acls.push(row), ..s }).has_acl(acl_id),
{
    let t = StoreView { acls: s.acls.push(row), ..s };
    if s.has_acl(acl_id) {
        let j = choose|j: int| 0 <= j < s.acls.len() && (#[trigger] s.acls[j]).id == acl_id;
        assert(t.acls[j].id == acl_id);
    } else {
        assert(t.acls[s.acls.len() as int].id == acl_id);
    }
}

/// `create` keeps the constraints of the schema.
pub proof fn lemma_create_wf(
    s: StoreView,
    user_id: Seq<char>,
    input: CreateApiKeyView,
    key_hash: Seq<char>,
    key_id: Seq<char>,
    acl_id: Seq<char>,
    now: Timestamp,
)
    requires
        s.wf(),
    ensures
        s.after_create(user_id, input, key_hash, key_id, acl_id, now).wf(),
{
    let t = s.after_create(user_id, input, key_hash, key_id, acl_id, now);
    if s.create_rejection(input, key_hash, key_id, acl_id).is_none() {
        let acl = create_acl(input);
        let row = new_key_row(user_id, input, key_hash, key_id, acl_id, now);
        let acl_row = acl_row_of(acl, acl_id, now, now);
        let models = model_rows_of(acl, acl_id);
        let mid = StoreView { acls: s.acls.push(acl_row), ..s };
        assert forall|i: int| 0 <= i < t.api_keys.len() implies t.has_acl(
            (#[trigger] t.api_keys[i]).acl_id,
        ) by {
            lemma_has_acl_push(s, acl_row, t.api_keys[i].acl_id);
            assert(mid.acls == t.acls);
            assert(mid.has_acl(t.api_keys[i].acl_id));
        }
        assert forall|i: int| 0 <= i < t.acl_models.len() implies t.has_acl(
            (#[trigger] t.acl_models[i]).acl_id,
        ) by {
            if i >= s.acl_models.len() {
                assert(t.acl_models[i] == models[i - s.acl_models.len()]);
            }
            lemma_has_acl_push(s, acl_row, t.acl_models[i].acl_id);
            assert(mid.acls == t.acls);
            assert(mid.has_acl(t.acl_models[i].acl_id));
        }
        assert forall|i: int, j: int| 0 <= i < j < t.acl_models.len() implies !(
        (#[trigger] t.acl_models[i]).acl_id == (#[trigger] t.acl_models[j]).acl_id
            && t.acl_models[i].model_name == t.acl_models[j].model_name) by {
            let n = s.acl_models.len() as int;
            if j < n {
                assert(s.acl_models[i] == t.acl_models[i]);
                assert(s.acl_models[j] == t.acl_models[j]);
            } else if i < n {
                assert(s.has_acl(s.acl_models[i].acl_id));
                assert(t.acl_models[j] == models[j - n]);
            } else {
                assert(t.acl_models[i] == models[i - n]);
                assert(t.acl_models[j] == models[j - n]);
            }
        }
        assert(canonical_status(row.status));
    }
}

/// In a well-formed store every key row has its list, so it can be read.
pub proof fn lemma_materialize(s: StoreView, i: int)
    requires
        s.wf(),
        0 <= i < s.api_keys.len(),
    ensures
        s.materialize(s.api_keys[i]).is_some(),
{
    let acl_id = s.api_keys[i].acl_id;
    assert(s.has_acl(acl_id));
    let j = choose|j: int| 0 <= j < s.acls.len() && (#[trigger] s.acls[j]).id == acl_id;
    lemma_first_index(s.acls, acl_with_id(acl_id));
    assert(acl_with_id(acl_id)(s.acls[j]));
}

/// Whether no two rows of `rows` share list and model.
pub fn models_distinct(rows: &Vec<NewAclModelRow>) -> (r: bool)
    ensures
        r == distinct_models(new_model_rows(rows@)),
{
    let ghost v = new_model_rows(rows@);
    let mut j: usize = 0;
    while j < rows.len()
        invariant
            j <= rows.len(),
            v == new_model_rows(rows@),
            forall|a: int, b: int|
                #![trigger v[a], v[b]]
                0 <= a < b < j ==> !(v[a].acl_id == v[b].acl_id && v[a].model_name
                    == v[b].model_name),
        decreases rows.len() - j,
    {
        let mut i: usize = 0;
        while i < j
            invariant
                i <= j < rows.len(),
                v == new_model_rows(rows@),
                forall|a: int|
                    #![trigger v[a]]
                    0 <= a < i ==> !(v[a].acl_id == v[j as int].acl_id && v[a].model_name
                        == v[j as int].model_name),
            decreases j - i,
        {
            assert(v[i as int] == rows[i as int]@);
            assert(v[j as int] == rows[j as int]@);
            if text_eq(rows[i].acl_id.as_str(), rows[j].acl_id.as_str()) && text_eq(
                rows[i].model_name.as_str(),
                rows[j].model_name.as_str(),
            ) {
                return false;
            }
            i += 1;
        }
        j += 1;
    }
    true
}

/// The text that `o` holds, where it holds one.
pub open spec fn text_opt(o: Option<&str>) -> Option<Seq<char>> {
    match o {
        Some(s) => Some(s@),
        None => None,
    }
}

/// The rows that creating a key inserts, in the order of insertion: the
/// list, its models, the key.
#[derive(Debug, PartialEq, Eq)]
pub struct NewKeyRows {
    pub acl: NewAclRow,
    pub models: Vec<NewAclModelRow>,
    pub api_key: NewApiKeyRow,
}

/// The rows that creating a key for `user_id` inserts: the list that was
/// asked for, or the default list, laid out under `acl_id`, and the row of
/// the key, active and created at `now`.
pub fn new_key_rows(
    user_id: &str,
    input: CreateApiKey,
    key_hash: String,
    key_id: String,
    acl_id: String,
    now: Timestamp,
) -> (r: NewKeyRows)
    ensures
        r.acl@ == acl_row_of(create_acl(input@), acl_id@, now, now),
        new_model_rows(r.models@) == model_rows_of(create_acl(input@), acl_id@),
        r.api_key@ == new_key_row(user_id@, input@, key_hash@, key_id@, acl_id@, now),
{
    let acl = match input.acl {
        Some(a) => a,
        None => Acl::default(),
    };
    let (new_acl, models) = acl_to_rows(&acl, acl_id.as_str(), now, now);
    let api_key = NewApiKeyRow {
        id: key_id,
        user_id: user_id.to_owned(),
        key_hash,
        created_at: now,
        expires_at: input.expires_at,
        metadata: input.metadata,
        status: ApiKeyStatus::Active.to_string(),
        acl_id,
    };
    NewKeyRows { acl: new_acl, models, api_key }
}

/// What a patch writes to the list of a key: the rate limit and the time
/// of the change for the row of the list, and the model rows that take the
/// place of all that were under it.
#[derive(Debug, PartialEq, Eq)]
pub struct AclChange {
    pub rate_limit_requests: i32,
    pub rate_limit_window: i32,
    pub updated_at: Timestamp,
    pub models: Vec<NewAclModelRow>,
}

/// What a patch writes: for each column of the key's row the new value,
/// where the patch holds one, and the change to the key's list, where the
/// patch holds a list.
#[derive(Debug, PartialEq, Eq)]
pub struct KeyChange {
    pub status: Option<String>,
    pub expires_at: Option<Option<Timestamp>>,
    pub metadata: Option<Option<JsonValue>>,
    pub acl: Option<AclChange>,
}

impl KeyChange {
    /// The change is that of `patch` to a key with the list `acl_id`, made
    /// at `now`.
    pub open spec fn is_change(self, patch: PatchApiKeyView, acl_id: Seq<char>, now: Timestamp)
        -> bool {
        &&& match (self.status, patch.status) {
            (Some(text), Some(status)) => text@ == status_text(status),
            (None, None) => true,
            _ => false,
        }
        &&& self.expires_at == patch.expires_at
        &&& match (self.metadata, patch.metadata) {
            (Some(m), Some(n)) => json_opt(m) == n,
            (None, None) => true,
            _ => false,
        }
        &&& match (self.acl, patch.acl) {
            (Some(c), Some(acl)) => c.rate_limit_requests == signed32(acl.rate_limit.requests)
                && c.rate_limit_window == signed32(acl.rate_limit.window_seconds)
                && c.updated_at == now && new_model_rows(c.models@) == model_rows_of(
                acl,
                acl_id,
            ),
            (None, None) => true,
            _ => false,
        }
    }
}

/// What `patch` writes to a key with the list `acl_id`, at `now`.
pub fn key_change(acl_id: &str, patch: PatchApiKey, now: Timestamp) -> (r: KeyChange)
    ensures
        r.is_change(patch@, acl_id@, now),
{
    let PatchApiKey { expires_at, metadata, status, acl } = patch;
    KeyChange {
        status: match status {
            Some(s) => Some(s.to_string()),
            None => None,
        },
        expires_at,
        metadata,
        acl: match acl {
            Some(a) => {
                let (row, models) = acl_to_rows(&a, acl_id, now, now);
                Some(
                    AclChange {
                        rate_limit_requests: row.rate_limit_requests,
                        rate_limit_window: row.rate_limit_window,
                        updated_at: now,
                        models,
                    },
                )
            },
            None => None,
        },
    }
}

/// The three tables, held in memory.
#[derive(Debug)]
pub struct ApiKeyRepo {
    api_keys: Vec<ApiKeyRow>,
    acls: Vec<AclRow>,
    acl_models: Vec<AclModelRow>,
}

impl View for ApiKeyRepo {
    type V = StoreView;

    closed spec fn view(&self) -> StoreView {
        StoreView {
            api_keys: key_rows(self.api_keys@),
            acls: acl_rows(self.acls@),
            acl_models: model_rows(self.acl_models@),
        }
    }
}

impl ApiKeyRepo {
    /// Whether the tables meet the constraints of the schema.
    pub open spec fn wf(&self) -> bool {
        self@.wf()
    }

    /// A store without rows.
    pub fn new() -> (r: ApiKeyRepo)
        ensures
            r@ == StoreView::empty(),
            r.wf(),
    {
        let r = ApiKeyRepo { api_keys: Vec::new(), acls: Vec::new(), acl_models: Vec::new() };
        assert(r@.api_keys =~= Seq::empty());
        assert(r@.acls =~= Seq::empty());
        assert(r@.acl_models =~= Seq::empty());
        r
    }

    /// The index of the first row of `api_keys` with the id `id` that
    /// `user_id` owns.
    fn key_index(&self, user_id: &str, id: &str) -> (r: Option<usize>)
        ensures
            match r {
                Some(i) => first_index(self@.api_keys, owned_by(user_id@, id@)) == Some(i as int)
                    && i < self.api_keys.len(),
                None => first_index(self@.api_keys, owned_by(user_id@, id@)).is_none(),
            },
    {
        let ghost p = owned_by(user_id@, id@);
        proof {
            lemma_first_index(self@.api_keys, p);
        }
        let mut i: usize = 0;
        while i < self.api_keys.len()
            invariant
                i <= self.api_keys.len(),
                p == owned_by(user_id@, id@),
                forall|k: int| 0 <= k < i ==> !p(#[trigger] self@.api_keys[k]),
            decreases self.api_keys.len() - i,
        {
            let row = &self.api_keys[i];
            assert(self@.api_keys[i as int] == row@);
            if text_eq(row.id.as_str(), id) && text_eq(row.user_id.as_str(), user_id) {
                proof {
                    assert(p(self@.api_keys[i as int]));
                    lemma_first_index(self@.api_keys, p);
                }
                return Some(i);
            }
            i += 1;
        }
        None
    }

    /// The index of the first row of `api_keys` whose credential is `token`
    /// and, where `active_only` is set, whose status is stored as active.
    fn token_index(&self, token: &str, active_only: bool) -> (r: Option<usize>)
        ensures
            match r {
                Some(i) => i < self.api_keys.len() && first_index(
                    self@.api_keys,
                    if active_only {
                        active_with_token(token@)
                    } else {
                        with_token(token@)
                    },
                ) == Some(i as int),
                None => first_index(
                    self@.api_keys,
                    if active_only {
                        active_with_token(token@)
                    } else {
                        with_token(token@)
                    },
                ).is_none(),
            },
    {
        let ghost p = if active_only {
            active_with_token(token@)
        } else {
            with_token(token@)
        };
        proof {
            lemma_first_index(self@.api_keys, p);
        }
        let mut i: usize = 0;
        while i < self.api_keys.len()
            invariant
                i <= self.api_keys.len(),
                p == if active_only {
                    active_with_token(token@)
                } else {
                    with_token(token@)
                },
                forall|k: int| 0 <= k < i ==> !p(#[trigger] self@.api_keys[k]),
            decreases self.api_keys.len() - i,
        {
            let row = &self.api_keys[i];
            assert(self@.api_keys[i as int] == row@);
            if text_eq(row.key_hash.as_str(), token) && (!active_only || text_eq(
                row.status.as_str(),
                ApiKeyStatus::Active.as_str(),
            )) {
                proof {
                    assert(p(self@.api_keys[i as int]));
                    lemma_first_index(self@.api_keys, p);
                }
                return Some(i);
            }
            i += 1;
        }
        None
    }

    /// The index of the row of `acls` with the id `acl_id`.
    fn acl_index(&self, acl_id: &str) -> (r: Option<usize>)
        ensures
            match r {
                Some(i) => first_index(self@.acls, acl_with_id(acl_id@)) == Some(i as int) && i
                    < self.acls.len(),
                None => first_index(self@.acls, acl_with_id(acl_id@)).is_none(),
            },
    {
        let ghost p = acl_with_id(acl_id@);
        proof {
            lemma_first_index(self@.acls, p);
        }
        let mut i: usize = 0;
        while i < self.acls.len()
            invariant
                i <= self.acls.len(),
                p == acl_with_id(acl_id@),
                forall|k: int| 0 <= k < i ==> !p(#[trigger] self@.acls[k]),
            decreases self.acls.len() - i,
        {
            let row = &self.acls[i];
            assert(self@.acls[i as int] == row@);
            if text_eq(row.id.as_str(), acl_id) {
                proof {
                    assert(p(self@.acls[i as int]));
                    lemma_first_index(self@.acls, p);
                }
                return Some(i);
            }
            i += 1;
        }
        None
    }

    /// Copies of the rows of `acl_models` under the list `acl_id`.
    fn models_under(&self, acl_id: &str) -> (r: Vec<AclModelRow>)
        ensures
            model_rows(r@) == self@.models_of(acl_id@),
    {
        let ghost p = in_acl(acl_id@);
        let ghost all = self@.acl_models;
        let mut out: Vec<AclModelRow> = Vec::new();
        let mut i: usize = 0;
        proof {
            reveal(Seq::filter);
            assert(all.subrange(0, 0) =~= Seq::empty());
            assert(model_rows(out@) =~= Seq::empty());
        }
        while i < self.acl_models.len()
            invariant
                i <= self.acl_models.len(),
                p == in_acl(acl_id@),
                all == self@.acl_models,
                model_rows(out@) == all.subrange(0, i as int).filter(p),
            decreases self.acl_models.len() - i,
        {
            let row = &self.acl_models[i];
            proof {
                assert(all[i as int] == row@);
                assert(all.subrange(0, i + 1) =~= all.subrange(0, i as int).push(all[i as int]));
                all.subrange(0, i as int).lemma_filter_push(all[i as int], p);
            }
            if text_eq(row.acl_id.as_str(), acl_id) {
                let ghost before = model_rows(out@);
                out.push(row.clone());
                assert(model_rows(out@) =~= before.push(row@));
            }
            i += 1;
        }
        assert(all.subrange(0, all.len() as int) =~= all);
        out
    }

    /// Reads the key that `row` stands for: the row joined with the row of
    /// its list and the model rows under it. A row whose list is missing is
    /// a database error.
    pub fn get_api_key_dto(&self, row: &ApiKeyRow) -> (r: Result<ApiKey, Error>)
        ensures
            match self@.materialize(row@) {
                Some(k) => r.is_ok() && r.unwrap()@ == k,
                None => r == Err::<ApiKey, Error>(Error::Database),
            },
    {
        match self.acl_index(row.acl_id.as_str()) {
            Some(j) => {
                let models = self.models_under(row.acl_id.as_str());
                assert(self@.acls[j as int] == self.acls[j as int]@);
                Ok(to_api_key(row, &self.acls[j], models.as_slice()))
            },
            None => Err(Error::Database),
        }
    }

    /// Whether a row of `api_keys` has the id `id`.
    fn id_taken(&self, id: &str) -> (r: bool)
        ensures
            r == self@.has_key_id(id@),
    {
        let mut i: usize = 0;
        while i < self.api_keys.len()
            invariant
                i <= self.api_keys.len(),
                forall|k: int| 0 <= k < i ==> (#[trigger] self@.api_keys[k]).id != id@,
            decreases self.api_keys.len() - i,
        {
            assert(self@.api_keys[i as int] == self.api_keys[i as int]@);
            if text_eq(self.api_keys[i].id.as_str(), id) {
                return true;
            }
            i += 1;
        }
        false
    }

    /// Whether a row of `api_keys` has the stored credential `key_hash`.
    fn hash_taken(&self, key_hash: &str) -> (r: bool)
        ensures
            r == self@.has_key_hash(key_hash@),
    {
        let mut i: usize = 0;
        while i < self.api_keys.len()
            invariant
                i <= self.api_keys.len(),
                forall|k: int| 0 <= k < i ==> (#[trigger] self@.api_keys[k]).key_hash != key_hash@,
            decreases self.api_keys.len() - i,
        {
            assert(self@.api_keys[i as int] == self.api_keys[i as int]@);
            if text_eq(self.api_keys[i].key_hash.as_str(), key_hash) {
                return true;
            }
            i += 1;
        }
        false
    }

    /// Whether a row of `acls` has the id `acl_id`.
    fn acl_taken(&self, acl_id: &str) -> (r: bool)
        ensures
            r == self@.has_acl(acl_id@),
    {
        let mut i: usize = 0;
        while i < self.acls.len()
            invariant
                i <= self.acls.len(),
                forall|k: int| 0 <= k < i ==> (#[trigger] self@.acls[k]).id != acl_id@,
            decreases self.acls.len() - i,
        {
            assert(self@.acls[i as int] == self.acls[i as int]@);
            if text_eq(self.acls[i].id.as_str(), acl_id) {
                return true;
            }
            i += 1;
        }
        false
    }

    /// Appends `rows` to `acl_models`.
    fn insert_models(&mut self, rows: &Vec<NewAclModelRow>)
        ensures
            final(self)@.acl_models == old(self)@.acl_models + new_model_rows(rows@),
            final(self)@.api_keys == old(self)@.api_keys,
            final(self)@.acls == old(self)@.acls,
    {
        let mut i: usize = 0;
        assert(new_model_rows(rows@).subrange(0, 0) =~= Seq::empty());
        assert(self@.acl_models + Seq::<AclModelRowView>::empty() =~= self@.acl_models);
        while i < rows.len()
            invariant
                i <= rows.len(),
                self@.acl_models == old(self)@.acl_models + new_model_rows(rows@).subrange(
                    0,
                    i as int,
                ),
                self@.api_keys == old(self)@.api_keys,
                self@.acls == old(self)@.acls,
            decreases rows.len() - i,
        {
            let ghost before = self@.acl_models;
            let row = rows[i].clone().into_row();
            self.acl_models.push(row);
            proof {
                assert(self@.acl_models =~= before.push(rows[i as int]@));
                assert(new_model_rows(rows@).subrange(0, i + 1) =~= new_model_rows(
                    rows@,
                ).subrange(0, i as int).push(rows[i as int]@));
                assert(self@.acl_models =~= old(self)@.acl_models + new_model_rows(
                    rows@,
                ).subrange(0, i + 1));
            }
            i += 1;
        }
        assert(new_model_rows(rows@).subrange(0, rows.len() as int) =~= new_model_rows(rows@));
    }

    /// Creates a key for `user_id` under the given ids and at the given
    /// time, with its list and the model rows of the list, all or nothing.
    ///
    /// The request is refused, and the store left as it was, where `acl_id`
    /// or `key_id` is taken or the list names a model twice (a database
    /// error), or where `key_hash` is taken (a conflict). Otherwise the key
    /// is stored as active and returned as it reads back.
    pub fn create_with(
        &mut self,
        user_id: &str,
        input: CreateApiKey,
        key_hash: String,
        key_id: String,
        acl_id: String,
        now: Timestamp,
    ) -> (r: Result<ApiKey, Error>)
        requires
            old(self).wf(),
        ensures
            final(self).wf(),
            final(self)@ == old(self)@.after_create(
                user_id@,
                input@,
                key_hash@,
                key_id@,
                acl_id@,
                now,
            ),
            key_result(r) == old(self)@.create_result(
                user_id@,
                input@,
                key_hash@,
                key_id@,
                acl_id@,
                now,
            ),
    {
        proof {
            lemma_create_wf(old(self)@, user_id@, input@, key_hash@, key_id@, acl_id@, now);
        }
        let NewKeyRows { acl: new_acl, models, api_key: new_api_key } = new_key_rows(
            user_id,
            input,
            key_hash,
            key_id,
            acl_id,
            now,
        );
        if self.acl_taken(new_acl.id.as_str()) || !models_distinct(&models) || self.id_taken(
            new_api_key.id.as_str(),
        ) {
            return Err(Error::Database);
        }
        if self.hash_taken(new_api_key.key_hash.as_str()) {
            return Err(Error::Conflict);
        }
        let ghost before = self@;
        self.acls.push(new_acl.into_row());
        assert(self@.acls =~= before.acls.push(new_acl@));
        self.insert_models(&models);
        let key_row = new_api_key.into_row();
        let ghost mid = self@;
        self.api_keys.push(key_row);
        assert(self@.api_keys =~= mid.api_keys.push(new_api_key@));
        assert(self@.acls == mid.acls);
        assert(self@.acl_models == mid.acl_models);
        let last = self.api_keys.len() - 1;
        proof {
            let ghost p = owned_by(user_id@, new_api_key.id@);
            lemma_first_index(self@.api_keys, p);
            assert(p(self@.api_keys[last as int]));
            assert forall|k: int| 0 <= k < last implies !p(#[trigger] self@.api_keys[k]) by {
                assert(self@.api_keys[k] == before.api_keys[k]);
            }
            lemma_materialize(self@, last as int);
            assert(self@.api_keys[last as int] == self.api_keys[last as int]@);
        }
        self.get_api_key_dto(&self.api_keys[last])
    }

    /// Copies of the rows of `acl_models` under any other list than `acl_id`.
    fn models_outside(&self, acl_id: &str) -> (r: Vec<AclModelRow>)
        ensures
            model_rows(r@) == self@.acl_models.filter(not_in_acl(acl_id@)),
    {
        let ghost p = not_in_acl(acl_id@);
        let ghost all = self@.acl_models;
        let mut out: Vec<AclModelRow> = Vec::new();
        let mut i: usize = 0;
        proof {
            reveal(Seq::filter);
            assert(all.subrange(0, 0) =~= Seq::empty());
            assert(model_rows(out@) =~= Seq::empty());
        }
        while i < self.acl_models.len()
            invariant
                i <= self.acl_models.len(),
                p == not_in_acl(acl_id@),
                all == self@.acl_models,
                model_rows(out@) == all.subrange(0, i as int).filter(p),
            decreases self.acl_models.len() - i,
        {
            let row = &self.acl_models[i];
            proof {
                assert(all[i as int] == row@);
                assert(all.subrange(0, i + 1) =~= all.subrange(0, i as int).push(all[i as int]));
                all.subrange(0, i as int).lemma_filter_push(all[i as int], p);
            }
            if !text_eq(row.acl_id.as_str(), acl_id) {
                let ghost before = model_rows(out@);
                out.push(row.clone());
                assert(model_rows(out@) =~= before.push(row@));
            }
            i += 1;
        }
        assert(all.subrange(0, all.len() as int) =~= all);
        out
    }

    /// Changes the key with the id `id` that `user_id` owns, at the time
    /// `now`, all or nothing.
    ///
    /// The request is refused, and the store left as it was, where the
    /// caller owns no key with that id (not found), or where the new list
    /// names a model twice (a database error). Otherwise each field that the
    /// patch holds is written; a list in the patch replaces the rate limit
    /// and all model rows of the key's list. The key is returned as it reads
    /// back.
    pub fn update_at(&mut self, user_id: &str, id: &str, input: PatchApiKey, now: Timestamp) -> (r:
        Result<ApiKey, Error>)
        requires
            old(self).wf(),
        ensures
            final(self).wf(),
            final(self)@ == old(self)@.after_update(user_id@, id@, input@, now),
            key_result(r) == old(self)@.update_result(user_id@, id@, input@, now),
    {
        proof {
            lemma_update_wf(old(self)@, user_id@, id@, input@, now);
        }
        let i = match self.key_index(user_id, id) {
            Some(i) => i,
            None => {
                return Err(Error::NotFound);
            },
        };
        let ghost before = self@;
        let ghost patch = input@;
        assert(before.api_keys[i as int] == self.api_keys[i as int]@);
        let mut row = self.api_keys[i].clone();
        let acl_id = row.acl_id.clone();
        let change = key_change(acl_id.as_str(), input, now);
        if let Some(c) = &change.acl {
            if !models_distinct(&c.models) {
                return Err(Error::Database);
            }
        }
        let KeyChange { status, expires_at, metadata, acl } = change;
        if let Some(s) = status {
            row.status = s;
        }
        if let Some(e) = expires_at {
            row.expires_at = e;
        }
        if let Some(m) = metadata {
            row.metadata = m;
        }
        assert(row@ == patched_row(before.api_keys[i as int], patch));
        self.api_keys.set(i, row);
        assert(self@.api_keys =~= before.api_keys.update(i as int, row@));
        assert(self@.acls == before.acls);
        assert(self@.acl_models == before.acl_models);
        if let Some(c) = acl {
            match self.acl_index(acl_id.as_str()) {
                Some(j) => {
                    assert(before.acls[j as int] == self.acls[j as int]@);
                    let mut a = self.acls[j].clone();
                    a.rate_limit_requests = c.rate_limit_requests;
                    a.rate_limit_window = c.rate_limit_window;
                    a.updated_at = c.updated_at;
                    self.acls.set(j, a);
                    assert(self@.acls =~= before.acls.update(j as int, a@));
                },
                None => {},
            }
            let kept = self.models_outside(acl_id.as_str());
            self.acl_models = kept;
            assert(self@.acl_models == before.acl_models.filter(not_in_acl(acl_id@)));
            self.insert_models(&c.models);
        }
        proof {
            lemma_same_owner_index(before.api_keys, i as int, row@, user_id@, id@);
            lemma_materialize(self@, i as int);
            assert(self@.api_keys[i as int] == self.api_keys[i as int]@);
        }
        self.get_api_key_dto(&self.api_keys[i])
    }

    /// Changes the key with the id `id` that `user_id` owns, at the time
    /// that the clock gives. Whatever the clock gives, the outcome is that
    /// of [`ApiKeyRepo::update_at`] at that time.
    pub fn update(&mut self, user_id: &str, id: &str, input: PatchApiKey) -> (r: Result<
        ApiKey,
        Error,
    >)
        requires
            old(self).wf(),
        ensures
            final(self).wf(),
            exists|now: Timestamp|
                final(self)@ == old(self)@.after_update(user_id@, id@, input@, now) && key_result(
                    r,
                ) == #[trigger] old(self)@.update_result(user_id@, id@, input@, now),
    {
        let now = crate::time::now();
        self.update_at(user_id, id, input, now)
    }

    /// Revokes the key with the id `id` that `user_id` owns. The row stays.
    /// Where the caller owns no such key, nothing changes, and that is no
    /// error.
    pub fn delete(&mut self, user_id: &str, id: &str) -> (r: Result<(), Error>)
        requires
            old(self).wf(),
        ensures
            final(self).wf(),
            r.is_ok(),
            final(self)@ == old(self)@.after_delete(user_id@, id@),
    {
        proof {
            lemma_delete_wf(old(self)@, user_id@, id@);
        }
        match self.key_index(user_id, id) {
            Some(i) => {
                let ghost before = self@;
                assert(before.api_keys[i as int] == self.api_keys[i as int]@);
                let mut row = self.api_keys[i].clone();
                row.status = ApiKeyStatus::Revoked.to_string();
                self.api_keys.set(i, row);
                assert(self@.api_keys =~= before.api_keys.update(i as int, row@));
            },
            None => {},
        }
        Ok(())
    }

    /// Creates a key for `user_id` under fresh ids, at the time that the
    /// clock gives. Whatever ids and time were drawn, the outcome is that of
    /// [`ApiKeyRepo::create_with`] for them.
    pub fn create(&mut self, user_id: &str, input: CreateApiKey, key_hash: String) -> (r: Result<
        ApiKey,
        Error,
    >)
        requires
            old(self).wf(),
        ensures
            final(self).wf(),
            exists|key_id: Seq<char>, acl_id: Seq<char>, now: Timestamp|
                final(self)@ == #[trigger] old(self)@.after_create(
                    user_id@,
                    input@,
                    key_hash@,
                    key_id,
                    acl_id,
                    now,
                ) && key_result(r) == old(self)@.create_result(
                    user_id@,
                    input@,
                    key_hash@,
                    key_id,
                    acl_id,
                    now,
                ),
    {
        let now = crate::time::now();
        let key_id = new_id();
        let acl_id = new_id();
        self.create_with(user_id, input, key_hash, key_id, acl_id, now)
    }

    /// The positions in `api_keys` of the rows that a listing looks at, in
    /// the order of the listing.
    fn listed_order(&self, user_id: Option<&str>) -> (r: Vec<usize>)
        ensures
            r@.len() == self@.listed_rows(text_opt(user_id)).len(),
            forall|k: int|
                0 <= k < r@.len() ==> (#[trigger] r@[k]) < self.api_keys.len()
                    && self@.api_keys[r@[k] as int] == self@.listed_rows(text_opt(user_id))[k],
    {
        let ghost p = listed(text_opt(user_id));
        let ghost all = self@.api_keys;
        let mut order: Vec<usize> = Vec::new();
        let mut k: usize = 0;
        proof {
            reveal(Seq::filter);
            assert(all.subrange(0, 0) =~= Seq::empty());
        }
        while k < self.api_keys.len()
            invariant
                k <= self.api_keys.len(),
                p == listed(text_opt(user_id)),
                all == self@.api_keys,
                order@.len() == newest_first(all.subrange(0, k as int).filter(p)).len(),
                forall|j: int|
                    0 <= j < order@.len() ==> (#[trigger] order@[j]) < self.api_keys.len()
                        && all[order@[j] as int] == newest_first(
                        all.subrange(0, k as int).filter(p),
                    )[j],
            decreases self.api_keys.len() - k,
        {
            let row = &self.api_keys[k];
            let ghost done = all.subrange(0, k as int).filter(p);
            let ghost sorted = newest_first(done);
            proof {
                assert(all[k as int] == row@);
                assert(all.subrange(0, k + 1) =~= all.subrange(0, k as int).push(all[k as int]));
                all.subrange(0, k as int).lemma_filter_push(all[k as int], p);
            }
            let wanted = match user_id {
                Some(u) => text_eq(row.user_id.as_str(), u),
                None => true,
            };
            assert(wanted == p(all[k as int]));
            if wanted {
                let ghost q = created_before(row.created_at);
                let mut j: usize = 0;
                while j < order.len() && !self.api_keys[order[j]].created_at.is_before(
                    &row.created_at,
                )
                    invariant
                        j <= order.len(),
                        k < self.api_keys.len(),
                        all == self@.api_keys,
                        row@ == all[k as int],
                        q == created_before(row.created_at),
                        order@.len() == sorted.len(),
                        forall|i: int|
                            0 <= i < order@.len() ==> (#[trigger] order@[i])
                                < self.api_keys.len() && all[order@[i] as int] == sorted[i],
                        forall|i: int| 0 <= i < j ==> !q(#[trigger] sorted[i]),
                    decreases order.len() - j,
                {
                    assert(all[order@[j as int] as int] == self.api_keys[order@[j as int] as int]@);
                    j += 1;
                }
                proof {
                    lemma_first_index(sorted, q);
                    if j < order.len() {
                        assert(all[order@[j as int] as int] == self.api_keys[order@[j as int] as int]@);
                        assert(q(sorted[j as int]));
                    }
                    assert(done.push(all[k as int]).drop_last() =~= done);
                    assert(newest_first(done.push(all[k as int])) == insert_by_age(
                        sorted,
                        all[k as int],
                    ));
                }
                let ghost old_order = order@;
                order.insert(j, k);
                proof {
                    let next = newest_first(all.subrange(0, k + 1).filter(p));
                    assert(next =~= sorted.insert(j as int, all[k as int]));
                    assert forall|i: int| 0 <= i < order@.len() implies (#[trigger] order@[i])
                        < self.api_keys.len() && all[order@[i] as int] == next[i] by {
                        if i < j {
                            assert(order@[i] == old_order[i]);
                        } else if i > j {
                            assert(order@[i] == old_order[i - 1]);
                        }
                    }
                }
            }
            k += 1;
        }
        assert(all.subrange(0, all.len() as int) =~= all);
        order
    }

    /// One page of a listing.
    fn read_page(&self, user_id: Option<&str>, limit: i64, offset: i64) -> (r: Result<
        Vec<ApiKey>,
        Error,
    >)
        requires
            self.wf(),
        ensures
            keys_result(r) == self@.page_of(text_opt(user_id), limit, offset),
    {
        if limit < 0 || offset < 0 {
            return Err(Error::Database);
        }
        let order = self.listed_order(user_id);
        let ghost rows = self@.listed_rows(text_opt(user_id));
        let n = order.len() as u64;
        let from = if (offset as u64) < n {
            offset as u64
        } else {
            n
        };
        let room = n - from;
        let take = if (limit as u64) < room {
            limit as u64
        } else {
            room
        };
        let to = from + take;
        let ghost wanted = page(rows, limit as int, offset as int);
        assert(wanted == rows.subrange(from as int, to as int));
        let mut out: Vec<ApiKey> = Vec::new();
        let mut c = from;
        assert(keys(out@) =~= self@.read_all(wanted.subrange(0, 0)));
        while c < to
            invariant
                self.wf(),
                from <= c <= to <= n,
                n == order.len(),
                rows == self@.listed_rows(text_opt(user_id)),
                order@.len() == rows.len(),
                forall|k: int|
                    0 <= k < order@.len() ==> (#[trigger] order@[k]) < self.api_keys.len()
                        && self@.api_keys[order@[k] as int] == rows[k],
                wanted == rows.subrange(from as int, to as int),
                keys(out@) == self@.read_all(wanted.subrange(0, c - from)),
            decreases to - c,
        {
            let idx = order[c as usize];
            proof {
                lemma_materialize(self@, idx as int);
                assert(self@.api_keys[idx as int] == self.api_keys[idx as int]@);
            }
            let ghost before = keys(out@);
            match self.get_api_key_dto(&self.api_keys[idx]) {
                Ok(key) => {
                    out.push(key);
                    proof {
                        assert(wanted[c - from] == rows[c as int]);
                        assert(wanted.subrange(0, c + 1 - from) =~= wanted.subrange(
                            0,
                            c - from,
                        ).push(wanted[c - from]));
                        assert(keys(out@) =~= before.push(key@));
                        assert(keys(out@) =~= self@.read_all(wanted.subrange(0, c + 1 - from)));
                    }
                },
                Err(e) => {
                    return Err(e);
                },
            }
            c += 1;
        }
        assert(wanted.subrange(0, to - from) =~= wanted);
        Ok(out)
    }

    /// The keys of `user_id`, newest first: at most `limit` of them, behind
    /// the first `offset`. A negative limit or offset is a database error.
    pub fn find_all(&self, user_id: &str, limit: i64, offset: i64) -> (r: Result<
        Vec<ApiKey>,
        Error,
    >)
        requires
            self.wf(),
        ensures
            keys_result(r) == self@.find_all(user_id@, limit, offset),
    {
        self.read_page(Some(user_id), limit, offset)
    }

    /// The keys of all users, newest first: at most `limit` of them, behind
    /// the first `offset`. A negative limit or offset is a database error.
    pub fn list(&self, limit: i64, offset: i64) -> (r: Result<Vec<ApiKey>, Error>)
        requires
            self.wf(),
        ensures
            keys_result(r) == self@.list(limit, offset),
    {
        self.read_page(None, limit, offset)
    }

    /// The list with the id `id`; not found where there is none.
    pub fn get_acl(&self, id: &str) -> (r: Result<Acl, Error>)
        ensures
            match self@.acl(id@) {
                Ok(a) => r.is_ok() && r.unwrap()@ == a,
                Err(e) => r.is_err() && r.unwrap_err() == e,
            },
    {
        match self.acl_index(id) {
            Some(j) => {
                let models = self.models_under(id);
                assert(self@.acls[j as int] == self.acls[j as int]@);
                Ok(crate::mappers::rows_to_acl(&self.acls[j], models.as_slice()))
            },
            None => Err(Error::NotFound),
        }
    }

    /// The key with the id `id`, provided that `user_id` owns it. A key of
    /// another user is not found.
    pub fn find_by_id(&self, user_id: &str, id: &str) -> (r: Result<Option<ApiKey>, Error>)
        requires
            self.wf(),
        ensures
            r.is_ok(),
            key_opt(r.unwrap()) == self@.find_by_id(user_id@, id@),
    {
        match self.key_index(user_id, id) {
            Some(i) => {
                proof {
                    lemma_materialize(self@, i as int);
                    assert(self@.api_keys[i as int] == self.api_keys[i as int]@);
                }
                let key = self.get_api_key_dto(&self.api_keys[i])?;
                Ok(Some(key))
            },
            None => Ok(None),
        }
    }

    /// The key whose stored credential is `token`, whatever its status.
    pub fn find_by_token(&self, token: &str) -> (r: Result<Option<ApiKey>, Error>)
        requires
            self.wf(),
        ensures
            r.is_ok(),
            key_opt(r.unwrap()) == self@.find_by_token(token@),
    {
        match self.token_index(token, false) {
            Some(i) => {
                proof {
                    lemma_materialize(self@, i as int);
                    assert(self@.api_keys[i as int] == self.api_keys[i as int]@);
                }
                let key = self.get_api_key_dto(&self.api_keys[i])?;
                Ok(Some(key))
            },
            None => Ok(None),
        }
    }

    /// The key whose stored credential is `token`, provided that its status
    /// is active. Expiry is left to the caller, who knows the time.
    pub fn find_api_key_for_authz(&self, token: &str) -> (r: Result<Option<ApiKey>, Error>)
        requires
            self.wf(),
        ensures
            r.is_ok(),
            key_opt(r.unwrap()) == self@.find_api_key_for_authz(token@),
    {
        match self.token_index(token, true) {
            Some(i) => {
                proof {
                    lemma_materialize(self@, i as int);
                    assert(self@.api_keys[i as int] == self.api_keys[i as int]@);
                }
                let key = self.get_api_key_dto(&self.api_keys[i])?;
                Ok(Some(key))
            },
            None => Ok(None),
        }
    }
}

} // verus!
