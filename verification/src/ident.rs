//! Identifiers and credentials: collision-resistant ids, and the API-key
//! string `sk-<slug>-<id>` that is built from two of them.

use vstd::prelude::*;

verus! {

/// The characters an id may start with: a lower-case letter.
pub open spec fn is_lower_letter(c: char) -> bool {
    'a' <= c <= 'z'
}

/// The characters an id is made of: lower-case letters and digits.
pub open spec fn is_base36(c: char) -> bool {
    ('a' <= c <= 'z') || ('0' <= c <= '9')
}

/// The shape of a generated id of at most `max_len` characters: a letter,
/// then at least one and at most `max_len - 1` letters or digits.
pub open spec fn is_cuid_text(s: Seq<char>, max_len: nat) -> bool {
    &&& 2 <= s.len() <= max_len
    &&& is_lower_letter(s[0])
    &&& forall|i: int| 1 <= i < s.len() ==> is_base36(#[trigger] s[i])
}

/// The longest id.
pub const ID_LENGTH: usize = 24;

/// The longest slug.
pub const SLUG_LENGTH: usize = 10;

/// The API-key string made of a slug and an id.
pub open spec fn key_text(slug: Seq<char>, id: Seq<char>) -> Seq<char> {
    "sk-"@ + slug + "-"@ + id
}

/// `cuid::cuid2`: a fresh id. It is drawn from the clock, a counter and
/// random numbers, so nothing is known of it but its shape: a lower-case
/// letter followed by the base-36 digits of a hash, cut to 24 characters in
/// all. The generator gives up on a machine whose clock stands before the
/// Unix epoch.
#[verifier::external_body]
pub(crate) fn cuid2() -> (r: String)
    ensures
        is_cuid_text(r@, ID_LENGTH as nat),
{
    cuid::cuid2()
}

/// `cuid::cuid2_slug`: a fresh id of at most ten characters, drawn like
/// [`cuid2`] and of the same shape.
#[verifier::external_body]
pub(crate) fn cuid2_slug() -> (r: String)
    ensures
        is_cuid_text(r@, SLUG_LENGTH as nat),
{
    cuid::cuid2_slug()
}

/// A fresh id for a row. Two draws may give the same id: the store checks.
pub fn new_id() -> (r: String)
    ensures
        is_cuid_text(r@, ID_LENGTH as nat),
{
    cuid2()
}

/// The API-key string `sk-<slug>-<id>`.
pub fn format_key(slug: &str, id: &str) -> (r: String)
    ensures
        r@ == key_text(slug@, id@),
{
    let mut key = "sk-".to_owned();
    key.append(slug);
    key.append("-");
    key.append(id);
    key
}

/// The shape of a generated API-key string: `sk-`, a slug, `-`, and an id.
pub open spec fn is_key_text(key: Seq<char>) -> bool {
    exists|slug: Seq<char>, id: Seq<char>|
        is_cuid_text(slug, SLUG_LENGTH as nat) && is_cuid_text(id, ID_LENGTH as nat) && key
            == #[trigger] key_text(slug, id)
}

/// A fresh API-key string: `sk-`, a fresh slug, `-`, and a fresh id.
pub fn generate_key() -> (r: String)
    ensures
        is_key_text(r@),
{
    let slug = cuid2_slug();
    let id = cuid2();
    format_key(slug.as_str(), id.as_str())
}

} // verus!
