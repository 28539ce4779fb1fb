//! Laws that relate the store's operations, stated and proved over its map
//! model. `create`'s contract describes the new store as the old map with one
//! fresh binding inserted; `resolve`'s contract forces its result to agree
//! with the map. These lemmas connect the two.

use vstd::prelude::*;
use crate::store::LinkStore;

verus! {

/// Round trip: after a successful `create` returned `code` and bound it to
/// `url`, the store maps `code` to `url`, so an immediately following
/// `resolve` with `code` must return exactly `url`.
pub proof fn lemma_create_then_resolve(
    pre: LinkStore,
    post: LinkStore,
    code: Seq<char>,
    url: Seq<char>,
)
    requires
        post@ == pre@.insert(code, url),
    ensures
        post@.contains_key(code),
        post@[code] == url,
{
}

/// Uniqueness: two successful `create` calls, serialized in either order by
/// the store's owner, never return the same code. The first call's code is
/// present in the store the second call starts from, while the second call's
/// code is fresh for that store.
pub proof fn lemma_created_codes_distinct(mid: LinkStore, c1: Seq<char>, c2: Seq<char>)
    requires
        mid@.contains_key(c1),
        !mid@.contains_key(c2),
    ensures
        c1 != c2,
{
}

/// Immutability: creating a new link never disturbs an existing binding.
pub proof fn lemma_existing_links_kept(
    pre: LinkStore,
    post: LinkStore,
    code: Seq<char>,
    url: Seq<char>,
    k: Seq<char>,
)
    requires
        post@ == pre@.insert(code, url),
        pre@.contains_key(k),
        k != code,
    ensures
        post@.contains_key(k),
        post@[k] == pre@[k],
{
}

} // verus!
