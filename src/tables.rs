//! The hash maps that hold rank tables and special-token tables, and what the
//! library relies on of them.

use rustc_hash::FxHashMap;
use vstd::prelude::*;

verus! {

#[verifier::external_type_specification]
#[verifier::external_body]
pub struct ExFxBuildHasher(rustc_hash::FxBuildHasher);

/// A rank table: byte sequences and their merge ranks.
pub type RankTable = FxHashMap<Vec<u8>, usize>;

/// A special-token table: token texts and their reserved ids.
pub type TokenTable = FxHashMap<String, usize>;

/// What a rank table holds: each byte sequence with its rank.
pub uninterp spec fn rank_entries(m: RankTable) -> Map<Seq<u8>, usize>;

/// What a special-token table holds: each token text with its id.
pub uninterp spec fn token_entries(m: TokenTable) -> Map<Seq<char>, usize>;

/// Relies on `HashMap::default` (with rustc_hash's `FxBuildHasher`): a new map has no keys.
#[verifier::external_body]
pub(crate) fn new_rank_table() -> (r: RankTable)
    ensures
        rank_entries(r).dom() == Set::<Seq<u8>>::empty(),
{
    FxHashMap::default()
}

/// Relies on `HashMap::insert`: afterwards `key` maps to `rank`, and every
/// other key keeps its value.
#[verifier::external_body]
pub(crate) fn insert_rank(m: &mut RankTable, key: Vec<u8>, rank: usize)
    ensures
        rank_entries(*final(m)) == rank_entries(*old(m)).insert(key@, rank),
{
    m.insert(key, rank);
}

/// Relies on `HashMap::default` (with rustc_hash's `FxBuildHasher`): a new map has no keys.
#[verifier::external_body]
pub(crate) fn new_token_table() -> (r: TokenTable)
    ensures
        token_entries(r).dom() == Set::<Seq<char>>::empty(),
{
    FxHashMap::default()
}

/// Relies on `HashMap::insert`: afterwards `token` maps to `id`, and every
/// other key keeps its value.
#[verifier::external_body]
pub(crate) fn insert_token(m: &mut TokenTable, token: String, id: usize)
    ensures
        token_entries(*final(m)) == token_entries(*old(m)).insert(token@, id),
{
    m.insert(token, id);
}

} // verus!
