//! The named model profiles: which vocabulary format each reads, its
//! reserved special tokens, and the pattern that splits text before merging.

use crate::compact::{compact_ranks, load_tiktoken_bpe};
use crate::error::VocabError;
use crate::legacy::{data_gym_to_mergeable_bpe_ranks, legacy_ranks};
use crate::tables::{insert_token, new_token_table, rank_entries, token_entries, RankTable, TokenTable};
use vstd::prelude::*;

verus! {

pub const ENDOFTEXT: &'static str = "<|endoftext|>";

pub const FIM_PREFIX: &'static str = "<|fim_prefix|>";

pub const FIM_MIDDLE: &'static str = "<|fim_middle|>";

pub const FIM_SUFFIX: &'static str = "<|fim_suffix|>";

pub const ENDOFPROMPT: &'static str = "<|endofprompt|>";

/// The splitting pattern of the older profiles.
pub const LEGACY_PATTERN: &'static str = "'s|'t|'re|'ve|'m|'ll|'d| ?\\p{L}+| ?\\p{N}+| ?[^\\s\\p{L}\\p{N}]+|\\s+(?!\\S)|\\s+";

/// The splitting pattern of the newest profile.
pub const CL100K_PATTERN: &'static str = "(?i:'s|'t|'re|'ve|'m|'ll|'d)|[^\r\n\\p{L}\\p{N}]?\\p{L}+|\\p{N}{1,3}| ?[^\\s\\p{L}\\p{N}]+[\r\n]*|\\s*[\r\n]+|\\s+(?!\\S)|\\s+";

/// The named model profiles.
#[derive(Debug, Clone, Copy, PartialEq, Eq, Structural)]
pub enum ModelKind {
    Gpt2,
    R50kBase,
    P50kBase,
    P50kEdit,
    Cl100kBase,
}

/// What a tokenizer engine is built from: the rank table, the special
/// tokens, and the splitting pattern.
pub struct ModelProfile {
    pub mergeable_ranks: RankTable,
    pub special_tokens: TokenTable,
    pub pattern: String,
}

/// The rank table that a profile reads from its vocabulary text: the legacy
/// format for `Gpt2`, the compact format for the others.
pub open spec fn profile_ranks(kind: ModelKind, text: Seq<char>) -> Result<
    Map<Seq<u8>, usize>,
    VocabError,
> {
    if kind is Gpt2 {
        legacy_ranks(text)
    } else {
        compact_ranks(text)
    }
}

/// The special tokens of a profile, with their ids.
pub open spec fn profile_special_tokens(kind: ModelKind) -> Map<Seq<char>, usize> {
    match kind {
        ModelKind::P50kEdit => map![
            ENDOFTEXT@ => 50256usize,
            FIM_PREFIX@ => 50281usize,
            FIM_MIDDLE@ => 50282usize,
            FIM_SUFFIX@ => 50283usize,
        ],
        ModelKind::Cl100kBase => map![
            ENDOFTEXT@ => 50257usize,
            FIM_PREFIX@ => 50258usize,
            FIM_MIDDLE@ => 50259usize,
            FIM_SUFFIX@ => 50260usize,
            ENDOFPROMPT@ => 50276usize,
        ],
        _ => map![ENDOFTEXT@ => 50256usize],
    }
}

/// The splitting pattern of a profile.
pub open spec fn profile_pattern(kind: ModelKind) -> Seq<char> {
    if kind is Cl100kBase {
        CL100K_PATTERN@
    } else {
        LEGACY_PATTERN@
    }
}

/// `r` is what loading `text` as profile `kind` gives: the profile's parts,
/// or the fault of its vocabulary text.
pub open spec fn loaded_as(kind: ModelKind, text: Seq<char>, r: Result<ModelProfile, VocabError>) -> bool {
    match r {
        Ok(p) => {
            &&& profile_ranks(kind, text) == Ok::<_, VocabError>(rank_entries(p.mergeable_ranks))
            &&& token_entries(p.special_tokens) == profile_special_tokens(kind)
            &&& p.pattern@ == profile_pattern(kind)
        },
        Err(e) => profile_ranks(kind, text) == Err::<Map<Seq<u8>, usize>, _>(e),
    }
}

/// Loading one text as the edit profile and as the base profile it shares
/// its vocabulary with gives the same rank table (or the same fault), and
/// special-token tables that differ by exactly three entries: the edit
/// profile keeps every base token with its id and adds three more.
pub proof fn lemma_edit_profile_extends_base(text: Seq<char>)
    ensures
        profile_ranks(ModelKind::P50kEdit, text) == profile_ranks(ModelKind::P50kBase, text),
        profile_special_tokens(ModelKind::P50kBase).submap_of(
            profile_special_tokens(ModelKind::P50kEdit),
        ),
        profile_special_tokens(ModelKind::P50kEdit).dom().difference(
            profile_special_tokens(ModelKind::P50kBase).dom(),
        ).len() == 3,
{
    reveal_strlit("<|endoftext|>");
    reveal_strlit("<|fim_prefix|>");
    reveal_strlit("<|fim_middle|>");
    reveal_strlit("<|fim_suffix|>");
    let base = profile_special_tokens(ModelKind::P50kBase);
    let edit = profile_special_tokens(ModelKind::P50kEdit);
    assert(ENDOFTEXT@ != FIM_PREFIX@ && ENDOFTEXT@ != FIM_MIDDLE@ && ENDOFTEXT@ != FIM_SUFFIX@) by {
        assert(ENDOFTEXT@.len() != FIM_PREFIX@.len());
        assert(ENDOFTEXT@.len() != FIM_MIDDLE@.len());
        assert(ENDOFTEXT@.len() != FIM_SUFFIX@.len());
    }
    assert(FIM_PREFIX@ != FIM_MIDDLE@ && FIM_PREFIX@ != FIM_SUFFIX@ && FIM_MIDDLE@ != FIM_SUFFIX@) by {
        assert(FIM_PREFIX@[6] != FIM_MIDDLE@[6]);
        assert(FIM_PREFIX@[6] != FIM_SUFFIX@[6]);
        assert(FIM_MIDDLE@[6] != FIM_SUFFIX@[6]);
    }
    let added = set![FIM_PREFIX@, FIM_MIDDLE@, FIM_SUFFIX@];
    assert(edit.dom().difference(base.dom()) =~= added);
    assert(added.len() == 3);
}

/// The newest profile reserves exactly five special tokens and the edit
/// profile exactly four, each with its fixed id.
pub proof fn lemma_special_token_counts()
    ensures
        profile_special_tokens(ModelKind::Cl100kBase).dom().len() == 5,
        profile_special_tokens(ModelKind::P50kEdit).dom().len() == 4,
{
    reveal_strlit("<|endoftext|>");
    reveal_strlit("<|fim_prefix|>");
    reveal_strlit("<|fim_middle|>");
    reveal_strlit("<|fim_suffix|>");
    reveal_strlit("<|endofprompt|>");
    assert(FIM_PREFIX@[6] != FIM_MIDDLE@[6]);
    assert(FIM_PREFIX@[6] != FIM_SUFFIX@[6]);
    assert(FIM_MIDDLE@[6] != FIM_SUFFIX@[6]);
    assert(ENDOFTEXT@.len() != FIM_PREFIX@.len());
    assert(ENDOFTEXT@.len() != FIM_MIDDLE@.len());
    assert(ENDOFTEXT@.len() != FIM_SUFFIX@.len());
    assert(ENDOFPROMPT@.len() != FIM_PREFIX@.len());
    assert(ENDOFPROMPT@.len() != FIM_MIDDLE@.len());
    assert(ENDOFPROMPT@.len() != FIM_SUFFIX@.len());
    assert(ENDOFPROMPT@.len() != ENDOFTEXT@.len());
    assert(set![ENDOFTEXT@, FIM_PREFIX@, FIM_MIDDLE@, FIM_SUFFIX@].len() == 4);
    assert(set![ENDOFTEXT@, FIM_PREFIX@, FIM_MIDDLE@, FIM_SUFFIX@, ENDOFPROMPT@].len() == 5);
    assert(profile_special_tokens(ModelKind::P50kEdit).dom() =~= set![ENDOFTEXT@, FIM_PREFIX@, FIM_MIDDLE@, FIM_SUFFIX@]);
    assert(profile_special_tokens(ModelKind::Cl100kBase).dom() =~= set![ENDOFTEXT@, FIM_PREFIX@, FIM_MIDDLE@, FIM_SUFFIX@, ENDOFPROMPT@]);
}

/// The special-token table of a profile.
fn special_tokens_for(kind: ModelKind) -> (r: TokenTable)
    ensures
        token_entries(r) == profile_special_tokens(kind),
{
    let mut tokens = new_token_table();
    proof {
        assert(token_entries(tokens) =~= Map::empty());
    }
    match kind {
        ModelKind::P50kEdit => {
            insert_token(&mut tokens, ENDOFTEXT.to_owned(), 50256);
            insert_token(&mut tokens, FIM_PREFIX.to_owned(), 50281);
            insert_token(&mut tokens, FIM_MIDDLE.to_owned(), 50282);
            insert_token(&mut tokens, FIM_SUFFIX.to_owned(), 50283);
        },
        ModelKind::Cl100kBase => {
            insert_token(&mut tokens, ENDOFTEXT.to_owned(), 50257);
            insert_token(&mut tokens, FIM_PREFIX.to_owned(), 50258);
            insert_token(&mut tokens, FIM_MIDDLE.to_owned(), 50259);
            insert_token(&mut tokens, FIM_SUFFIX.to_owned(), 50260);
            insert_token(&mut tokens, ENDOFPROMPT.to_owned(), 50276);
        },
        _ => {
            insert_token(&mut tokens, ENDOFTEXT.to_owned(), 50256);
        },
    }
    tokens
}

/// Loads `model_file` as profile `kind`.
fn load_profile(kind: ModelKind, model_file: &str) -> (r: Result<ModelProfile, VocabError>)
    requires
        kind is Gpt2 ==> model_file@.len() <= usize::MAX - 256,
    ensures
        loaded_as(kind, model_file@, r),
{
    let ranks = if let ModelKind::Gpt2 = kind {
        data_gym_to_mergeable_bpe_ranks(model_file)
    } else {
        load_tiktoken_bpe(model_file)
    };
    match ranks {
        Err(e) => Err(e),
        Ok(mergeable_ranks) => {
            let pattern = if let ModelKind::Cl100kBase = kind {
                CL100K_PATTERN.to_owned()
            } else {
                LEGACY_PATTERN.to_owned()
            };
            Ok(ModelProfile { mergeable_ranks, special_tokens: special_tokens_for(kind), pattern })
        },
    }
}

/// The GPT-2 profile, read from a legacy vocabulary file.
pub fn gpt2(model_file: String) -> (r: Result<ModelProfile, VocabError>)
    requires
        model_file@.len() <= usize::MAX - 256,
    ensures
        loaded_as(ModelKind::Gpt2, model_file@, r),
{
    load_profile(ModelKind::Gpt2, model_file.as_str())
}

/// The r50k_base profile, read from a compact vocabulary file.
pub fn r50k_base(model_file: String) -> (r: Result<ModelProfile, VocabError>)
    ensures
        loaded_as(ModelKind::R50kBase, model_file@, r),
{
    load_profile(ModelKind::R50kBase, model_file.as_str())
}

/// The p50k_base profile, read from a compact vocabulary file.
pub fn p50k_base(model_file: String) -> (r: Result<ModelProfile, VocabError>)
    ensures
        loaded_as(ModelKind::P50kBase, model_file@, r),
{
    load_profile(ModelKind::P50kBase, model_file.as_str())
}

/// The p50k_edit profile, read from a compact vocabulary file: the base
/// vocabulary with the fill-in-the-middle tokens added.
pub fn p50k_edit(model_file: String) -> (r: Result<ModelProfile, VocabError>)
    ensures
        loaded_as(ModelKind::P50kEdit, model_file@, r),
{
    load_profile(ModelKind::P50kEdit, model_file.as_str())
}

/// The cl100k_base profile, read from a compact vocabulary file.
pub fn cl100k_base(model_file: String) -> (r: Result<ModelProfile, VocabError>)
    ensures
        loaded_as(ModelKind::Cl100kBase, model_file@, r),
{
    load_profile(ModelKind::Cl100kBase, model_file.as_str())
}

} // verus!
