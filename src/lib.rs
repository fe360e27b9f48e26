//! Vocabulary ingestion for a family of byte-level BPE tokenizers: the
//! data-gym byte remapping, the two vocabulary file parsers, and the fixed
//! per-model configuration.

mod compact;
mod data_gym;
mod error;
mod legacy;
mod profiles;
mod tables;
mod text;

pub use compact::{
    base64_standard_decode, bytes_view, compact_entry, compact_line, compact_ranks, compact_scan,
    decimal_rank, digits_value, is_digit, load_tiktoken_bpe, parse_rank, rank_digits, rank_entry,
};
pub use data_gym::{
    data_gym_byte, data_gym_char, data_gym_code_points, is_printable_byte, lemma_data_gym_round_trip,
    lemma_data_gym_size, DATA_GYM_LIMIT,
};
pub use error::VocabError;
pub use legacy::{
    data_gym_to_mergeable_bpe_ranks, decode_data_gym, legacy_merge, legacy_ranks, legacy_scan,
    single_byte_ranks,
};
pub use profiles::{
    cl100k_base, gpt2, lemma_edit_profile_extends_base, lemma_special_token_counts, loaded_as,
    p50k_base, p50k_edit, profile_pattern, profile_ranks, profile_special_tokens, r50k_base,
    ModelKind, ModelProfile, CL100K_PATTERN, ENDOFPROMPT, ENDOFTEXT, FIM_MIDDLE, FIM_PREFIX,
    FIM_SUFFIX, LEGACY_PATTERN,
};
pub use tables::{rank_entries, token_entries, RankTable, TokenTable};
pub use text::{chars_of, index_of, lines, split_lines};
