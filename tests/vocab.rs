use bpe_vocab::{
    chars_of, cl100k_base, data_gym_to_mergeable_bpe_ranks, gpt2, load_tiktoken_bpe, p50k_base,
    p50k_edit, parse_rank, r50k_base, rank_entry, split_lines, VocabError, CL100K_PATTERN,
    ENDOFPROMPT, ENDOFTEXT, FIM_MIDDLE, FIM_PREFIX, FIM_SUFFIX, LEGACY_PATTERN,
};

fn chars(s: &str) -> Vec<char> {
    s.chars().collect()
}

#[test]
fn legacy_single_bytes_rank_as_their_value() {
    let ranks = data_gym_to_mergeable_bpe_ranks("#version: 0.2\n\n").unwrap();
    assert_eq!(ranks.len(), 256);
    for b in 0..=255u8 {
        assert_eq!(ranks.get(&vec![b]), Some(&(b as usize)));
    }
}

#[test]
fn legacy_placeholder_code_points_decode_to_their_bytes() {
    // U+0120 stands for the space byte, U+0100 for 0, U+0121 for 127,
    // U+0142 for 160 and U+0143 for 173.
    let text = "#h\n\u{120}t \u{100}\u{121}\n\u{142} \u{143}\n\n";
    let ranks = data_gym_to_mergeable_bpe_ranks(text).unwrap();
    assert_eq!(ranks.get(&vec![32u8, 116, 0, 127]), Some(&256));
    assert_eq!(ranks.get(&vec![160u8, 173]), Some(&257));
}

#[test]
fn legacy_printable_code_points_stand_for_themselves() {
    let text = "#h\n\u{a1}\u{ac} \u{ae}\u{ff}\n\n";
    let ranks = data_gym_to_mergeable_bpe_ranks(text).unwrap();
    assert_eq!(ranks.get(&vec![0xa1u8, 0xac, 0xae, 0xff]), Some(&256));
}

#[test]
fn legacy_minimal_fixture() {
    let text = "#version: 0.2\n\u{120} t\nh e\n\n";
    let ranks = data_gym_to_mergeable_bpe_ranks(text).unwrap();
    assert_eq!(ranks.len(), 258);
    assert_eq!(ranks.get(&vec![32u8, 116]), Some(&256));
    assert_eq!(ranks.get(&vec![104u8, 101]), Some(&257));
}

#[test]
fn legacy_undecodable_second_line_fails() {
    let text = "#version: 0.2\nh e\nx \u{7}\n\n";
    assert_eq!(data_gym_to_mergeable_bpe_ranks(text).err(), Some(VocabError::UndecodableCodePoint));
    let soft_hyphen = "#version: 0.2\nh e\n\u{ad} x\n\n";
    assert_eq!(
        data_gym_to_mergeable_bpe_ranks(soft_hyphen).err(),
        Some(VocabError::UndecodableCodePoint)
    );
}

#[test]
fn legacy_missing_separator_fails() {
    let text = "#version: 0.2\nh e\nhe\n\n";
    assert_eq!(data_gym_to_mergeable_bpe_ranks(text).err(), Some(VocabError::MissingSeparator));
}

#[test]
fn legacy_stops_at_first_empty_line() {
    let text = "#version: 0.2\nh e\n\nnot a merge\x07\n";
    let ranks = data_gym_to_mergeable_bpe_ranks(text).unwrap();
    assert_eq!(ranks.len(), 257);
    assert_eq!(ranks.get(&vec![104u8, 101]), Some(&256));
}

#[test]
fn legacy_header_only_without_newline() {
    let ranks = data_gym_to_mergeable_bpe_ranks("#version: 0.2").unwrap();
    assert_eq!(ranks.len(), 256);
}

#[test]
fn compact_minimal_fixture() {
    let ranks = load_tiktoken_bpe("QQ== 0\nQg== 1\n").unwrap();
    assert_eq!(ranks.len(), 2);
    assert_eq!(ranks.get(&vec![0x41u8]), Some(&0));
    assert_eq!(ranks.get(&vec![0x42u8]), Some(&1));
}

#[test]
fn compact_non_integer_rank_fails() {
    assert_eq!(load_tiktoken_bpe("QQ== zero\n").err(), Some(VocabError::InvalidRankInteger));
    assert_eq!(load_tiktoken_bpe("QQ== 0\nQg== 1x\n").err(), Some(VocabError::InvalidRankInteger));
    assert_eq!(load_tiktoken_bpe("QQ== 0\nQg== 1.5\nQw== 2\n").err(), Some(VocabError::InvalidRankInteger));
}

#[test]
fn compact_invalid_base64_fails() {
    assert_eq!(load_tiktoken_bpe("QQ== 0\nQ!== 1\n").err(), Some(VocabError::InvalidBase64));
}

#[test]
fn compact_missing_separator_fails() {
    assert_eq!(load_tiktoken_bpe("QQ== 0\nQg==1\n").err(), Some(VocabError::MissingSeparator));
}

#[test]
fn compact_empty_text_gives_empty_table() {
    assert_eq!(load_tiktoken_bpe("").unwrap().len(), 0);
}

#[test]
fn compact_passes_over_empty_lines() {
    let ranks = load_tiktoken_bpe("aGk= 7\n\nYnll +8").unwrap();
    assert_eq!(ranks.len(), 2);
    assert_eq!(ranks.get(&b"hi".to_vec()), Some(&7));
    assert_eq!(ranks.get(&b"bye".to_vec()), Some(&8));
}

#[test]
fn parse_rank_reads_decimal() {
    assert_eq!(parse_rank(&chars("42")), Some(42));
    assert_eq!(parse_rank(&chars("+7")), Some(7));
    assert_eq!(parse_rank(&chars("007")), Some(7));
    assert_eq!(parse_rank(&chars("")), None);
    assert_eq!(parse_rank(&chars("+")), None);
    assert_eq!(parse_rank(&chars("-1")), None);
    assert_eq!(parse_rank(&chars("1 ")), None);
    assert_eq!(parse_rank(&chars(&usize::MAX.to_string())), Some(usize::MAX));
    let too_big = format!("{}0", usize::MAX);
    assert_eq!(parse_rank(&chars(&too_big)), None);
}

#[test]
fn rank_entry_reports_each_fault() {
    assert_eq!(rank_entry(None, &chars("1")), Err(VocabError::InvalidBase64));
    assert_eq!(rank_entry(Some(vec![1]), &chars("x")), Err(VocabError::InvalidRankInteger));
    assert_eq!(rank_entry(Some(vec![1, 2]), &chars("5")), Ok((vec![1, 2], 5)));
}

#[test]
fn split_lines_keeps_trailing_empty_line() {
    let lines = split_lines(&chars_of("a\n\nbc\n"));
    assert_eq!(lines, vec![chars("a"), chars(""), chars("bc"), chars("")]);
    assert_eq!(split_lines(&chars_of("")), vec![chars("")]);
}

#[test]
fn gpt2_profile() {
    let p = gpt2("#version: 0.2\nh e\n\n".to_string()).unwrap();
    assert_eq!(p.mergeable_ranks.len(), 257);
    assert_eq!(p.special_tokens.len(), 1);
    assert_eq!(p.special_tokens.get(ENDOFTEXT), Some(&50256));
    assert_eq!(p.pattern, LEGACY_PATTERN);
    assert_eq!(gpt2("#v\nhe\n\n".to_string()).err(), Some(VocabError::MissingSeparator));
}

#[test]
fn base_profiles_share_the_legacy_pattern() {
    for load in [r50k_base, p50k_base] {
        let p = load("QQ== 0\n".to_string()).unwrap();
        assert_eq!(p.mergeable_ranks.get(&vec![0x41u8]), Some(&0));
        assert_eq!(p.special_tokens.len(), 1);
        assert_eq!(p.special_tokens.get(ENDOFTEXT), Some(&50256));
        assert_eq!(p.pattern, LEGACY_PATTERN);
    }
}

#[test]
fn edit_profile_extends_base_profile() {
    let text = "QQ== 0\nQg== 1\n";
    let base = p50k_base(text.to_string()).unwrap();
    let edit = p50k_edit(text.to_string()).unwrap();
    assert_eq!(base.mergeable_ranks, edit.mergeable_ranks);
    assert_eq!(edit.special_tokens.len(), base.special_tokens.len() + 3);
    for (token, id) in base.special_tokens.iter() {
        assert_eq!(edit.special_tokens.get(token), Some(id));
    }
    assert_eq!(edit.special_tokens.get(FIM_PREFIX), Some(&50281));
    assert_eq!(edit.special_tokens.get(FIM_MIDDLE), Some(&50282));
    assert_eq!(edit.special_tokens.get(FIM_SUFFIX), Some(&50283));
    assert_eq!(p50k_edit("QQ== x".to_string()).err(), p50k_base("QQ== x".to_string()).err());
}

#[test]
fn cl100k_profile_special_tokens() {
    let p = cl100k_base("QQ== 0\n".to_string()).unwrap();
    assert_eq!(p.special_tokens.len(), 5);
    assert_eq!(p.special_tokens.get(ENDOFTEXT), Some(&50257));
    assert_eq!(p.special_tokens.get(FIM_PREFIX), Some(&50258));
    assert_eq!(p.special_tokens.get(FIM_MIDDLE), Some(&50259));
    assert_eq!(p.special_tokens.get(FIM_SUFFIX), Some(&50260));
    assert_eq!(p.special_tokens.get(ENDOFPROMPT), Some(&50276));
    assert_eq!(p.pattern, CL100K_PATTERN);
    let edit = p50k_edit("QQ== 0\n".to_string()).unwrap();
    assert_eq!(edit.special_tokens.len(), 4);
}
