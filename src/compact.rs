//! The compact vocabulary format: one `<base64> <decimal rank>` pair per
//! non-empty line.

use crate::error::VocabError;
use crate::tables::{insert_rank, new_rank_table, rank_entries, RankTable};
use crate::text::{chars_of, copy_range, find_from, index_of, lines, split_lines};
use base64::{prelude::BASE64_STANDARD, Engine};
use vstd::prelude::*;

verus! {

/// The bytes that `s` encodes in standard base64, or `None` if it is not
/// valid standard base64.
pub uninterp spec fn base64_standard_decode(s: Seq<char>) -> Option<Seq<u8>>;

/// The bytes of an optional byte vector.
pub open spec fn bytes_view(v: Option<Vec<u8>>) -> Option<Seq<u8>> {
    match v {
        Some(b) => Some(b@),
        None => None,
    }
}

/// Relies on base64's `Engine::decode` with the `STANDARD` engine: the bytes
/// that the text encodes, or an error, depending on the text alone.
#[verifier::external_body]
fn decode_base64(field: &Vec<char>) -> (r: Option<Vec<u8>>)
    ensures
        bytes_view(r) == base64_standard_decode(field@),
{
    let text: String = field.iter().collect();
    BASE64_STANDARD.decode(text).ok()
}

/// A decimal digit.
pub open spec fn is_digit(c: char) -> bool {
    '0' <= c <= '9'
}

/// The value of a string of decimal digits.
pub open spec fn digits_value(s: Seq<char>) -> nat
    decreases s.len(),
{
    if s.len() == 0 {
        0
    } else {
        digits_value(s.drop_last()) * 10 + ((s.last() as int) - ('0' as int)) as nat
    }
}

/// The digits of a rank field: the field without one leading `+`.
pub open spec fn rank_digits(s: Seq<char>) -> Seq<char> {
    if s.len() > 0 && s[0] == '+' {
        s.drop_first()
    } else {
        s
    }
}

/// A rank field read as an unsigned decimal number: an optional `+`, then at
/// least one digit and nothing else, with a value that fits in `usize`.
pub open spec fn decimal_rank(s: Seq<char>) -> Option<usize> {
    let d = rank_digits(s);
    if d.len() > 0 && (forall|i: int| 0 <= i < d.len() ==> is_digit(#[trigger] d[i]))
        && digits_value(d) <= usize::MAX {
        Some(digits_value(d) as usize)
    } else {
        None
    }
}

/// What a compact line holds once its key field has been decoded.
pub open spec fn compact_entry(key: Option<Seq<u8>>, rank_field: Seq<char>) -> Result<
    (Seq<u8>, usize),
    VocabError,
> {
    match key {
        None => Err(VocabError::InvalidBase64),
        Some(k) => match decimal_rank(rank_field) {
            None => Err(VocabError::InvalidRankInteger),
            Some(v) => Ok((k, v)),
        },
    }
}

/// The byte sequence and rank that a non-empty compact line gives.
pub open spec fn compact_line(line: Seq<char>) -> Result<(Seq<u8>, usize), VocabError> {
    match index_of(line, ' ') {
        None => Err(VocabError::MissingSeparator),
        Some(k) => compact_entry(base64_standard_decode(line.take(k)), line.skip(k + 1)),
    }
}

/// Goes on from line `i` with the table `ranks`, passing over empty lines
/// and stopping at the first faulty one.
pub open spec fn compact_scan(ls: Seq<Seq<char>>, ranks: Map<Seq<u8>, usize>, i: int) -> Result<
    Map<Seq<u8>, usize>,
    VocabError,
>
    decreases ls.len() - i,
{
    if i >= ls.len() {
        Ok(ranks)
    } else if ls[i].len() == 0 {
        compact_scan(ls, ranks, i + 1)
    } else {
        match compact_line(ls[i]) {
            Err(e) => Err(e),
            Ok((key, rank)) => compact_scan(ls, ranks.insert(key, rank), i + 1),
        }
    }
}

/// The rank table of a compact vocabulary file.
pub open spec fn compact_ranks(text: Seq<char>) -> Result<Map<Seq<u8>, usize>, VocabError> {
    compact_scan(lines(text), Map::empty(), 0)
}

/// Reads a rank field as an unsigned decimal number.
pub fn parse_rank(field: &Vec<char>) -> (r: Option<usize>)
    ensures
        r == decimal_rank(field@),
{
    let n: usize = field.len();
    let mut start: usize = 0;
    if n > 0 && field[0] == '+' {
        start = 1;
    }
    let ghost d = rank_digits(field@);
    proof {
        assert(d =~= field@.subrange(start as int, n as int));
    }
    if start == n {
        return None;
    }
    let mut i: usize = start;
    let mut acc: usize = 0;
    let mut overflow = false;
    proof {
        assert(field@.subrange(start as int, i as int) =~= Seq::<char>::empty());
    }
    while i < n
        invariant
            n == field@.len(),
            start <= i <= n,
            d == field@.subrange(start as int, n as int),
            d == rank_digits(field@),
            forall|j: int| start <= j < i ==> is_digit(#[trigger] field@[j]),
            !overflow ==> acc == digits_value(field@.subrange(start as int, i as int)),
            overflow ==> digits_value(field@.subrange(start as int, i as int)) > usize::MAX,
        decreases n - i,
    {
        let c = field[i];
        if !('0' <= c && c <= '9') {
            proof {
                assert(!is_digit(d[i - start]));
            }
            return None;
        }
        let digit = (c as u32 - '0' as u32) as usize;
        let ghost prev = field@.subrange(start as int, i as int);
        proof {
            assert(field@.subrange(start as int, i + 1).drop_last() =~= prev);
        }
        if !overflow {
            match acc.checked_mul(10) {
                Some(x) => match x.checked_add(digit) {
                    Some(y) => {
                        acc = y;
                    },
                    None => {
                        overflow = true;
                    },
                },
                None => {
                    overflow = true;
                },
            }
        }
        i = i + 1;
    }
    proof {
        assert(field@.subrange(start as int, n as int) == d);
    }
    if overflow {
        None
    } else {
        Some(acc)
    }
}

/// Finishes a compact line whose key field has been decoded (`None` where
/// it was not valid base64): the key and the rank read from `rank_field`.
pub fn rank_entry(key: Option<Vec<u8>>, rank_field: &Vec<char>) -> (r: Result<(Vec<u8>, usize), VocabError>)
    ensures
        match r {
            Ok((k, v)) => compact_entry(bytes_view(key), rank_field@) == Ok::<_, VocabError>((k@, v)),
            Err(e) => compact_entry(bytes_view(key), rank_field@) == Err::<(Seq<u8>, usize), _>(e),
        },
{
    match key {
        None => Err(VocabError::InvalidBase64),
        Some(k) => match parse_rank(rank_field) {
            None => Err(VocabError::InvalidRankInteger),
            Some(v) => Ok((k, v)),
        },
    }
}

/// Reads a compact vocabulary file into its rank table. Empty lines are
/// passed over; the first faulty line fails the whole file.
pub fn load_tiktoken_bpe(tiktoken_bpe: &str) -> (r: Result<RankTable, VocabError>)
    ensures
        match r {
            Ok(m) => compact_ranks(tiktoken_bpe@) == Ok::<_, VocabError>(rank_entries(m)),
            Err(e) => compact_ranks(tiktoken_bpe@) == Err::<Map<Seq<u8>, usize>, _>(e),
        },
{
    let mut ranks = new_rank_table();
    proof {
        assert(rank_entries(ranks) =~= Map::empty());
    }
    let chars = chars_of(tiktoken_bpe);
    let ls = split_lines(&chars);
    let ghost lsv = lines(tiktoken_bpe@);
    let mut i: usize = 0;
    while i < ls.len()
        invariant
            i <= ls@.len(),
            ls@.len() == lsv.len(),
            forall|j: int| 0 <= j < ls@.len() ==> #[trigger] ls@[j]@ == lsv[j],
            compact_scan(lsv, rank_entries(ranks), i as int) == compact_ranks(tiktoken_bpe@),
        decreases ls@.len() - i,
    {
        let line = &ls[i];
        proof {
            assert(line@ == lsv[i as int]);
            assert(line@.skip(0) =~= line@);
        }
        if line.len() > 0 {
            match find_from(line, ' ', 0) {
                None => {
                    return Err(VocabError::MissingSeparator);
                },
                Some(k) => {
                    let field = copy_range(line, 0, k);
                    let rank_field = copy_range(line, k + 1, line.len());
                    proof {
                        assert(field@ =~= line@.take(k as int));
                        assert(rank_field@ =~= line@.skip(k + 1));
                    }
                    let decoded = decode_base64(&field);
                    match rank_entry(decoded, &rank_field) {
                        Err(e) => {
                            return Err(e);
                        },
                        Ok((key, rank)) => {
                            insert_rank(&mut ranks, key, rank);
                        },
                    }
                },
            }
        }
        i = i + 1;
    }
    Ok(ranks)
}

} // verus!
