//! The legacy ("data-gym") vocabulary format: a header line, then merge
//! lines `<left> <right>` written in remapped code points, up to the first
//! empty line.

use crate::data_gym::{data_gym_byte, DataGymTable};
use crate::error::VocabError;
use crate::tables::{insert_rank, new_rank_table, rank_entries, RankTable};
use crate::text::{chars_of, find_from, index_of, lines, split_lines};
use vstd::prelude::*;

verus! {

/// The bytes that the code points of `s` stand for, or `None` if one of
/// them stands for none.
pub open spec fn decode_data_gym(s: Seq<char>) -> Option<Seq<u8>>
    decreases s.len(),
{
    if s.len() == 0 {
        Some(Seq::empty())
    } else {
        match (decode_data_gym(s.drop_last()), data_gym_byte(s.last() as int)) {
            (Some(prefix), Some(b)) => Some(prefix.push(b)),
            _ => None,
        }
    }
}

/// The byte sequence that a merge line adds: both halves around its first
/// space, decoded and joined.
pub open spec fn legacy_merge(line: Seq<char>) -> Result<Seq<u8>, VocabError> {
    match index_of(line, ' ') {
        None => Err(VocabError::MissingSeparator),
        Some(k) => match (decode_data_gym(line.take(k)), decode_data_gym(line.skip(k + 1))) {
            (Some(left), Some(right)) => Ok(left + right),
            _ => Err(VocabError::UndecodableCodePoint),
        },
    }
}

/// Every single byte, ranked by its own value.
pub open spec fn single_byte_ranks() -> Map<Seq<u8>, usize> {
    Map::new(|k: Seq<u8>| k.len() == 1, |k: Seq<u8>| k[0] as usize)
}

/// Goes on from line `i` with the table `ranks`: merge line `i` gets rank
/// `255 + i`, and the scan stops at the first empty line, the end of the
/// text, or the first faulty line.
pub open spec fn legacy_scan(ls: Seq<Seq<char>>, ranks: Map<Seq<u8>, usize>, i: int) -> Result<
    Map<Seq<u8>, usize>,
    VocabError,
>
    decreases ls.len() - i,
{
    if i >= ls.len() || ls[i].len() == 0 {
        Ok(ranks)
    } else {
        match legacy_merge(ls[i]) {
            Err(e) => Err(e),
            Ok(key) => legacy_scan(ls, ranks.insert(key, (255 + i) as usize), i + 1),
        }
    }
}

/// The rank table of a legacy vocabulary file: the single bytes, then the
/// merges after the header line.
pub open spec fn legacy_ranks(text: Seq<char>) -> Result<Map<Seq<u8>, usize>, VocabError> {
    legacy_scan(lines(text), single_byte_ranks(), 1)
}

/// Decodes `line[lo..hi]` onto the end of `out`; false if a code point
/// stands for no byte.
fn decode_segment(table: &DataGymTable, line: &Vec<char>, lo: usize, hi: usize, out: &mut Vec<u8>) -> (r: bool)
    requires
        table.wf(),
        lo <= hi <= line@.len(),
    ensures
        r == decode_data_gym(line@.subrange(lo as int, hi as int)) is Some,
        r ==> final(out)@ == old(out)@ + decode_data_gym(line@.subrange(lo as int, hi as int))->0,
{
    let mut i: usize = lo;
    proof {
        assert(line@.subrange(lo as int, lo as int) =~= Seq::<char>::empty());
        assert(out@ =~= old(out)@ + Seq::<u8>::empty());
    }
    while i < hi
        invariant
            table.wf(),
            lo <= i <= hi <= line@.len(),
            decode_data_gym(line@.subrange(lo as int, i as int)) is Some,
            out@ == old(out)@ + decode_data_gym(line@.subrange(lo as int, i as int))->0,
        decreases hi - i,
    {
        let ghost seg = line@.subrange(lo as int, i as int + 1);
        proof {
            assert(seg.drop_last() =~= line@.subrange(lo as int, i as int));
        }
        match table.byte_for(line[i]) {
            Some(b) => {
                out.push(b);
                i = i + 1;
                proof {
                    assert(out@ =~= old(out)@ + decode_data_gym(line@.subrange(lo as int, i as int))->0);
                }
            },
            None => {
                proof {
                    assert(decode_data_gym(seg) is None);
                    lemma_decode_none_extends(line@, lo as int, i as int + 1, hi as int);
                }
                return false;
            },
        }
    }
    true
}

/// A segment that cannot be decoded stays undecodable when extended.
proof fn lemma_decode_none_extends(s: Seq<char>, lo: int, mid: int, hi: int)
    requires
        0 <= lo <= mid <= hi <= s.len(),
        decode_data_gym(s.subrange(lo, mid)) is None,
    ensures
        decode_data_gym(s.subrange(lo, hi)) is None,
    decreases hi - mid,
{
    if mid < hi {
        lemma_decode_none_extends(s, lo, mid, hi - 1);
        assert(s.subrange(lo, hi).drop_last() =~= s.subrange(lo, hi - 1));
    }
}

/// Reads a legacy vocabulary file into its rank table. Fails with the fault
/// of the first faulty merge line; lines after the first empty one are not read.
pub fn data_gym_to_mergeable_bpe_ranks(vocab_bpe: &str) -> (r: Result<RankTable, VocabError>)
    requires
        vocab_bpe@.len() <= usize::MAX - 256,
    ensures
        match r {
            Ok(m) => legacy_ranks(vocab_bpe@) == Ok::<_, VocabError>(rank_entries(m)),
            Err(e) => legacy_ranks(vocab_bpe@) == Err::<Map<Seq<u8>, usize>, _>(e),
        },
{
    let table = DataGymTable::new();
    let mut ranks = new_rank_table();
    let mut b: u16 = 0;
    proof {
        assert(rank_entries(ranks) =~= Map::new(
            |k: Seq<u8>| k.len() == 1 && k[0] < b,
            |k: Seq<u8>| k[0] as usize,
        ));
    }
    while b < 256
        invariant
            b <= 256,
            rank_entries(ranks) == Map::new(
                |k: Seq<u8>| k.len() == 1 && k[0] < b,
                |k: Seq<u8>| k[0] as usize,
            ),
        decreases 256 - b,
    {
        let key = vec![b as u8];
        let ghost old_ranks = rank_entries(ranks);
        proof {
            assert(key@ =~= seq![b as u8]);
        }
        insert_rank(&mut ranks, key, b as usize);
        b = b + 1;
        proof {
            assert forall|k: Seq<u8>| k.len() == 1 && k[0] == b - 1 implies k == key@ by {
                assert(k =~= key@);
            }
            assert(rank_entries(ranks) =~= Map::new(
                |k: Seq<u8>| k.len() == 1 && k[0] < b,
                |k: Seq<u8>| k[0] as usize,
            ));
        }
    }
    proof {
        assert(rank_entries(ranks) =~= single_byte_ranks());
    }
    let chars = chars_of(vocab_bpe);
    let ls = split_lines(&chars);
    let ghost lsv = lines(vocab_bpe@);
    proof {
        assert(ls@.len() == lsv.len());
    }
    let mut i: usize = 1;
    while i < ls.len() && ls[i].len() > 0
        invariant
            1 <= i,
            table.wf(),
            ls@.len() == lsv.len(),
            ls@.len() <= vocab_bpe@.len() + 1,
            vocab_bpe@.len() <= usize::MAX - 256,
            forall|j: int| 0 <= j < ls@.len() ==> #[trigger] ls@[j]@ == lsv[j],
            legacy_scan(lsv, rank_entries(ranks), i as int) == legacy_ranks(vocab_bpe@),
        decreases ls@.len() - i,
    {
        let line = &ls[i];
        proof {
            assert(line@ == lsv[i as int]);
            assert(line@.skip(0) =~= line@);
        }
        match find_from(line, ' ', 0) {
            None => {
                return Err(VocabError::MissingSeparator);
            },
            Some(k) => {
                proof {
                    assert(line@.subrange(0, k as int) =~= line@.take(k as int));
                    assert(line@.subrange(k + 1, line@.len() as int) =~= line@.skip(k + 1));
                }
                let mut key: Vec<u8> = Vec::new();
                if !decode_segment(&table, line, 0, k, &mut key) {
                    return Err(VocabError::UndecodableCodePoint);
                }
                if !decode_segment(&table, line, k + 1, line.len(), &mut key) {
                    return Err(VocabError::UndecodableCodePoint);
                }
                proof {
                    assert(key@ =~= legacy_merge(line@)->Ok_0);
                }
                insert_rank(&mut ranks, key, 255 + i);
                i = i + 1;
            },
        }
    }
    Ok(ranks)
}

} // verus!
