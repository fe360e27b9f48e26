//! The data-gym byte remapping: a bijection between the 256 byte values and
//! 256 code points, used by the legacy vocabulary format to store raw bytes
//! as printable text.

use vstd::prelude::*;
use vstd::set_lib::*;

verus! {

/// Code points below this bound are the only ones the remapping can use.
pub const DATA_GYM_LIMIT: usize = 324;

/// A byte whose own code point is printable and is therefore used unchanged.
pub open spec fn is_printable_byte(b: int) -> bool {
    (33 <= b <= 126) || (161 <= b <= 172) || (174 <= b <= 255)
}

/// The code point that stands for byte `b`. Printable bytes stand for
/// themselves; the others get `256 + n`, `n` counting them in the order
/// `0..=32`, then `127..=160`, then `173`.
pub open spec fn data_gym_char(b: u8) -> int {
    if is_printable_byte(b as int) {
        b as int
    } else if b <= 32 {
        256 + b
    } else if 127 <= b <= 160 {
        256 + 33 + (b - 127)
    } else {
        256int + 67
    }
}

/// The byte that code point `cp` stands for, if it stands for one.
pub open spec fn data_gym_byte(cp: int) -> Option<u8> {
    if is_printable_byte(cp) {
        Some(cp as u8)
    } else if 256 <= cp < 256 + 33 {
        Some((cp - 256) as u8)
    } else if 256 + 33 <= cp < 256 + 67 {
        Some((cp - 256 - 33 + 127) as u8)
    } else if cp == 256 + 67 {
        Some(173u8)
    } else {
        None
    }
}

/// The code points that stand for a byte.
pub open spec fn data_gym_code_points() -> Set<int> {
    Set::new(|cp: int| data_gym_byte(cp) is Some)
}

/// Decoding the code point assigned to a byte gives the byte back, and a
/// code point that decodes to a byte is the one assigned to it: the
/// remapping is a bijection.
pub proof fn lemma_data_gym_round_trip(b: u8, cp: int)
    ensures
        data_gym_byte(data_gym_char(b)) == Some(b),
        data_gym_byte(cp) == Some(b) ==> cp == data_gym_char(b),
{
}

/// The remapping has exactly 256 entries.
pub proof fn lemma_data_gym_size()
    ensures
        data_gym_code_points().finite(),
        data_gym_code_points().len() == 256,
{
    let a = set_int_range(33, 127);
    let b = set_int_range(161, 173);
    let c = set_int_range(174, 256);
    let d = set_int_range(256, 324);
    lemma_int_range(33, 127);
    lemma_int_range(161, 173);
    lemma_int_range(174, 256);
    lemma_int_range(256, 324);
    lemma_set_disjoint_lens(a, b);
    lemma_set_disjoint_lens(a + b, c);
    lemma_set_disjoint_lens(a + b + c, d);
    assert(data_gym_code_points() =~= a + b + c + d);
}

/// The code-point-to-byte direction of the remapping, as a lookup table.
pub(crate) struct DataGymTable {
    byte_of: Vec<Option<u8>>,
}

impl DataGymTable {
    pub(crate) closed spec fn wf(&self) -> bool {
        &&& self.byte_of@.len() == DATA_GYM_LIMIT
        &&& forall|cp: int| 0 <= cp < DATA_GYM_LIMIT ==> #[trigger] self.byte_of@[cp] == data_gym_byte(cp)
    }

    /// Builds the table in the order that fixes its placeholder code points:
    /// the printable ranges first, then a running counter over `0..=32`,
    /// `127..=160` and `173`.
    pub(crate) fn new() -> (t: Self)
        ensures
            t.wf(),
    {
        let mut byte_of: Vec<Option<u8>> = Vec::new();
        while byte_of.len() < DATA_GYM_LIMIT
            invariant
                byte_of@.len() <= DATA_GYM_LIMIT,
                forall|cp: int| 0 <= cp < byte_of@.len() ==> #[trigger] byte_of@[cp] is None,
            decreases DATA_GYM_LIMIT - byte_of@.len(),
        {
            byte_of.push(None);
        }
        let mut cp: u16 = 33;
        while cp <= 126
            invariant
                33 <= cp <= 127,
                byte_of@.len() == DATA_GYM_LIMIT,
                forall|c: int|
                    0 <= c < DATA_GYM_LIMIT ==> #[trigger] byte_of@[c] == if 33 <= c < cp {
                        data_gym_byte(c)
                    } else {
                        None
                    },
            decreases 127 - cp,
        {
            byte_of.set(cp as usize, Some(cp as u8));
            cp = cp + 1;
        }
        cp = 161;
        while cp <= 172
            invariant
                161 <= cp <= 173,
                byte_of@.len() == DATA_GYM_LIMIT,
                forall|c: int|
                    0 <= c < DATA_GYM_LIMIT ==> #[trigger] byte_of@[c] == if 33 <= c <= 126 || 161
                        <= c < cp {
                        data_gym_byte(c)
                    } else {
                        None
                    },
            decreases 173 - cp,
        {
            byte_of.set(cp as usize, Some(cp as u8));
            cp = cp + 1;
        }
        cp = 174;
        while cp <= 255
            invariant
                174 <= cp <= 256,
                byte_of@.len() == DATA_GYM_LIMIT,
                forall|c: int|
                    0 <= c < DATA_GYM_LIMIT ==> #[trigger] byte_of@[c] == if is_printable_byte(c)
                        && c < cp {
                        data_gym_byte(c)
                    } else {
                        None
                    },
            decreases 256 - cp,
        {
            byte_of.set(cp as usize, Some(cp as u8));
            cp = cp + 1;
        }
        let mut n: u16 = 0;
        let mut b: u16 = 0;
        while b <= 32
            invariant
                0 <= b <= 33,
                n == b,
                byte_of@.len() == DATA_GYM_LIMIT,
                forall|c: int|
                    0 <= c < DATA_GYM_LIMIT ==> #[trigger] byte_of@[c] == if is_printable_byte(c)
                        || (256 <= c < 256 + n) {
                        data_gym_byte(c)
                    } else {
                        None
                    },
            decreases 33 - b,
        {
            byte_of.set((256 + n) as usize, Some(b as u8));
            n = n + 1;
            b = b + 1;
        }
        b = 127;
        while b <= 160
            invariant
                127 <= b <= 161,
                n == b - 127 + 33,
                byte_of@.len() == DATA_GYM_LIMIT,
                forall|c: int|
                    0 <= c < DATA_GYM_LIMIT ==> #[trigger] byte_of@[c] == if is_printable_byte(c)
                        || (256 <= c < 256 + n) {
                        data_gym_byte(c)
                    } else {
                        None
                    },
            decreases 161 - b,
        {
            byte_of.set((256 + n) as usize, Some(b as u8));
            n = n + 1;
            b = b + 1;
        }
        byte_of.set((256 + n) as usize, Some(173u8));
        DataGymTable { byte_of }
    }

    /// The byte that `c` stands for, if any.
    pub(crate) fn byte_for(&self, c: char) -> (r: Option<u8>)
        requires
            self.wf(),
        ensures
            r == data_gym_byte(c as int),
    {
        let cp = c as u32;
        if cp < DATA_GYM_LIMIT as u32 {
            self.byte_of[cp as usize]
        } else {
            None
        }
    }
}

} // verus!
