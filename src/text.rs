//! Character-level text utilities shared by the vocabulary parsers.

use vstd::prelude::*;
use vstd::std_specs::iter::IteratorSpec;

verus! {

/// Index of the first occurrence of `c` in `s`, if any.
pub open spec fn index_of(s: Seq<char>, c: char) -> Option<int>
    decreases s.len(),
{
    if s.len() == 0 {
        None
    } else if s[0] == c {
        Some(0)
    } else {
        match index_of(s.drop_first(), c) {
            Some(k) => Some(k + 1),
            None => None,
        }
    }
}

/// `index_of` points at an occurrence of `c`, and no earlier one exists.
pub proof fn lemma_index_of(s: Seq<char>, c: char)
    ensures
        match index_of(s, c) {
            Some(k) => 0 <= k < s.len() && s[k] == c && forall|j: int| 0 <= j < k ==> s[j] != c,
            None => forall|j: int| 0 <= j < s.len() ==> s[j] != c,
        },
    decreases s.len(),
{
    if s.len() > 0 && s[0] != c {
        lemma_index_of(s.drop_first(), c);
        assert forall|j: int| 1 <= j < s.len() implies s[j] == s.drop_first()[j - 1] by {}
    }
}

/// The converse of `lemma_index_of`: a first occurrence is what `index_of` finds.
proof fn lemma_index_of_at(s: Seq<char>, c: char, k: int)
    requires
        0 <= k < s.len(),
        s[k] == c,
        forall|j: int| 0 <= j < k ==> s[j] != c,
    ensures
        index_of(s, c) == Some(k),
{
    lemma_index_of(s, c);
    match index_of(s, c) {
        Some(i) => {
            assert(!(i < k));
            assert(!(k < i));
        },
        None => {},
    }
}

/// The lines of `s`: the pieces between `'\n'` characters, so that `n`
/// newlines give `n + 1` lines and a trailing newline gives a final empty line.
pub open spec fn lines(s: Seq<char>) -> Seq<Seq<char>>
    decreases s.len(),
{
    match index_of(s, '\n') {
        Some(k) => if 0 <= k < s.len() {
            seq![s.take(k)] + lines(s.skip(k + 1))
        } else {
            seq![s]
        },
        None => seq![s],
    }
}

/// Every character of a string, in order.
pub fn chars_of(s: &str) -> (r: Vec<char>)
    ensures
        r@ == s@,
{
    let mut it = s.chars();
    let mut out: Vec<char> = Vec::new();
    proof {
        vstd::string::axiom_spec_iter(s);
    }
    loop
        invariant
            it.remaining() == s@.skip(out@.len() as int),
            out@ == s@.take(out@.len() as int),
            out@.len() <= s@.len(),
        decreases s@.len() - out@.len(),
    {
        match it.next() {
            Some(c) => {
                proof {
                    assert(s@.skip(out@.len() as int).len() > 0);
                }
                out.push(c);
                proof {
                    assert(out@ =~= s@.take(out@.len() as int));
                    assert(it.remaining() =~= s@.skip(out@.len() as int));
                }
            },
            None => {
                proof {
                    assert(out@ =~= s@);
                }
                return out;
            },
        }
    }
}

/// The characters of `v` from `lo` up to `hi`.
pub(crate) fn copy_range(v: &Vec<char>, lo: usize, hi: usize) -> (r: Vec<char>)
    requires
        lo <= hi <= v@.len(),
    ensures
        r@ == v@.subrange(lo as int, hi as int),
{
    let mut out: Vec<char> = Vec::new();
    let mut i: usize = lo;
    while i < hi
        invariant
            lo <= i <= hi <= v@.len(),
            out@ == v@.subrange(lo as int, i as int),
        decreases hi - i,
    {
        out.push(v[i]);
        i = i + 1;
        proof {
            assert(out@ =~= v@.subrange(lo as int, i as int));
        }
    }
    out
}

/// Position of the first `c` in `v` at or after `from`, as `index_of` gives it
/// on that suffix.
pub(crate) fn find_from(v: &Vec<char>, c: char, from: usize) -> (r: Option<usize>)
    requires
        from <= v@.len(),
    ensures
        match r {
            Some(k) => from <= k < v@.len() && index_of(v@.skip(from as int), c) == Some(
                k - from,
            ),
            None => index_of(v@.skip(from as int), c) is None,
        },
{
    let mut i: usize = from;
    while i < v.len()
        invariant
            from <= i <= v@.len(),
            forall|j: int| from <= j < i ==> v@[j] != c,
        decreases v@.len() - i,
    {
        if v[i] == c {
            proof {
                lemma_index_of_at(v@.skip(from as int), c, i - from);
            }
            return Some(i);
        }
        i = i + 1;
    }
    proof {
        let t = v@.skip(from as int);
        lemma_index_of(t, c);
        if let Some(k) = index_of(t, c) {
            assert(t[k] == v@[from + k]);
        }
    }
    None
}

/// Splits `s` into its lines, as `lines` describes them.
pub fn split_lines(s: &Vec<char>) -> (r: Vec<Vec<char>>)
    ensures
        r@.len() == lines(s@).len(),
        r@.len() <= s@.len() + 1,
        forall|i: int| 0 <= i < r@.len() ==> #[trigger] r@[i]@ == lines(s@)[i],
{
    let mut out: Vec<Vec<char>> = Vec::new();
    let mut start: usize = 0;
    let n: usize = s.len();
    proof {
        assert(s@.skip(0) =~= s@);
    }
    loop
        invariant
            n == s@.len(),
            start <= s@.len(),
            out@.len() <= start,
            out@.len() + lines(s@.skip(start as int)).len() == lines(s@).len(),
            forall|i: int| 0 <= i < out@.len() ==> #[trigger] out@[i]@ == lines(s@)[i],
            forall|i: int|
                0 <= i < lines(s@.skip(start as int)).len() ==> lines(s@)[out@.len() + i]
                    == #[trigger] lines(s@.skip(start as int))[i],
        decreases s@.len() - start,
    {
        let ghost rest = s@.skip(start as int);
        match find_from(s, '\n', start) {
            Some(k) => {
                let line = copy_range(s, start, k);
                proof {
                    assert(rest.take(k - start) =~= line@);
                    assert(rest.skip(k - start + 1) =~= s@.skip(k + 1));
                    assert(lines(rest) == seq![line@] + lines(s@.skip(k + 1)));
                    assert(lines(rest)[0] == line@);
                    assert forall|i: int| 0 <= i < lines(s@.skip(k + 1)).len() implies lines(
                        s@,
                    )[out@.len() + 1 + i] == #[trigger] lines(s@.skip(k + 1))[i] by {
                        assert(lines(rest)[i + 1] == lines(s@.skip(k + 1))[i]);
                    }
                }
                out.push(line);
                start = k + 1;
                proof {
                    assert forall|i: int| 0 <= i < out@.len() implies #[trigger] out@[i]@ == lines(
                        s@,
                    )[i] by {
                        if i == out@.len() - 1 {
                            assert(lines(s@)[i] == lines(rest)[0]);
                        }
                    }
                }
            },
            None => {
                let line = copy_range(s, start, s.len());
                proof {
                    assert(rest =~= line@);
                    assert(lines(rest) == seq![line@]);
                    assert(lines(s@)[out@.len() as int] == lines(rest)[0]);
                }
                out.push(line);
                return out;
            },
        }
    }
}

} // verus!
