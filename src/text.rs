use vstd::prelude::*;

verus! {

/// `s` with one trailing carriage return removed, if it has one.
pub open spec fn strip_cr(s: Seq<char>) -> Seq<char> {
    if s.len() > 0 && s.last() == '\r' {
        s.drop_last()
    } else {
        s
    }
}

/// Index of the first newline in `s` at or after `from`, if any.
pub open spec fn first_newline(s: Seq<char>, from: int) -> Option<int>
    decreases s.len() - from,
{
    if from < 0 || from >= s.len() {
        None
    } else if s[from] == '\n' {
        Some(from)
    } else {
        first_newline(s, from + 1)
    }
}

/// The lines of `s`: split at each `\n`, one trailing `\r` removed from each
/// line that a `\n` ends, and no empty line after a final `\n`.
pub open spec fn lines_of(s: Seq<char>) -> Seq<Seq<char>>
    decreases s.len(),
{
    if s.len() == 0 {
        Seq::empty()
    } else {
        match first_newline(s, 0) {
            None => seq![s],
            Some(i) => if 0 <= i < s.len() {
                seq![strip_cr(s.subrange(0, i))] + lines_of(s.subrange(i + 1, s.len() as int))
            } else {
                Seq::empty()
            },
        }
    }
}

/// Relies on `str::lines`: splits at `\n` and `\r\n`, the final line ending
/// being optional, a bare `\r` being no line ending.
#[verifier::external_body]
pub(crate) fn split_lines(s: &str) -> (r: Vec<String>)
    ensures
        r@.map_values(|l: String| l@) == lines_of(s@),
{
    s.lines().map(|l| l.to_string()).collect()
}

/// Relies on `str::strip_prefix`: the rest of `s` after `p`, when `s` starts with `p`.
#[verifier::external_body]
pub(crate) fn strip_prefix(s: &str, p: &str) -> (r: Option<String>)
    ensures
        r is Some <==> p@.is_prefix_of(s@),
        r matches Some(x) ==> x@ == s@.subrange(p@.len() as int, s@.len() as int),
{
    s.strip_prefix(p).map(|x| x.to_string())
}

/// Whether `pat` occurs in `hay` at byte offset `i`.
pub open spec fn occurs_at(hay: Seq<u8>, pat: Seq<u8>, i: int) -> bool {
    0 <= i && i + pat.len() <= hay.len() && hay.subrange(i, i + pat.len()) == pat
}

/// Start offsets of the non-overlapping occurrences of `pat` in `hay` found by a
/// left-to-right scan from `from` that resumes just past each occurrence.
pub open spec fn literal_starts(hay: Seq<u8>, pat: Seq<u8>, from: int) -> Seq<int>
    decreases hay.len() - from,
{
    if pat.len() == 0 || from < 0 || from + pat.len() > hay.len() {
        Seq::empty()
    } else if occurs_at(hay, pat, from) {
        seq![from] + literal_starts(hay, pat, from + pat.len())
    } else {
        literal_starts(hay, pat, from + 1)
    }
}

/// Whether `pat` occurs in `hay` at byte offset `i`.
fn matches_at(hay: &[u8], pat: &[u8], i: usize) -> (r: bool)
    requires
        i + pat@.len() <= hay@.len(),
    ensures
        r == occurs_at(hay@, pat@, i as int),
{
    let n: usize = hay.len();
    let mut k: usize = 0;
    while k < pat.len()
        invariant
            n == hay@.len(),
            i + pat@.len() <= hay@.len(),
            k <= pat@.len(),
            forall|j: int| 0 <= j < k ==> hay@[i + j] == pat@[j],
        decreases pat@.len() - k,
    {
        if hay[i + k] != pat[k] {
            assert(hay@.subrange(i as int, i + pat@.len())[k as int] != pat@[k as int]);
            return false;
        }
        k = k + 1;
    }
    assert(hay@.subrange(i as int, i + pat@.len()) =~= pat@);
    true
}

/// Start offsets of the non-overlapping occurrences of `pat` in `hay`, left to
/// right, each search resuming just past the previous occurrence.
pub fn find_literal(hay: &[u8], pat: &[u8]) -> (r: Vec<usize>)
    ensures
        r@.map_values(|p: usize| p as int) == literal_starts(hay@, pat@, 0),
        forall|i: int| 0 <= i < r@.len() ==> r@[i] + pat@.len() <= hay@.len(),
        r@.len() > 0 ==> pat@.len() > 0,
{
    let mut r: Vec<usize> = Vec::new();
    if pat.len() == 0 {
        return r;
    }
    let mut i: usize = 0;
    while i <= hay.len() && pat.len() <= hay.len() - i
        invariant
            pat@.len() > 0,
            forall|j: int| 0 <= j < r@.len() ==> r@[j] + pat@.len() <= hay@.len(),
            r@.map_values(|p: usize| p as int) + literal_starts(hay@, pat@, i as int)
                == literal_starts(hay@, pat@, 0),
        decreases hay@.len() - i,
    {
        if matches_at(hay, pat, i) {
            proof {
                assert(literal_starts(hay@, pat@, i as int)
                    == seq![i as int] + literal_starts(hay@, pat@, i + pat@.len()));
            }
            let ghost prev = r@;
            r.push(i);
            proof {
                assert(r@.map_values(|p: usize| p as int)
                    =~= prev.map_values(|p: usize| p as int).push(i as int));
                assert(prev.map_values(|p: usize| p as int) + (seq![i as int] + literal_starts(
                    hay@,
                    pat@,
                    i + pat@.len(),
                )) =~= prev.map_values(|p: usize| p as int).push(i as int) + literal_starts(
                    hay@,
                    pat@,
                    i + pat@.len(),
                ));
            }
            i = i + pat.len();
        } else {
            i = i + 1;
        }
    }
    assert(literal_starts(hay@, pat@, i as int) == Seq::<int>::empty());
    assert(r@.map_values(|p: usize| p as int) =~= r@.map_values(|p: usize| p as int)
        + Seq::<int>::empty());
    r
}

} // verus!
