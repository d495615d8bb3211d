use vstd::prelude::*;
use vstd::utf8::encode_utf8;

verus! {

/// Relies on nothing of `regex::Regex` but that it can be held inside a
/// [`CompiledRegex`].
#[verifier::external_type_specification]
#[verifier::external_body]
pub struct ExRegex(regex::Regex);

/// Relies on nothing of `regex::Error` but its existence: it is carried, not read.
#[verifier::external_type_specification]
#[verifier::external_body]
pub struct ExRegexError(regex::Error);

/// Whether `Regex::new` accepts the pattern `p`.
pub uninterp spec fn regex_valid(p: Seq<char>) -> bool;

/// The start byte offsets of the matches that `Regex::find_iter` yields for
/// the regex of pattern `p` on the haystack `line`.
pub uninterp spec fn regex_starts(p: Seq<char>, line: Seq<char>) -> Seq<int>;

/// A regular expression together with the pattern it was compiled from. Only
/// [`compile_regex`] makes one, so the two always agree.
#[derive(Debug)]
pub struct CompiledRegex {
    pattern: String,
    re: regex::Regex,
}

impl CompiledRegex {
    /// The pattern this regex was compiled from.
    pub closed spec fn pattern(&self) -> Seq<char> {
        self.pattern@
    }
}

/// Relies on `regex::Regex::new`: whether it compiles depends on the pattern
/// alone. The compiled regex is kept with a copy of its pattern.
#[verifier::external_body]
pub fn compile_regex(p: &str) -> (r: Result<CompiledRegex, regex::Error>)
    ensures
        r is Ok <==> regex_valid(p@),
        r matches Ok(c) ==> c.pattern() == p@,
{
    regex::Regex::new(p).map(|re| CompiledRegex { pattern: p.to_string(), re })
}

/// Relies on `regex::Regex::find_iter` and `Match::start`: the start offsets
/// of the successive non-overlapping matches, which depend on the pattern and
/// the haystack alone; each start lies in the haystack. The offsets index a `str`, which std keeps under `isize::MAX` bytes.
#[verifier::external_body]
pub fn regex_find_starts(c: &CompiledRegex, line: &str) -> (r: Vec<usize>)
    ensures
        r@.map_values(|s: usize| s as int) == regex_starts(c.pattern(), line@),
        forall|i: int|
            0 <= i < r@.len() ==> #[trigger] r@[i] <= encode_utf8(line@).len() && r@[i] <= isize::MAX,
{
    c.re.find_iter(line).map(|m| m.start()).collect()
}

} // verus!
