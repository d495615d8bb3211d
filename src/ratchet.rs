use vstd::prelude::*;
use vstd::utf8::encode_utf8;
use crate::config::{clone_opt, opt_view, RuleConfig, Severity};
use crate::rules::{views, RuleBuildError, ScanContext, Violation, ViolationView};
use crate::matcher::{compile_regex, regex_find_starts, regex_starts, regex_valid, CompiledRegex};
use crate::text::{find_literal, lines_of, literal_starts, split_lines};

verus! {

/// A rule that counts occurrences of a pattern against a budget.
///
/// Every occurrence is reported; whether the reports are kept is decided over
/// the whole scan, by comparing their number with `max_count`.
#[derive(Debug)]
pub struct RatchetRule {
    id: String,
    severity: Severity,
    message: String,
    suggest: Option<String>,
    glob: Option<String>,
    pattern: String,
    max_count: usize,
    compiled_regex: Option<CompiledRegex>,
}

impl RatchetRule {
    /// The compiled regex, if any, is that of the rule's pattern.
    #[verifier::type_invariant]
    closed spec fn regex_is_pattern(&self) -> bool {
        self.compiled_regex matches Some(c) ==> c.pattern() == self.pattern@
    }
}

/// What a ratchet rule is, apart from its compiled matcher.
pub struct RatchetView {
    pub id: Seq<char>,
    pub severity: Severity,
    pub message: Seq<char>,
    pub suggest: Option<Seq<char>>,
    pub glob: Option<Seq<char>>,
    pub pattern: Seq<char>,
    pub max_count: usize,
    pub regex: bool,
}

impl View for RatchetRule {
    type V = RatchetView;

    closed spec fn view(&self) -> RatchetView {
        RatchetView {
            id: self.id@,
            severity: self.severity,
            message: self.message@,
            suggest: opt_view(self.suggest),
            glob: opt_view(self.glob),
            pattern: self.pattern@,
            max_count: self.max_count,
            regex: self.compiled_regex is Some,
        }
    }
}

/// The report of one occurrence starting at byte offset `start` of line `line_no`.
pub open spec fn hit_view(
    r: RatchetView,
    file: Seq<char>,
    line_no: int,
    line: Seq<char>,
    start: int,
) -> ViolationView {
    ViolationView {
        rule_id: r.id,
        severity: r.severity,
        file,
        line: Some(line_no as usize),
        column: Some((start + 1) as usize),
        message: r.message,
        suggest: r.suggest,
        source_line: Some(line),
        fix: None,
    }
}

/// The reports of the occurrences at `starts` in one line.
pub open spec fn line_hits(
    r: RatchetView,
    file: Seq<char>,
    line_no: int,
    line: Seq<char>,
    starts: Seq<int>,
) -> Seq<ViolationView> {
    starts.map_values(|p: int| hit_view(r, file, line_no, line, p))
}

/// The reports for all lines, line `k` (0-based) having its occurrences at `starts[k]`.
pub open spec fn file_hits(
    r: RatchetView,
    file: Seq<char>,
    lines: Seq<Seq<char>>,
    starts: Seq<Seq<int>>,
) -> Seq<ViolationView> {
    Seq::new(lines.len(), |k: int| line_hits(r, file, k + 1, lines[k], starts[k])).flatten()
}

/// Byte offsets of the occurrences of a literal pattern in a line.
pub open spec fn literal_line_starts(pattern: Seq<char>, line: Seq<char>) -> Seq<int> {
    literal_starts(encode_utf8(line), encode_utf8(pattern), 0)
}

/// Literal occurrences, line by line.
pub open spec fn literal_starts_by_line(pattern: Seq<char>, lines: Seq<Seq<char>>) -> Seq<
    Seq<int>,
> {
    lines.map_values(|l: Seq<char>| literal_line_starts(pattern, l))
}

/// Regex match starts, line by line.
pub open spec fn regex_starts_by_line(pattern: Seq<char>, lines: Seq<Seq<char>>) -> Seq<Seq<int>> {
    lines.map_values(|l: Seq<char>| regex_starts(pattern, l))
}

/// `out` is what checking `content` of `file` against rule `r` reports.
///
/// For each line in turn, one report per occurrence of the pattern: in
/// literal mode the non-overlapping occurrences that a left-to-right scan
/// finds, in regex mode the matches that the regex engine reports.
pub open spec fn reports_of(r: RatchetView, file: Seq<char>, content: Seq<char>, out: Seq<ViolationView>) -> bool {
    &&& !r.regex ==> out == file_hits(
        r,
        file,
        lines_of(content),
        literal_starts_by_line(r.pattern, lines_of(content)),
    )
    &&& r.regex ==> out == file_hits(
        r,
        file,
        lines_of(content),
        regex_starts_by_line(r.pattern, lines_of(content)),
    )
}

/// The total length of a list of sequences.
pub open spec fn total_len<A>(xs: Seq<Seq<A>>) -> nat
    decreases xs.len(),
{
    if xs.len() == 0 {
        0
    } else {
        xs[0].len() + total_len(xs.drop_first())
    }
}

proof fn lemma_flatten_len<A>(xs: Seq<Seq<A>>)
    ensures
        xs.flatten().len() == total_len(xs),
    decreases xs.len(),
{
    if xs.len() > 0 {
        lemma_flatten_len(xs.drop_first());
    }
}

proof fn lemma_total_len_eq<A, B>(xs: Seq<Seq<A>>, ys: Seq<Seq<B>>)
    requires
        xs.len() == ys.len(),
        forall|i: int| 0 <= i < xs.len() ==> (#[trigger] xs[i]).len() == ys[i].len(),
    ensures
        total_len(xs) == total_len(ys),
    decreases xs.len(),
{
    if xs.len() > 0 {
        lemma_total_len_eq(xs.drop_first(), ys.drop_first());
    }
}

/// How many of `vs` are on line `n`.
pub open spec fn count_on_line(vs: Seq<ViolationView>, n: usize) -> nat
    decreases vs.len(),
{
    if vs.len() == 0 {
        0
    } else {
        count_on_line(vs.drop_last(), n) + if vs.last().line == Some(n) {
            1nat
        } else {
            0nat
        }
    }
}

proof fn lemma_count_on_line_add(a: Seq<ViolationView>, b: Seq<ViolationView>, n: usize)
    ensures
        count_on_line(a + b, n) == count_on_line(a, n) + count_on_line(b, n),
    decreases b.len(),
{
    if b.len() > 0 {
        lemma_count_on_line_add(a, b.drop_last(), n);
        assert((a + b).drop_last() =~= a + b.drop_last());
    } else {
        assert(a + b =~= a);
    }
}

proof fn lemma_count_on_line_uniform(vs: Seq<ViolationView>, m: usize, n: usize)
    requires
        forall|i: int| 0 <= i < vs.len() ==> (#[trigger] vs[i]).line == Some(m),
    ensures
        count_on_line(vs, n) == if m == n {
            vs.len()
        } else {
            0
        },
    decreases vs.len(),
{
    if vs.len() > 0 {
        lemma_count_on_line_uniform(vs.drop_last(), m, n);
    }
}

/// Where the reports of a file stand: every report is on a line of the file
/// (numbered from 1) and carries that line's text, and line `k + 1` has
/// exactly one report per occurrence start of line `k` (0-based), in either mode.
proof fn lemma_reports_by_line(
    r: RatchetView,
    file: Seq<char>,
    lines: Seq<Seq<char>>,
    starts: Seq<Seq<int>>,
    k: int,
)
    requires
        lines.len() <= usize::MAX,
        starts.len() == lines.len(),
    ensures
        forall|i: int|
            0 <= i < file_hits(r, file, lines, starts).len() ==> ((#[trigger] file_hits(r, file, lines, starts)[i]).line is Some && 1 <= file_hits(r, file, lines, starts)[i].line->0 <= lines.len()
                && file_hits(r, file, lines, starts)[i].source_line == Some(lines[file_hits(r, file, lines, starts)[i].line->0 - 1])),
        0 <= k < lines.len() ==> count_on_line(file_hits(r, file, lines, starts), (k + 1) as usize)
            == starts[k].len(),
{
    lemma_reports_prefix(r, file, lines, starts, lines.len() as int);
    let out = Seq::new(lines.len(), |j: int| line_hits(r, file, j + 1, lines[j], starts[j])).flatten();
    assert(Seq::new(lines.len(), |j: int| line_hits(r, file, j + 1, lines[j], starts[j]))
        =~= Seq::new(lines.len(), |k: int| line_hits(r, file, k + 1, lines[k], starts[k])));
    assert(file_hits(r, file, lines, starts) == out);
    if 0 <= k < lines.len() {
        assert(count_on_line(out, (k + 1) as usize) == starts[k].len());
    }
}

proof fn lemma_reports_prefix(
    r: RatchetView,
    file: Seq<char>,
    lines: Seq<Seq<char>>,
    starts: Seq<Seq<int>>,
    m: int,
)
    requires
        lines.len() <= usize::MAX,
        starts.len() == lines.len(),
        0 <= m <= lines.len(),
    ensures
        ({
            let out = Seq::new(m as nat, |j: int| line_hits(r, file, j + 1, lines[j], starts[j])).flatten();
            &&& forall|i: int|
                0 <= i < out.len() ==> ((#[trigger] out[i]).line is Some && 1 <= out[i].line->0 <= m
                && out[i].source_line == Some(lines[out[i].line->0 - 1]))
            &&& forall|q: int| 0 <= q < lines.len() ==> #[trigger] count_on_line(out, (q + 1) as usize) == if q < m {
                starts[q].len()
            } else {
                0
            }
        }),
    decreases m,
{
    let f = |j: int| line_hits(r, file, j + 1, lines[j], starts[j]);
    if m == 0 {
        assert(Seq::new(0, f).flatten() =~= Seq::<ViolationView>::empty());
    } else {
        lemma_reports_prefix(r, file, lines, starts, m - 1);
        let prev = Seq::new((m - 1) as nat, f);
        let h = f(m - 1);
        assert(Seq::new(m as nat, f) =~= prev.push(h));
        prev.lemma_flatten_push(h);
        let out = Seq::new(m as nat, f).flatten();
        assert(out == prev.flatten() + h);
        assert forall|i: int| 0 <= i < h.len() implies (#[trigger] h[i]).line == Some(m as usize) by {}
        assert forall|i: int| 0 <= i < out.len() implies ((#[trigger] out[i]).line is Some && 1 <= out[i].line->0 <= m
                && out[i].source_line == Some(lines[out[i].line->0 - 1])) by {
            if i >= prev.flatten().len() {
                assert(out[i] == h[i - prev.flatten().len()]);
            } else {
                assert(out[i] == prev.flatten()[i]);
            }
        }
        assert forall|q: int| 0 <= q < lines.len() implies #[trigger] count_on_line(out, (q + 1) as usize) == if q < m {
            starts[q].len()
        } else {
            0
        } by {
            lemma_count_on_line_add(prev.flatten(), h, (q + 1) as usize);
            lemma_count_on_line_uniform(h, m as usize, (q + 1) as usize);
        }
    }
}

/// The starts of the pattern's occurrences in one line, in the rule's mode.
pub open spec fn mode_starts(r: RatchetView, line: Seq<char>) -> Seq<int> {
    if r.regex {
        regex_starts(r.pattern, line)
    } else {
        literal_line_starts(r.pattern, line)
    }
}

/// What a rule reports on a file, line by line: each report is on a line of
/// the file, numbered from 1, and carries that line's untrimmed text; line
/// `k + 1` gets one report per occurrence of the pattern in it (the
/// non-overlapping left-to-right ones in literal mode, the regex engine's
/// matches in regex mode).
pub proof fn lemma_check_file_by_line(r: RatchetView, file: Seq<char>, content: Seq<char>, out: Seq<ViolationView>, k: int)
    requires
        reports_of(r, file, content, out),
        lines_of(content).len() <= usize::MAX,
    ensures
        forall|i: int|
            0 <= i < out.len() ==> ((#[trigger] out[i]).line is Some && 1 <= out[i].line->0 <= lines_of(content).len()
                && out[i].source_line == Some(lines_of(content)[out[i].line->0 - 1])),
        0 <= k < lines_of(content).len() ==> count_on_line(out, (k + 1) as usize)
            == mode_starts(r, lines_of(content)[k]).len(),
{
    let ls = lines_of(content);
    let ss = if r.regex {
        regex_starts_by_line(r.pattern, ls)
    } else {
        literal_starts_by_line(r.pattern, ls)
    };
    lemma_reports_by_line(r, file, ls, ss, k);
}

/// In literal mode a file yields one report per occurrence that the
/// left-to-right, non-overlapping scan finds, summed over its lines.
pub proof fn lemma_literal_count(r: RatchetView, file: Seq<char>, content: Seq<char>, out: Seq<ViolationView>)
    requires
        !r.regex,
        reports_of(r, file, content, out),
    ensures
        out.len() == total_len(literal_starts_by_line(r.pattern, lines_of(content))),
{
    let ls = lines_of(content);
    let ss = literal_starts_by_line(r.pattern, ls);
    let hs = Seq::new(ls.len(), |k: int| line_hits(r, file, k + 1, ls[k], ss[k]));
    lemma_flatten_len(hs);
    lemma_total_len_eq(hs, ss);
}

/// What building a ratchet rule from `config` gives: `MissingField("pattern")`
/// for an absent or empty pattern, then `MissingField("max_count")` for an
/// absent budget, then `InvalidRegex` for a regex that does not compile;
/// otherwise the rule, with its fields taken from `config`.
pub open spec fn new_post(config: RuleConfig, r: Result<RatchetRule, RuleBuildError>) -> bool {
    &&& (config.pattern is None || config.pattern->0@.len() == 0) ==> (r matches Err(e)
        && e.is_missing_field(config.id@, "pattern"@))
    &&& (config.pattern is Some && config.pattern->0@.len() > 0 && config.max_count is None)
        ==> (r matches Err(e) && e.is_missing_field(config.id@, "max_count"@))
    &&& (config.pattern is Some && config.pattern->0@.len() > 0 && config.max_count is Some
        && config.regex && !regex_valid(config.pattern->0@)) ==> (r matches Err(e)
        && e.is_invalid_regex(config.id@))
    &&& (r is Ok <==> config.pattern is Some && config.pattern->0@.len() > 0
        && config.max_count is Some && (config.regex ==> regex_valid(config.pattern->0@)))
    &&& r matches Ok(rule) ==> rule@ == (RatchetView {
        id: config.id@,
        severity: config.severity,
        message: config.message@,
        suggest: opt_view(config.suggest),
        glob: opt_view(config.glob),
        pattern: config.pattern->0@,
        max_count: config.max_count->0,
        regex: config.regex,
    })
}

impl RatchetRule {
    /// Builds a rule from its configuration.
    ///
    /// The pattern must be present and non-empty, `max_count` present, and in
    /// regex mode the pattern must compile.
    pub fn new(config: &RuleConfig) -> (r: Result<Self, RuleBuildError>)
        ensures
            new_post(*config, r),
    {
        let pattern = match &config.pattern {
            Some(p) => {
                if p.as_str().is_empty() {
                    proof {
                        reveal_strlit("pattern");
                    }
                    return Err(RuleBuildError::MissingField(config.id.clone(), "pattern"));
                }
                p.clone()
            },
            None => {
                proof {
                    reveal_strlit("pattern");
                }
                return Err(RuleBuildError::MissingField(config.id.clone(), "pattern"));
            },
        };
        let max_count = match config.max_count {
            Some(m) => m,
            None => {
                proof {
                    reveal_strlit("max_count");
                }
                return Err(RuleBuildError::MissingField(config.id.clone(), "max_count"));
            },
        };
        let compiled_regex = if config.regex {
            match compile_regex(pattern.as_str()) {
                Ok(re) => Some(re),
                Err(e) => {
                    return Err(RuleBuildError::InvalidRegex(config.id.clone(), e));
                },
            }
        } else {
            None
        };
        Ok(RatchetRule {
            id: config.id.clone(),
            severity: config.severity,
            message: config.message.clone(),
            suggest: clone_opt(&config.suggest),
            glob: clone_opt(&config.glob),
            pattern,
            max_count,
            compiled_regex,
        })
    }

    /// The occurrence budget.
    pub fn max_count(&self) -> (r: usize)
        ensures
            r == self@.max_count,
    {
        self.max_count
    }

    /// The pattern searched for.
    pub fn pattern(&self) -> (r: &str)
        ensures
            r@ == self@.pattern,
    {
        self.pattern.as_str()
    }

    /// The rule's id.
    pub fn id(&self) -> (r: &str)
        ensures
            r@ == self@.id,
    {
        self.id.as_str()
    }

    /// The severity of the rule's violations.
    pub fn severity(&self) -> (r: Severity)
        ensures
            r == self@.severity,
    {
        self.severity
    }

    /// The glob that limits the files the rule applies to, if any.
    pub fn file_glob(&self) -> (r: Option<&str>)
        ensures
            r matches Some(g) ==> self@.glob == Some(g@),
            r is None ==> self@.glob is None,
    {
        match &self.glob {
            Some(g) => Some(g.as_str()),
            None => None,
        }
    }

    /// Whether the pattern is a regular expression.
    pub fn is_regex(&self) -> (r: bool)
        ensures
            r == self@.regex,
    {
        self.compiled_regex.is_some()
    }

    /// The reports for the occurrences at byte offsets `starts` of line
    /// `line_no` of `file`.
    pub fn line_violations(&self, file: &str, line_no: usize, line: &String, starts: &Vec<usize>) -> (r: Vec<Violation>)
        requires
            forall|i: int| 0 <= i < starts@.len() ==> starts@[i] < usize::MAX,
        ensures
            views(r@) == line_hits(self@, file@, line_no as int, line@, starts@.map_values(|p: usize| p as int)),
    {
        let mut r: Vec<Violation> = Vec::new();
        let mut i: usize = 0;
        while i < starts.len()
            invariant
                i <= starts@.len(),
                forall|j: int| 0 <= j < starts@.len() ==> starts@[j] < usize::MAX,
                views(r@) == line_hits(self@, file@, line_no as int, line@, starts@.subrange(0, i as int).map_values(|p: usize| p as int)),
            decreases starts@.len() - i,
        {
            let v = Violation {
                rule_id: self.id.clone(),
                severity: self.severity,
                file: file.to_string(),
                line: Some(line_no),
                column: Some(starts[i] + 1),
                message: self.message.clone(),
                suggest: clone_opt(&self.suggest),
                source_line: Some(line.clone()),
                fix: None,
            };
            let ghost prev = r@;
            r.push(v);
            i = i + 1;
            proof {
                assert(views(r@) =~= views(prev).push(v@));
                assert(starts@.subrange(0, i as int).map_values(|p: usize| p as int) =~= starts@.subrange(0, i - 1).map_values(|p: usize| p as int).push(starts@[i - 1] as int));
                assert(line_hits(self@, file@, line_no as int, line@, starts@.subrange(0, i as int).map_values(|p: usize| p as int)) =~= line_hits(self@, file@, line_no as int, line@, starts@.subrange(0, i - 1).map_values(|p: usize| p as int)).push(v@));
            }
        }
        assert(starts@.subrange(0, i as int) =~= starts@);
        r
    }

    /// The reports of every occurrence of the pattern in the file: line by
    /// line, left to right within a line.
    ///
    /// In literal mode the occurrences are the non-overlapping ones that a
    /// left-to-right scan finds. In regex mode they are those the regex engine
    /// reports; of these the rule knows only that they lie in order inside the line.
    pub fn check_file(&self, ctx: &ScanContext) -> (r: Vec<Violation>)
        ensures
            reports_of(self@, ctx.file_path@, ctx.content@, views(r@)),
    {
        let lines = split_lines(ctx.content);
        let ghost ls = lines_of(ctx.content@);
        let ghost file = ctx.file_path@;
        let mut out: Vec<Violation> = Vec::new();
        let ghost mut ss: Seq<Seq<int>> = Seq::empty();
        let mut k: usize = 0;
        while k < lines.len()
            invariant
                k <= lines@.len(),
                file == ctx.file_path@,
                ls == lines_of(ctx.content@),
                lines@.map_values(|l: String| l@) == ls,
                ss.len() == k,
                self@.regex ==> forall|j: int| 0 <= j < k ==> #[trigger] ss[j] == regex_starts(self@.pattern, ls[j]),
                !self@.regex ==> forall|j: int| 0 <= j < k ==> #[trigger] ss[j] == literal_line_starts(self@.pattern, ls[j]),
                views(out@) == Seq::new(k as nat, |j: int| line_hits(self@, file, j + 1, ls[j], ss[j])).flatten(),
            decreases lines@.len() - k,
        {
            let line = &lines[k];
            assert(line@ == ls[k as int]);
            let starts: Vec<usize> = match &self.compiled_regex {
                Some(re) => {
                    proof {
                        use_type_invariant(self);
                    }
                    regex_find_starts(re, line.as_str())
                },
                None => {
                    let hay = line.as_str().as_bytes();
                    let n: usize = hay.len();
                    let found = find_literal(hay, self.pattern.as_str().as_bytes());
                    assert(forall|i: int| 0 <= i < found@.len() ==> found@[i] < n);
                    found
                },
            };
            let ghost st = starts@.map_values(|p: usize| p as int);
            let mut lv = self.line_violations(ctx.file_path, k + 1, line, &starts);
            let ghost prev_ss = ss;
            let ghost prev_out = out@;
            let ghost added = lv@;
            proof {
                ss = ss.push(st);
            }
            out.append(&mut lv);
            k = k + 1;
            proof {
                let f_old = |j: int| line_hits(self@, file, j + 1, ls[j], prev_ss[j]);
                let f_new = |j: int| line_hits(self@, file, j + 1, ls[j], ss[j]);
                assert(Seq::new(k as nat, f_new) =~= Seq::new((k - 1) as nat, f_old).push(
                    line_hits(self@, file, k as int, ls[k - 1], st),
                ));
                Seq::new((k - 1) as nat, f_old).lemma_flatten_push(
                    line_hits(self@, file, k as int, ls[k - 1], st),
                );
                assert(st =~= starts@.map_values(|p: usize| p as int));
                assert(line@ == ls[k - 1]);
                assert(views(added) == line_hits(self@, file, k as int, ls[k - 1], st));
                assert(views(prev_out) == Seq::new((k - 1) as nat, f_old).flatten());
                assert(out@ == prev_out + added);
                assert(views(out@) =~= views(prev_out) + views(added));
            }
        }
        proof {
            assert(ls.len() == lines@.len());
            assert(Seq::new(k as nat, |j: int| line_hits(self@, file, j + 1, ls[j], ss[j])) =~= Seq::new(ls.len(), |j: int| line_hits(self@, file, j + 1, ls[j], ss[j])));
            if !self@.regex {
                assert(ss =~= literal_starts_by_line(self@.pattern, ls));
            } else {
                assert(ss =~= regex_starts_by_line(self@.pattern, ls));
            }
        }
        out
    }
}

} // verus!
