use vstd::prelude::*;
use crate::config::{opt_view, Severity};
use crate::factory::{build_rule, ratchet_tag, FactoryError};
use crate::matcher::regex_valid;
use crate::ratchet::RatchetView;
use crate::toml_config::lower_of;
use crate::rules::{views, Rule, RuleView, ScanContext, Violation, ViolationView};
use crate::toml_config::{TomlConfig, TomlRule};

verus! {

/// Relies on nothing of `globset::Error` but its existence: it is carried, not read.
#[verifier::external_type_specification]
#[verifier::external_body]
pub struct ExGlobError(globset::Error);

/// Relies on nothing of `globset::GlobSetBuilder` but the globs added to it,
/// which `builder_globs` names.
#[verifier::external_type_specification]
#[verifier::external_body]
pub struct ExGlobSetBuilder(globset::GlobSetBuilder);

/// Relies on nothing of `globset::GlobSet` but the globs it was built from,
/// which `set_globs` names.
#[verifier::external_type_specification]
#[verifier::external_body]
pub struct ExGlobSet(globset::GlobSet);

/// Whether `globset::Glob::new` accepts the pattern `p`.
pub uninterp spec fn glob_valid(p: Seq<char>) -> bool;

/// Whether `GlobSetBuilder::build` succeeds on the globs of the patterns `ps`.
pub uninterp spec fn set_builds(ps: Seq<Seq<char>>) -> bool;

/// Whether the glob `p` matches the path `path`, as `globset` decides it.
pub uninterp spec fn glob_matches(p: Seq<char>, path: Seq<char>) -> bool;

/// The patterns of the globs added to a builder, in order.
pub uninterp spec fn builder_globs(b: globset::GlobSetBuilder) -> Seq<Seq<char>>;

/// The patterns of the globs a set was built from, in order.
pub uninterp spec fn set_globs(s: globset::GlobSet) -> Seq<Seq<char>>;

/// Relies on `globset::GlobSetBuilder::new`: a builder with no glob.
#[verifier::external_body]
fn new_builder() -> (r: globset::GlobSetBuilder)
    ensures
        builder_globs(r) == Seq::<Seq<char>>::empty(),
{
    globset::GlobSetBuilder::new()
}

/// Relies on `globset::Glob::new`, whose success depends on the pattern
/// alone, and on `GlobSetBuilder::add`, which appends the glob.
#[verifier::external_body]
fn add_glob(b: &mut globset::GlobSetBuilder, p: &str) -> (r: Result<(), globset::Error>)
    ensures
        r is Ok <==> glob_valid(p@),
        r is Ok ==> builder_globs(*final(b)) == builder_globs(*old(b)).push(p@),
        r is Err ==> builder_globs(*final(b)) == builder_globs(*old(b)),
{
    match globset::Glob::new(p) {
        Ok(g) => {
            b.add(g);
            Ok(())
        },
        Err(e) => Err(e),
    }
}

/// Relies on `globset::GlobSetBuilder::build`: it compiles the globs added,
/// its success depending on them alone.
#[verifier::external_body]
fn build_set(b: &globset::GlobSetBuilder) -> (r: Result<globset::GlobSet, globset::Error>)
    ensures
        r is Ok <==> set_builds(builder_globs(*b)),
        r matches Ok(s) ==> set_globs(s) == builder_globs(*b),
{
    b.build()
}

/// Relies on `globset::GlobSet::is_match`: whether any glob of the set
/// matches the path.
#[verifier::external_body]
fn set_is_match(s: &globset::GlobSet, path: &str) -> (r: bool)
    ensures
        r == (exists|i: int|
            0 <= i < set_globs(*s).len() && glob_matches(#[trigger] set_globs(*s)[i], path@)),
{
    s.is_match(path)
}

/// The patterns of a list of strings.
pub open spec fn glob_list(ps: Seq<String>) -> Seq<Seq<char>> {
    ps.map_values(|p: String| p@)
}

/// `e` is the error for the glob patterns `ps`: the first one that does not
/// parse, named; or, all parsing, the set that does not build.
pub open spec fn glob_set_error(ps: Seq<Seq<char>>, e: ScanError) -> bool {
    (exists|k: int|
        0 <= k < ps.len() && !glob_valid(#[trigger] ps[k]) && (forall|i: int|
            0 <= i < k ==> glob_valid(#[trigger] ps[i])) && (e matches ScanError::GlobParse(p, _)
            && opt_view(p) == Some(ps[k]))) || ((forall|i: int|
        0 <= i < ps.len() ==> glob_valid(#[trigger] ps[i])) && !set_builds(ps) && (e matches ScanError::GlobParse(p, _) && p is None))
}

/// Why a scan could not run.
#[derive(Debug)]
pub enum ScanError {
    /// The configuration could not be read: the cause.
    ConfigRead(String),
    /// The configuration could not be parsed: the cause.
    ConfigParse(String),
    /// A glob pattern is malformed (the pattern, when one is to blame) or a
    /// set of globs cannot be compiled: and the cause.
    GlobParse(Option<String>, globset::Error),
    /// A rule could not be built.
    RuleFactory(FactoryError),
}

impl ScanError {
    /// The one-line description of the error.
    pub open spec fn spec_message(&self) -> Seq<char> {
        match self {
            ScanError::ConfigRead(e) => "failed to read config: "@ + e@,
            ScanError::ConfigParse(e) => "failed to parse config: "@ + e@,
            ScanError::GlobParse(Some(p), _) => "invalid glob pattern: '"@ + p@ + "'"@,
            ScanError::GlobParse(None, _) => "invalid glob set"@,
            ScanError::RuleFactory(e) => "failed to build rule: "@ + e.spec_message(),
        }
    }

    /// A one-line description of the error.
    pub fn message(&self) -> (r: String)
        ensures
            r@ == self.spec_message(),
    {
        match self {
            ScanError::ConfigRead(e) => {
                let mut s = String::from_str("failed to read config: ");
                s.append(e.as_str());
                s
            },
            ScanError::ConfigParse(e) => {
                let mut s = String::from_str("failed to parse config: ");
                s.append(e.as_str());
                s
            },
            ScanError::GlobParse(Some(p), _) => {
                let mut s = String::from_str("invalid glob pattern: '");
                s.append(p.as_str());
                s.append("'");
                s
            },
            ScanError::GlobParse(None, _) => String::from_str("invalid glob set"),
            ScanError::RuleFactory(e) => {
                let mut s = String::from_str("failed to build rule: ");
                s.append(e.message().as_str());
                s
            },
        }
    }
}

/// Compiles the patterns into one glob set, stopping at the first pattern
/// that does not parse.
pub fn build_glob_set(patterns: &Vec<String>) -> (r: Result<globset::GlobSet, ScanError>)
    ensures
        r is Ok <==> (forall|i: int| 0 <= i < patterns@.len() ==> glob_valid(#[trigger] patterns@[i]@))
            && set_builds(glob_list(patterns@)),
        r matches Ok(s) ==> set_globs(s) == glob_list(patterns@),
        r matches Err(e) ==> glob_set_error(glob_list(patterns@), e),
{
    let ghost ps = glob_list(patterns@);
    let mut b = new_builder();
    let mut i: usize = 0;
    while i < patterns.len()
        invariant
            i <= patterns@.len(),
            ps == glob_list(patterns@),
            forall|j: int| 0 <= j < i ==> glob_valid(#[trigger] patterns@[j]@),
            builder_globs(b) == ps.subrange(0, i as int),
        decreases patterns@.len() - i,
    {
        match add_glob(&mut b, patterns[i].as_str()) {
            Ok(()) => {
                assert(ps.subrange(0, i + 1) =~= ps.subrange(0, i as int).push(patterns@[i as int]@));
            },
            Err(e) => {
                let err = ScanError::GlobParse(Some(patterns[i].clone()), e);
                assert(!glob_valid(ps[i as int]));
                assert(forall|j: int| 0 <= j < i ==> glob_valid(#[trigger] ps[j]) ) by {
                    assert forall|j: int| 0 <= j < i implies glob_valid(#[trigger] ps[j]) by {
                        assert(ps[j] == patterns@[j]@);
                    }
                }
                return Err(err);
            },
        }
        i = i + 1;
    }
    assert(ps.subrange(0, i as int) =~= ps);
    assert forall|j: int| 0 <= j < ps.len() implies glob_valid(#[trigger] ps[j]) by {
        assert(ps[j] == patterns@[j]@);
    }
    match build_set(&b) {
        Ok(set) => Ok(set),
        Err(e) => Err(ScanError::GlobParse(None, e)),
    }
}

/// How many of `vs` a rule with id `id` reported.
pub open spec fn count_for(vs: Seq<ViolationView>, id: Seq<char>) -> nat
    decreases vs.len(),
{
    if vs.len() == 0 {
        0
    } else {
        count_for(vs.drop_last(), id) + if vs.last().rule_id == id {
            1nat
        } else {
            0nat
        }
    }
}

/// Whether the reports of rule id `id` are dropped: some budgeted rule with
/// that id found no more than its budget over `all`.
pub open spec fn suppressed(rules: Seq<RuleView>, all: Seq<ViolationView>, id: Seq<char>) -> bool {
    exists|k: int|
        0 <= k < rules.len() && (#[trigger] rules[k]).id() == id && rules[k].budget() is Some
            && count_for(all, id) <= rules[k].budget()->0
}

/// The reports of `vs` that survive the budgets, in order.
pub open spec fn kept(rules: Seq<RuleView>, all: Seq<ViolationView>, vs: Seq<ViolationView>) -> Seq<
    ViolationView,
>
    decreases vs.len(),
{
    if vs.len() == 0 {
        Seq::empty()
    } else if suppressed(rules, all, vs.last().rule_id) {
        kept(rules, all, vs.drop_last())
    } else {
        kept(rules, all, vs.drop_last()).push(vs.last())
    }
}

/// One entry per budgeted rule, in rule order: its id, how many reports it
/// made over `all`, and its budget.
pub open spec fn tallies(rules: Seq<RuleView>, all: Seq<ViolationView>) -> Seq<(Seq<char>, nat, usize)>
    decreases rules.len(),
{
    if rules.len() == 0 {
        Seq::empty()
    } else {
        let rest = tallies(rules.drop_last(), all);
        match rules.last().budget() {
            Some(m) => rest.push((rules.last().id(), count_for(all, rules.last().id()), m)),
            None => rest,
        }
    }
}

/// How often a budgeted rule was found, against its budget.
#[derive(Debug, Clone, PartialEq, Eq)]
pub struct RatchetCount {
    pub rule_id: String,
    pub found: usize,
    pub max: usize,
}

impl RatchetCount {
    /// Whether the rule stayed within its budget.
    pub fn passes(&self) -> (r: bool)
        ensures
            r == (self.found <= self.max),
    {
        self.found <= self.max
    }
}

/// The views of a list of tallies.
pub open spec fn tally_views(v: Seq<RatchetCount>) -> Seq<(Seq<char>, nat, usize)> {
    v.map_values(|c: RatchetCount| (c.rule_id@, c.found as nat, c.max))
}

/// The outcome of one scan.
#[derive(Debug)]
pub struct ScanResult {
    /// What was reported, by file in the order given, then by rule.
    pub violations: Vec<Violation>,
    /// Files that could be read.
    pub files_scanned: usize,
    /// Rules built.
    pub rules_loaded: usize,
    /// One entry per budgeted rule, in rule order.
    pub ratchet_counts: Vec<RatchetCount>,
}

/// How many of `vs` have severity `sev`.
pub open spec fn severity_total(vs: Seq<Violation>, sev: Severity) -> nat
    decreases vs.len(),
{
    if vs.len() == 0 {
        0
    } else {
        severity_total(vs.drop_last(), sev) + if vs.last().severity == sev {
            1nat
        } else {
            0nat
        }
    }
}

impl ScanResult {
    /// How many reported violations have severity `sev`.
    pub fn severity_count(&self, sev: Severity) -> (r: usize)
        ensures
            r == severity_total(self.violations@, sev),
    {
        let mut n: usize = 0;
        let mut i: usize = 0;
        while i < self.violations.len()
            invariant
                i <= self.violations@.len(),
                n <= i,
                n == severity_total(self.violations@.subrange(0, i as int), sev),
            decreases self.violations@.len() - i,
        {
            proof {
                assert(self.violations@.subrange(0, i + 1).drop_last() =~= self.violations@.subrange(0, i as int));
            }
            if self.violations[i].severity == sev {
                n = n + 1;
            }
            i = i + 1;
        }
        assert(self.violations@.subrange(0, i as int) =~= self.violations@);
        n
    }

    /// The tally of the budgeted rule `id`: how often it was found, and its budget.
    pub fn ratchet_count(&self, id: &str) -> (r: Option<(usize, usize)>)
        ensures
            r matches Some(c) ==> exists|k: int|
                0 <= k < self.ratchet_counts@.len() && #[trigger] self.ratchet_counts@[k].rule_id@ == id@
                    && c == (self.ratchet_counts@[k].found, self.ratchet_counts@[k].max),
            r is None ==> forall|k: int|
                0 <= k < self.ratchet_counts@.len() ==> #[trigger] self.ratchet_counts@[k].rule_id@ != id@,
    {
        let key = String::from_str(id);
        let mut i: usize = 0;
        while i < self.ratchet_counts.len()
            invariant
                key@ == id@,
                i <= self.ratchet_counts@.len(),
                forall|k: int| 0 <= k < i ==> #[trigger] self.ratchet_counts@[k].rule_id@ != id@,
            decreases self.ratchet_counts@.len() - i,
        {
            if self.ratchet_counts[i].rule_id == key {
                return Some((self.ratchet_counts[i].found, self.ratchet_counts[i].max));
            }
            i = i + 1;
        }
        None
    }
}

/// The views of a list of rules.
pub open spec fn rule_views(rules: Seq<Rule>) -> Seq<RuleView> {
    rules.map_values(|r: Rule| r@)
}

fn count_reports(all: &Vec<Violation>, id: &str) -> (r: usize)
    ensures
        r == count_for(views(all@), id@),
{
    let key = String::from_str(id);
    let mut n: usize = 0;
    let mut i: usize = 0;
    while i < all.len()
        invariant
            key@ == id@,
            i <= all@.len(),
            n <= i,
            n == count_for(views(all@.subrange(0, i as int)), id@),
        decreases all@.len() - i,
    {
        proof {
            assert(views(all@.subrange(0, i + 1)).drop_last() =~= views(all@.subrange(0, i as int)));
        }
        if all[i].rule_id == key {
            n = n + 1;
        }
        i = i + 1;
    }
    assert(all@.subrange(0, i as int) =~= all@);
    n
}

fn is_suppressed(rules: &Vec<Rule>, founds: &Vec<usize>, id: &str, Ghost(av): Ghost<Seq<ViolationView>>) -> (r: bool)
    requires
        founds@.len() == rules@.len(),
        forall|j: int| 0 <= j < rules@.len() ==> #[trigger] founds@[j] == count_for(av, rules@[j]@.id()),
    ensures
        r == suppressed(rule_views(rules@), av, id@),
{
    let ghost rv = rule_views(rules@);
    let mut k: usize = 0;
    while k < rules.len()
        invariant
            k <= rules@.len(),
            rv == rule_views(rules@),
            founds@.len() == rules@.len(),
            forall|j: int| 0 <= j < rules@.len() ==> #[trigger] founds@[j] == count_for(av, rules@[j]@.id()),
            forall|j: int| 0 <= j < k ==> !(#[trigger] rv[j].id() == id@ && rv[j].budget() is Some && count_for(av, id@) <= rv[j].budget()->0),
        decreases rules@.len() - k,
    {
        let rid = rules[k].id();
        match rules[k].budget() {
            Some(m) => {
                let a = String::from_str(rid);
                let b = String::from_str(id);
                if a == b && founds[k] <= m {
                    assert(rv[k as int].id() == id@);
                    return true;
                }
            },
            None => {},
        }
        k = k + 1;
    }
    false
}

/// Settles the budgets over a whole scan: the tally of each budgeted rule,
/// and the reports that remain. A budgeted rule whose reports number no more
/// than its budget has all of them dropped; one over its budget keeps all.
pub fn resolve_ratchets(rules: &Vec<Rule>, all: Vec<Violation>) -> (r: (Vec<Violation>, Vec<RatchetCount>))
    ensures
        views(r.0@) == kept(rule_views(rules@), views(all@), views(all@)),
        tally_views(r.1@) == tallies(rule_views(rules@), views(all@)),
{
    let ghost rv = rule_views(rules@);
    let ghost av = views(all@);
    let mut counts: Vec<RatchetCount> = Vec::new();
    let mut founds: Vec<usize> = Vec::new();
    let mut k: usize = 0;
    while k < rules.len()
        invariant
            k <= rules@.len(),
            rv == rule_views(rules@),
            av == views(all@),
            founds@.len() == k,
            forall|j: int| 0 <= j < k ==> #[trigger] founds@[j] == count_for(av, rv[j].id()),
            tally_views(counts@) == tallies(rv.subrange(0, k as int), av),
        decreases rules@.len() - k,
    {
        proof {
            assert(rv.subrange(0, k + 1).drop_last() =~= rv.subrange(0, k as int));
        }
        let id = rules[k].id();
        let found = count_reports(&all, id);
        founds.push(found);
        match rules[k].budget() {
            Some(m) => {
                let ghost prev = counts@;
                counts.push(RatchetCount { rule_id: String::from_str(id), found, max: m });
                proof {
                    assert(tally_views(counts@) =~= tally_views(prev).push((id@, found as nat, m)));
                }
            },
            None => {},
        }
        k = k + 1;
    }
    assert(rv.subrange(0, k as int) =~= rv);
    let mut out: Vec<Violation> = Vec::new();
    let mut i: usize = 0;
    while i < all.len()
        invariant
            i <= all@.len(),
            rv == rule_views(rules@),
            av == views(all@),
            tally_views(counts@) == tallies(rv, av),
            founds@.len() == rules@.len(),
            forall|j: int| 0 <= j < rules@.len() ==> #[trigger] founds@[j] == count_for(av, rv[j].id()),
            views(out@) == kept(rv, av, av.subrange(0, i as int)),
        decreases all@.len() - i,
    {
        proof {
            assert(av.subrange(0, i + 1).drop_last() =~= av.subrange(0, i as int));
        }
        let drop = is_suppressed(rules, &founds, all[i].rule_id.as_str(), Ghost(av));
        if !drop {
            let ghost prev = out@;
            out.push(all[i].clone_violation());
            proof {
                assert(views(out@) =~= views(prev).push(av[i as int]));
            }
        }
        i = i + 1;
    }
    assert(av.subrange(0, i as int) =~= av);
    (out, counts)
}

proof fn lemma_kept_drops(rules: Seq<RuleView>, all: Seq<ViolationView>, vs: Seq<ViolationView>, id: Seq<char>)
    requires
        suppressed(rules, all, id),
    ensures
        forall|i: int| 0 <= i < kept(rules, all, vs).len() ==> (#[trigger] kept(rules, all, vs)[i]).rule_id != id,
    decreases vs.len(),
{
    if vs.len() > 0 {
        lemma_kept_drops(rules, all, vs.drop_last(), id);
    }
}

proof fn lemma_kept_keeps(rules: Seq<RuleView>, all: Seq<ViolationView>, vs: Seq<ViolationView>, id: Seq<char>)
    requires
        !suppressed(rules, all, id),
    ensures
        count_for(kept(rules, all, vs), id) == count_for(vs, id),
    decreases vs.len(),
{
    if vs.len() > 0 {
        lemma_kept_keeps(rules, all, vs.drop_last(), id);
        let k = kept(rules, all, vs.drop_last());
        if !suppressed(rules, all, vs.last().rule_id) {
            assert(k.push(vs.last()).drop_last() =~= k);
        }
    }
}

proof fn lemma_tallies_record(rules: Seq<RuleView>, all: Seq<ViolationView>, k: int)
    requires
        0 <= k < rules.len(),
        rules[k].budget() is Some,
    ensures
        tallies(rules, all).contains((rules[k].id(), count_for(all, rules[k].id()), rules[k].budget()->0)),
    decreases rules.len(),
{
    let t = tallies(rules.drop_last(), all);
    if k == rules.len() - 1 {
        let e = (rules[k].id(), count_for(all, rules[k].id()), rules[k].budget()->0);
        assert(tallies(rules, all) == t.push(e));
        assert(tallies(rules, all)[t.len() as int] == e);
    } else {
        lemma_tallies_record(rules.drop_last(), all, k);
        let e = choose|i: int| 0 <= i < t.len() && t[i] == (rules[k].id(), count_for(all, rules[k].id()), rules[k].budget()->0);
        match rules.last().budget() {
            Some(m) => {
                assert(tallies(rules, all)[e] == t[e]);
            },
            None => {},
        }
    }
}

/// The budget gate, for budgeted rules with distinct ids: the reports of a
/// budgeted rule remain, all of them, exactly when it found more than its
/// budget; none remains otherwise; and its tally is recorded either way.
pub proof fn lemma_ratchet_gate(rules: Seq<RuleView>, all: Seq<ViolationView>, k: int)
    requires
        0 <= k < rules.len(),
        rules[k].budget() is Some,
        forall|i: int, j: int|
            0 <= i < rules.len() && 0 <= j < rules.len() && i != j && (#[trigger] rules[i]).id()
                == (#[trigger] rules[j]).id() ==> rules[i].budget() is None || rules[j].budget() is None,
    ensures
        count_for(all, rules[k].id()) > rules[k].budget()->0 ==> count_for(
            kept(rules, all, all),
            rules[k].id(),
        ) == count_for(all, rules[k].id()),
        count_for(all, rules[k].id()) <= rules[k].budget()->0 ==> forall|i: int|
            0 <= i < kept(rules, all, all).len() ==> (#[trigger] kept(rules, all, all)[i]).rule_id
                != rules[k].id(),
        tallies(rules, all).contains((rules[k].id(), count_for(all, rules[k].id()), rules[k].budget()->0)),
{
    let id = rules[k].id();
    if count_for(all, id) > rules[k].budget()->0 {
        assert(!suppressed(rules, all, id)) by {
            if suppressed(rules, all, id) {
                let j = choose|j: int|
                    0 <= j < rules.len() && (#[trigger] rules[j]).id() == id && rules[j].budget() is Some
                        && count_for(all, id) <= rules[j].budget()->0;
                assert(rules[j].id() == rules[k].id());
            }
        }
        lemma_kept_keeps(rules, all, all, id);
    } else {
        assert(rules[k].id() == id);
        assert(suppressed(rules, all, id));
        lemma_kept_drops(rules, all, all, id);
    }
    lemma_tallies_record(rules, all, k);
}

/// A file offered to a scan: its path, its bare file name, and its text, or
/// `None` when it could not be read as text.
#[derive(Debug)]
pub struct SourceFile {
    pub path: String,
    pub name: String,
    pub content: Option<String>,
}

/// A path met while enumerating targets: the path, the path relative to the
/// target it was found under, and whether it was named as a target itself.
#[derive(Debug)]
pub struct Candidate {
    pub path: String,
    pub relative: String,
    pub explicit: bool,
}

/// Whether rule `r` runs on the file `path` with bare name `name`: a rule
/// with no glob runs on every file, one with a glob on files whose path or
/// name it matches.
pub open spec fn applies_to(r: RuleView, path: Seq<char>, name: Seq<char>) -> bool {
    match r.glob() {
        None => true,
        Some(g) => glob_matches(g, path) || glob_matches(g, name),
    }
}

/// Whether some glob of the patterns `excludes` matches `rel`.
pub open spec fn excluded_by(excludes: Seq<Seq<char>>, rel: Seq<char>) -> bool {
    exists|i: int| 0 <= i < excludes.len() && glob_matches(#[trigger] excludes[i], rel)
}

/// The paths of the candidates that a scan takes: those named as targets,
/// and those found under a target whose relative path no exclude matches.
pub open spec fn selected(excludes: Seq<Seq<char>>, cs: Seq<Candidate>) -> Seq<Seq<char>>
    decreases cs.len(),
{
    if cs.len() == 0 {
        Seq::empty()
    } else if cs.last().explicit || !excluded_by(excludes, cs.last().relative@) {
        selected(excludes, cs.drop_last()).push(cs.last().path@)
    } else {
        selected(excludes, cs.drop_last())
    }
}

/// How many of the files could be read.
pub open spec fn readable_count(files: Seq<SourceFile>) -> nat
    decreases files.len(),
{
    if files.len() == 0 {
        0
    } else {
        readable_count(files.drop_last()) + if files.last().content is Some {
            1nat
        } else {
            0nat
        }
    }
}

/// `row` holds, rule by rule, what each rule reported on `file`: nothing for
/// an unreadable file or a rule that does not apply to it.
pub open spec fn file_row(rules: Seq<RuleView>, file: SourceFile, row: Seq<Seq<ViolationView>>) -> bool {
    &&& row.len() == rules.len()
    &&& forall|k: int|
        0 <= k < rules.len() ==> if file.content is Some && applies_to(
            rules[k],
            file.path@,
            file.name@,
        ) {
            (#[trigger] rules[k]).reports(file.path@, file.content->0@, row[k])
        } else {
            row[k] == Seq::<ViolationView>::empty()
        }
}

/// All reports, by file and then by rule.
pub open spec fn flat(outs: Seq<Seq<Seq<ViolationView>>>) -> Seq<ViolationView> {
    outs.map_values(|row: Seq<Seq<ViolationView>>| row.flatten()).flatten()
}

proof fn lemma_flatten_empties(row: Seq<Seq<ViolationView>>)
    requires
        forall|j: int| 0 <= j < row.len() ==> #[trigger] row[j] == Seq::<ViolationView>::empty(),
    ensures
        row.flatten() == Seq::<ViolationView>::empty(),
    decreases row.len(),
{
    if row.len() > 0 {
        lemma_flatten_empties(row.drop_first());
        assert(row.first() == Seq::<ViolationView>::empty());
        assert(row.flatten() =~= row.first() + row.drop_first().flatten());
    }
}

/// Whether the entry has a non-empty pattern.
pub open spec fn has_pattern(t: TomlRule) -> bool {
    t.pattern is Some && t.pattern->0@.len() > 0
}

/// Whether a rule can be built from the entry: a known type tag, a
/// non-empty pattern, a budget, a regex that compiles in regex mode, and a
/// valid glob if it has one.
pub open spec fn decl_ok(t: TomlRule) -> bool {
    &&& t.rule_type@ == ratchet_tag()
    &&& has_pattern(t)
    &&& t.max_count is Some
    &&& t.regex ==> regex_valid(t.pattern->0@)
    &&& (t.glob matches Some(g) ==> glob_valid(g@) && set_builds(seq![g@]))
}

/// `e` is the error for an entry from which no rule can be built: the first
/// of unknown type tag, missing pattern, missing budget, invalid regex,
/// invalid glob.
pub open spec fn decl_error(t: TomlRule, e: ScanError) -> bool {
    if t.rule_type@ != ratchet_tag() {
        e matches ScanError::RuleFactory(FactoryError::UnknownRuleType(x)) && x@ == t.rule_type@
    } else if !has_pattern(t) {
        e matches ScanError::RuleFactory(FactoryError::BuildError(b)) && b.is_missing_field(
            t.id@,
            "pattern"@,
        )
    } else if t.max_count is None {
        e matches ScanError::RuleFactory(FactoryError::BuildError(b)) && b.is_missing_field(
            t.id@,
            "max_count"@,
        )
    } else if t.regex && !regex_valid(t.pattern->0@) {
        e matches ScanError::RuleFactory(FactoryError::BuildError(b)) && b.is_invalid_regex(t.id@)
    } else {
        t.glob matches Some(g) && glob_set_error(seq![g@], e)
    }
}

/// The rule built from an entry that builds.
pub open spec fn decl_view(t: TomlRule) -> RuleView {
    RuleView::Ratchet(
        RatchetView {
            id: t.id@,
            severity: if lower_of(t.severity@) == "error"@ {
                Severity::Error
            } else {
                Severity::Warning
            },
            message: t.message@,
            suggest: opt_view(t.suggest),
            glob: opt_view(t.glob),
            pattern: t.pattern->0@,
            max_count: t.max_count->0,
            regex: t.regex,
        },
    )
}

/// `gs` holds, rule by rule, the compiled glob of each rule that has one.
pub open spec fn globs_of(rules: Seq<RuleView>, gs: Seq<Option<globset::GlobSet>>) -> bool {
    &&& gs.len() == rules.len()
    &&& forall|k: int|
        0 <= k < rules.len() ==> match (#[trigger] rules[k]).glob() {
            None => gs[k] is None,
            Some(g) => gs[k] matches Some(set) && set_globs(set) == seq![g],
        }
}

/// Compiles one rule's glob into a set of its own.
fn build_rule_glob(g: &str) -> (r: Result<globset::GlobSet, ScanError>)
    ensures
        r is Ok <==> glob_valid(g@) && set_builds(seq![g@]),
        r matches Ok(s) ==> set_globs(s) == seq![g@],
        r matches Err(e) ==> glob_set_error(seq![g@], e),
{
    let v: Vec<String> = vec![String::from_str(g)];
    assert(glob_list(v@) =~= seq![g@]);
    build_glob_set(&v)
}

/// Builds the rules of the entries in order, with their compiled globs,
/// stopping at the first entry that fails.
pub fn build_rules(decls: &Vec<TomlRule>) -> (r: Result<(Vec<Rule>, Vec<Option<globset::GlobSet>>), ScanError>)
    ensures
        r is Ok <==> forall|i: int| 0 <= i < decls@.len() ==> decl_ok(#[trigger] decls@[i]),
        r matches Ok(v) ==> rule_views(v.0@) == decls@.map_values(|t: TomlRule| decl_view(t))
            && globs_of(rule_views(v.0@), v.1@),
        r matches Err(e) ==> exists|k: int|
            0 <= k < decls@.len() && !decl_ok(#[trigger] decls@[k]) && decl_error(decls@[k], e)
                && forall|i: int| 0 <= i < k ==> decl_ok(#[trigger] decls@[i]),
{
    let mut rules: Vec<Rule> = Vec::new();
    let mut globs: Vec<Option<globset::GlobSet>> = Vec::new();
    let mut i: usize = 0;
    while i < decls.len()
        invariant
            i <= decls@.len(),
            forall|j: int| 0 <= j < i ==> decl_ok(#[trigger] decls@[j]),
            rule_views(rules@) == decls@.subrange(0, i as int).map_values(|t: TomlRule| decl_view(t)),
            globs_of(rule_views(rules@), globs@),
        decreases decls@.len() - i,
    {
        let t = &decls[i];
        let config = t.to_rule_config();
        let rule = match build_rule(t.rule_type.as_str(), &config) {
            Ok(rule) => rule,
            Err(e) => {
                let err = ScanError::RuleFactory(e);
                assert(decl_error(*t, err));
                return Err(err);
            },
        };
        let glob = match rule.file_glob() {
            Some(g) => match build_rule_glob(g) {
                Ok(set) => Some(set),
                Err(e) => {
                    assert(decl_error(*t, e));
                    return Err(e);
                },
            },
            None => None,
        };
        let ghost prev = rules@;
        let ghost prev_globs = globs@;
        rules.push(rule);
        globs.push(glob);
        proof {
            assert(decls@.subrange(0, i + 1) =~= decls@.subrange(0, i as int).push(*t));
            assert(rule_views(rules@) =~= rule_views(prev).push(decl_view(*t)));
            assert(decls@.subrange(0, i + 1).map_values(|t: TomlRule| decl_view(t)) =~= decls@.subrange(0, i as int).map_values(|t: TomlRule| decl_view(t)).push(decl_view(*t)));
            assert forall|k: int| 0 <= k < rules@.len() implies match (#[trigger] rule_views(rules@)[k]).glob() {
                None => globs@[k] is None,
                Some(g) => globs@[k] matches Some(set) && set_globs(set) == seq![g],
            } by {
                if k < i {
                    assert(rule_views(rules@)[k] == rule_views(prev)[k]);
                    assert(globs@[k] == prev_globs[k]);
                }
            }
        }
        i = i + 1;
    }
    assert(decls@.subrange(0, i as int) =~= decls@);
    Ok((rules, globs))
}

/// The rules and excludes of one scan, checked and built.
#[derive(Debug)]
pub struct ScanPlan {
    excludes: globset::GlobSet,
    rules: Vec<Rule>,
    rule_globs: Vec<Option<globset::GlobSet>>,
}

impl ScanPlan {
    /// Each rule's glob, if it has one, is held compiled beside it.
    pub closed spec fn wf(&self) -> bool {
        globs_of(rule_views(self.rules@), self.rule_globs@)
    }

    /// The exclude patterns.
    pub closed spec fn spec_excludes(&self) -> Seq<Seq<char>> {
        set_globs(self.excludes)
    }

    /// The rules, in the order declared.
    pub closed spec fn spec_rules(&self) -> Seq<RuleView> {
        rule_views(self.rules@)
    }

    /// Compiles the exclude patterns, then builds the rules, stopping at the
    /// first failure.
    pub fn prepare(config: &TomlConfig) -> (r: Result<ScanPlan, ScanError>)
        ensures
            r is Ok <==> (forall|i: int|
                0 <= i < config.guardrails.exclude@.len() ==> glob_valid(
                    #[trigger] config.guardrails.exclude@[i]@,
                )) && set_builds(glob_list(config.guardrails.exclude@)) && (forall|i: int|
                0 <= i < config.rule@.len() ==> decl_ok(#[trigger] config.rule@[i])),
            r matches Ok(plan) ==> plan.wf() && plan.spec_excludes() == glob_list(config.guardrails.exclude@)
                && plan.spec_rules() == config.rule@.map_values(|t: TomlRule| decl_view(t)),
            r matches Err(e) ==> glob_set_error(glob_list(config.guardrails.exclude@), e)
                || ((forall|i: int|
                0 <= i < config.guardrails.exclude@.len() ==> glob_valid(
                    #[trigger] config.guardrails.exclude@[i]@,
                )) && set_builds(glob_list(config.guardrails.exclude@)) && exists|k: int|
                0 <= k < config.rule@.len() && !decl_ok(#[trigger] config.rule@[k]) && decl_error(config.rule@[k], e)
                    && forall|i: int| 0 <= i < k ==> decl_ok(#[trigger] config.rule@[i])),
    {
        let excludes = match build_glob_set(&config.guardrails.exclude) {
            Ok(set) => set,
            Err(e) => {
                return Err(e);
            },
        };
        let (rules, rule_globs) = match build_rules(&config.rule) {
            Ok(built) => built,
            Err(e) => {
                return Err(e);
            },
        };
        Ok(ScanPlan { excludes, rules, rule_globs })
    }

    /// How many rules were built.
    pub fn rules_loaded(&self) -> (r: usize)
        ensures
            r == self.spec_rules().len(),
    {
        self.rules.len()
    }

    /// Whether an exclude pattern matches the relative path `rel`.
    pub fn is_excluded(&self, rel: &str) -> (r: bool)
        ensures
            r == excluded_by(self.spec_excludes(), rel@),
    {
        set_is_match(&self.excludes, rel)
    }

    /// The paths to scan among `cands`, in order: every named target, and
    /// every path found under a target that no exclude pattern matches.
    pub fn select_files(&self, cands: &Vec<Candidate>) -> (r: Vec<String>)
        ensures
            r@.map_values(|p: String| p@) == selected(self.spec_excludes(), cands@),
    {
        let mut r: Vec<String> = Vec::new();
        let mut i: usize = 0;
        while i < cands.len()
            invariant
                i <= cands@.len(),
                r@.map_values(|p: String| p@) == selected(self.spec_excludes(), cands@.subrange(0, i as int)),
            decreases cands@.len() - i,
        {
            proof {
                assert(cands@.subrange(0, i + 1).drop_last() =~= cands@.subrange(0, i as int));
            }
            let c = &cands[i];
            if c.explicit || !self.is_excluded(c.relative.as_str()) {
                let ghost prev = r@;
                r.push(c.path.clone());
                proof {
                    assert(r@.map_values(|p: String| p@) =~= prev.map_values(|p: String| p@).push(c.path@));
                }
            }
            i = i + 1;
        }
        assert(cands@.subrange(0, i as int) =~= cands@);
        r
    }

    /// Runs every applicable rule on every readable file, then settles the
    /// budgets. Reports come by file in the order given, then by rule; an
    /// unreadable file is skipped and not counted.
    pub fn scan(&self, files: &Vec<SourceFile>) -> (r: ScanResult)
        requires
            self.wf(),
        ensures
            r.files_scanned == readable_count(files@),
            r.rules_loaded == self.spec_rules().len(),
            exists|outs: Seq<Seq<Seq<ViolationView>>>|
                outs.len() == files@.len() && (forall|f: int|
                    0 <= f < files@.len() ==> file_row(self.spec_rules(), #[trigger] files@[f], outs[f]))
                    && views(r.violations@) == kept(self.spec_rules(), flat(outs), flat(outs))
                    && tally_views(r.ratchet_counts@) == tallies(self.spec_rules(), flat(outs)),
    {
        let ghost rv = self.spec_rules();
        let mut all: Vec<Violation> = Vec::new();
        let ghost mut outs: Seq<Seq<Seq<ViolationView>>> = Seq::empty();
        let mut scanned: usize = 0;
        let mut f: usize = 0;
        while f < files.len()
            invariant
                self.wf(),
                rv == self.spec_rules(),
                f <= files@.len(),
                scanned <= f,
                scanned == readable_count(files@.subrange(0, f as int)),
                outs.len() == f,
                forall|j: int| 0 <= j < f ==> file_row(rv, #[trigger] files@[j], outs[j]),
                views(all@) == flat(outs),
            decreases files@.len() - f,
        {
            proof {
                assert(files@.subrange(0, f + 1).drop_last() =~= files@.subrange(0, f as int));
            }
            let file = &files[f];
            let ghost mut row: Seq<Seq<ViolationView>> = Seq::empty();
            let ghost start = all@;
            match &file.content {
                Some(content) => {
                    scanned = scanned + 1;
                    let ctx = ScanContext { file_path: file.path.as_str(), content: content.as_str() };
                    let mut k: usize = 0;
                    while k < self.rules.len()
                        invariant
                            self.wf(),
                            rv == self.spec_rules(),
                            k <= rv.len(),
                            file.content == Some(*content),
                            ctx.file_path@ == file.path@,
                            ctx.content@ == content@,
                            row.len() == k,
                            forall|j: int|
                                0 <= j < k ==> if applies_to(rv[j], file.path@, file.name@) {
                                    (#[trigger] rv[j]).reports(file.path@, content@, row[j])
                                } else {
                                    row[j] == Seq::<ViolationView>::empty()
                                },
                            views(all@) == views(start) + row.flatten(),
                        decreases rv.len() - k,
                    {
                        let ghost before = all@;
                        if self.applies(k, file.path.as_str(), file.name.as_str()) {
                            let mut found = self.rules[k].check_file(&ctx);
                            let ghost got = views(found@);
                            all.append(&mut found);
                            proof {
                                row.lemma_flatten_push(got);
                                row = row.push(got);
                                assert(views(all@) =~= views(before) + got);
                            }
                        } else {
                            proof {
                                row.lemma_flatten_push(Seq::<ViolationView>::empty());
                                row = row.push(Seq::<ViolationView>::empty());
                            }
                        }
                        k = k + 1;
                    }
                },
                None => {
                    proof {
                        row = Seq::new(rv.len(), |i: int| Seq::<ViolationView>::empty());
                        assert forall|j: int| 0 <= j < row.len() implies #[trigger] row[j] == Seq::<ViolationView>::empty() by {}
                        assert(row.flatten() =~= Seq::<ViolationView>::empty()) by {
                            lemma_flatten_empties(row);
                        }
                        assert(views(all@) =~= views(start) + row.flatten());
                    }
                },
            }
            proof {
                let rows = |o: Seq<Seq<ViolationView>>| o.flatten();
                outs.map_values(rows).lemma_flatten_push(row.flatten());
                assert(outs.push(row).map_values(rows) =~= outs.map_values(rows).push(row.flatten()));
                outs = outs.push(row);
                assert(file_row(rv, files@[f as int], row));
            }
            f = f + 1;
        }
        proof {
            assert(files@.subrange(0, f as int) =~= files@);
        }
        let (violations, ratchet_counts) = resolve_ratchets(&self.rules, all);
        ScanResult { violations, files_scanned: scanned, rules_loaded: self.rules.len(), ratchet_counts }
    }

    /// Whether rule `k` runs on the file `path` with bare name `name`.
    pub fn applies(&self, k: usize, path: &str, name: &str) -> (r: bool)
        requires
            self.wf(),
            k < self.spec_rules().len(),
        ensures
            r == applies_to(self.spec_rules()[k as int], path@, name@),
    {
        proof {
            assert(globs_of(rule_views(self.rules@), self.rule_globs@));
            assert(rule_views(self.rules@)[k as int] == self.rules@[k as int]@);
        }
        match &self.rule_globs[k] {
            None => true,
            Some(set) => {
                let ghost g = self.rules@[k as int]@.glob()->0;
                assert(set_globs(*set) == seq![g]);
                let a = set_is_match(set, path);
                let b = set_is_match(set, name);
                assert(a == glob_matches(g, path@)) by {
                    if glob_matches(g, path@) {
                        assert(glob_matches(set_globs(*set)[0], path@));
                    }
                }
                assert(b == glob_matches(g, name@)) by {
                    if glob_matches(g, name@) {
                        assert(glob_matches(set_globs(*set)[0], name@));
                    }
                }
                a || b
            },
        }
    }
}

} // verus!
