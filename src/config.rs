use vstd::prelude::*;

verus! {

/// Severity level for a rule violation.
#[derive(Debug, Clone, Copy, PartialEq, Eq, Structural)]
pub enum Severity {
    Error,
    Warning,
}

/// View of an optional string as an optional sequence of characters.
pub open spec fn opt_view(o: Option<String>) -> Option<Seq<char>> {
    match o {
        Some(s) => Some(s@),
        None => None,
    }
}

/// Clones an optional string, keeping its contents.
pub fn clone_opt(o: &Option<String>) -> (r: Option<String>)
    ensures
        r == *o,
{
    match o {
        Some(s) => Some(s.clone()),
        None => None,
    }
}

/// Clones a list of strings, keeping its contents.
pub fn clone_strings(v: &Vec<String>) -> (r: Vec<String>)
    ensures
        r@ == v@,
{
    let mut r: Vec<String> = Vec::new();
    let mut i: usize = 0;
    while i < v.len()
        invariant
            i <= v.len(),
            r@ == v@.subrange(0, i as int),
        decreases v.len() - i,
    {
        r.push(v[i].clone());
        i = i + 1;
    }
    assert(r@ =~= v@);
    r
}

/// Configuration of one rule.
#[derive(Debug, Clone)]
pub struct RuleConfig {
    pub id: String,
    pub severity: Severity,
    pub message: String,
    pub suggest: Option<String>,
    pub glob: Option<String>,
    /// Classes exempt from enforcement.
    pub allowed_classes: Vec<String>,
    /// Token mappings of the form `"raw-class=semantic-class"`.
    pub token_map: Vec<String>,
    /// Pattern to search for.
    pub pattern: Option<String>,
    /// Maximum allowed occurrences, for budgeted rules.
    pub max_count: Option<usize>,
    /// Banned package names.
    pub packages: Vec<String>,
    /// Whether `pattern` is a regular expression rather than a literal.
    pub regex: bool,
    /// Manifest file name to inspect.
    pub manifest: Option<String>,
}

impl Default for RuleConfig {
    fn default() -> (r: Self)
        ensures
            r.id@ == Seq::<char>::empty(),
            r.severity == Severity::Warning,
            r.message@ == Seq::<char>::empty(),
            r.suggest is None,
            r.glob is None,
            r.allowed_classes@ == Seq::<String>::empty(),
            r.token_map@ == Seq::<String>::empty(),
            r.pattern is None,
            r.max_count is None,
            r.packages@ == Seq::<String>::empty(),
            !r.regex,
            r.manifest is None,
    {
        RuleConfig {
            id: String::new(),
            severity: Severity::Warning,
            message: String::new(),
            suggest: None,
            glob: None,
            allowed_classes: Vec::new(),
            token_map: Vec::new(),
            pattern: None,
            max_count: None,
            packages: Vec::new(),
            regex: false,
            manifest: None,
        }
    }
}

} // verus!
