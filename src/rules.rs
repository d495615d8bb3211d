use vstd::prelude::*;
use crate::config::{clone_opt, opt_view, Severity};
use crate::ratchet::{reports_of, RatchetRule, RatchetView};

verus! {

/// One reported instance of a rule's condition at a place in a file.
#[derive(Debug, Clone)]
pub struct Violation {
    pub rule_id: String,
    pub severity: Severity,
    pub file: String,
    /// 1-indexed line number.
    pub line: Option<usize>,
    /// 1-indexed column: byte offset in the line plus one.
    pub column: Option<usize>,
    pub message: String,
    pub suggest: Option<String>,
    pub source_line: Option<String>,
    pub fix: Option<String>,
}

/// A violation with its text fields seen as character sequences.
pub struct ViolationView {
    pub rule_id: Seq<char>,
    pub severity: Severity,
    pub file: Seq<char>,
    pub line: Option<usize>,
    pub column: Option<usize>,
    pub message: Seq<char>,
    pub suggest: Option<Seq<char>>,
    pub source_line: Option<Seq<char>>,
    pub fix: Option<Seq<char>>,
}

impl View for Violation {
    type V = ViolationView;

    open spec fn view(&self) -> ViolationView {
        ViolationView {
            rule_id: self.rule_id@,
            severity: self.severity,
            file: self.file@,
            line: self.line,
            column: self.column,
            message: self.message@,
            suggest: opt_view(self.suggest),
            source_line: opt_view(self.source_line),
            fix: opt_view(self.fix),
        }
    }
}

impl Violation {
    /// A copy of this violation.
    pub fn clone_violation(&self) -> (r: Violation)
        ensures
            r@ == self@,
    {
        Violation {
            rule_id: self.rule_id.clone(),
            severity: self.severity,
            file: self.file.clone(),
            line: self.line,
            column: self.column,
            message: self.message.clone(),
            suggest: clone_opt(&self.suggest),
            source_line: clone_opt(&self.source_line),
            fix: clone_opt(&self.fix),
        }
    }
}

/// The views of a list of violations.
pub open spec fn views(v: Seq<Violation>) -> Seq<ViolationView> {
    v.map_values(|x: Violation| x@)
}

/// The file a rule is checking: its path and its text.
pub struct ScanContext<'a> {
    pub file_path: &'a str,
    pub content: &'a str,
}

/// A rule of one of the known kinds.
#[derive(Debug)]
pub enum Rule {
    /// A pattern counted against a budget.
    Ratchet(RatchetRule),
}

/// What a rule is.
pub enum RuleView {
    Ratchet(RatchetView),
}

impl View for Rule {
    type V = RuleView;

    open spec fn view(&self) -> RuleView {
        match self {
            Rule::Ratchet(r) => RuleView::Ratchet(r@),
        }
    }
}

impl RuleView {
    pub open spec fn id(self) -> Seq<char> {
        match self {
            RuleView::Ratchet(r) => r.id,
        }
    }

    pub open spec fn glob(self) -> Option<Seq<char>> {
        match self {
            RuleView::Ratchet(r) => r.glob,
        }
    }

    /// The occurrence budget, for a rule whose reports are kept or dropped
    /// together over a whole scan.
    pub open spec fn budget(self) -> Option<usize> {
        match self {
            RuleView::Ratchet(r) => Some(r.max_count),
        }
    }

    /// `out` is what checking `content` of `file` against this rule reports.
    pub open spec fn reports(self, file: Seq<char>, content: Seq<char>, out: Seq<ViolationView>) -> bool {
        match self {
            RuleView::Ratchet(r) => reports_of(r, file, content, out),
        }
    }
}

impl Rule {
    /// The rule's id.
    pub fn id(&self) -> (r: &str)
        ensures
            r@ == self@.id(),
    {
        match self {
            Rule::Ratchet(r) => r.id(),
        }
    }

    /// The severity of the rule's violations.
    pub fn severity(&self) -> (r: Severity)
        ensures
            self matches Rule::Ratchet(x) ==> r == x@.severity,
    {
        match self {
            Rule::Ratchet(r) => r.severity(),
        }
    }

    /// The glob that limits the files the rule applies to, if any.
    pub fn file_glob(&self) -> (r: Option<&str>)
        ensures
            r matches Some(g) ==> self@.glob() == Some(g@),
            r is None ==> self@.glob() is None,
    {
        match self {
            Rule::Ratchet(r) => r.file_glob(),
        }
    }

    /// The occurrence budget of a budgeted rule.
    pub fn budget(&self) -> (r: Option<usize>)
        ensures
            r == self@.budget(),
    {
        match self {
            Rule::Ratchet(r) => Some(r.max_count()),
        }
    }

    /// The violations the rule finds in one file, in order.
    pub fn check_file(&self, ctx: &ScanContext) -> (r: Vec<Violation>)
        ensures
            self@.reports(ctx.file_path@, ctx.content@, views(r@)),
    {
        match self {
            Rule::Ratchet(r) => r.check_file(ctx),
        }
    }
}

/// Why a rule could not be built from its configuration.
#[derive(Debug)]
pub enum RuleBuildError {
    /// A required field is absent: the rule id and the field name.
    MissingField(String, &'static str),
    /// The pattern is not a valid regular expression: the rule id and the cause.
    InvalidRegex(String, regex::Error),
}

impl RuleBuildError {
    /// Whether this is the error for rule `id` lacking the field `field`.
    pub open spec fn is_missing_field(&self, id: Seq<char>, field: Seq<char>) -> bool {
        match self {
            RuleBuildError::MissingField(i, f) => i@ == id && f@ == field,
            _ => false,
        }
    }

    /// Whether this is the error for rule `id` having a pattern that does not compile.
    pub open spec fn is_invalid_regex(&self, id: Seq<char>) -> bool {
        match self {
            RuleBuildError::InvalidRegex(i, _) => i@ == id,
            _ => false,
        }
    }

    /// The one-line description of the error.
    pub open spec fn spec_message(&self) -> Seq<char> {
        match self {
            RuleBuildError::MissingField(id, field) => "rule '"@ + id@ + "': missing required field '"@
                + field@ + "'"@,
            RuleBuildError::InvalidRegex(id, _) => "rule '"@ + id@ + "': invalid regex pattern"@,
        }
    }

    /// A one-line description of the error.
    pub fn message(&self) -> (r: String)
        ensures
            r@ == self.spec_message(),
    {
        match self {
            RuleBuildError::MissingField(id, field) => {
                let mut s = String::from_str("rule '");
                s.append(id.as_str());
                s.append("': missing required field '");
                s.append(field);
                s.append("'");
                s
            },
            RuleBuildError::InvalidRegex(id, _) => {
                let mut s = String::from_str("rule '");
                s.append(id.as_str());
                s.append("': invalid regex pattern");
                s
            },
        }
    }
}

} // verus!
