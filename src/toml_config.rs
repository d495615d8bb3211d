use vstd::prelude::*;
use crate::config::{clone_opt, clone_strings, RuleConfig, Severity};

verus! {

/// The whole configuration file.
#[derive(Debug)]
pub struct TomlConfig {
    pub guardrails: GuardrailsSection,
    pub rule: Vec<TomlRule>,
}

/// The `[guardrails]` section.
#[derive(Debug)]
pub struct GuardrailsSection {
    pub name: Option<String>,
    /// Paths to scan when none is given; advisory.
    pub included: Vec<String>,
    pub exclude: Vec<String>,
}

/// A single `[[rule]]` entry.
#[derive(Debug)]
pub struct TomlRule {
    pub id: String,
    pub rule_type: String,
    pub severity: String,
    pub glob: Option<String>,
    pub message: String,
    pub suggest: Option<String>,
    pub allowed_classes: Vec<String>,
    pub token_map: Vec<String>,
    pub pattern: Option<String>,
    pub max_count: Option<usize>,
    pub regex: bool,
    pub packages: Vec<String>,
    pub manifest: Option<String>,
}

/// The severity a rule gets when its entry names none.
pub fn default_severity() -> (r: String)
    ensures
        r@ == "warning"@,
{
    String::from_str("warning")
}

/// What `str::to_lowercase` returns for `s`.
pub uninterp spec fn lower_of(s: Seq<char>) -> Seq<char>;

/// Relies on `str::to_lowercase`: the result depends on the characters alone.
#[verifier::external_body]
fn lowercase(s: &str) -> (r: String)
    ensures
        r@ == lower_of(s@),
{
    s.to_lowercase()
}

/// The severity that a lowercased severity name stands for: `error` is an
/// error, anything else a warning.
pub fn severity_from_lowercase(s: &str) -> (r: Severity)
    ensures
        r == (if s@ == "error"@ {
            Severity::Error
        } else {
            Severity::Warning
        }),
{
    let given = String::from_str(s);
    let error = String::from_str("error");
    if given == error {
        Severity::Error
    } else {
        Severity::Warning
    }
}

impl TomlRule {
    /// The rule configuration this entry describes. The severity name is
    /// read without regard to case.
    pub fn to_rule_config(&self) -> (r: RuleConfig)
        ensures
            r.id == self.id,
            r.severity == (if lower_of(self.severity@) == "error"@ {
                Severity::Error
            } else {
                Severity::Warning
            }),
            r.message == self.message,
            r.suggest == self.suggest,
            r.glob == self.glob,
            r.allowed_classes@ == self.allowed_classes@,
            r.token_map@ == self.token_map@,
            r.pattern == self.pattern,
            r.max_count == self.max_count,
            r.packages@ == self.packages@,
            r.regex == self.regex,
            r.manifest == self.manifest,
    {
        let lowered = lowercase(self.severity.as_str());
        let severity = severity_from_lowercase(lowered.as_str());
        RuleConfig {
            id: self.id.clone(),
            severity,
            message: self.message.clone(),
            suggest: clone_opt(&self.suggest),
            glob: clone_opt(&self.glob),
            allowed_classes: clone_strings(&self.allowed_classes),
            token_map: clone_strings(&self.token_map),
            pattern: clone_opt(&self.pattern),
            max_count: self.max_count,
            packages: clone_strings(&self.packages),
            regex: self.regex,
            manifest: clone_opt(&self.manifest),
        }
    }
}

} // verus!
