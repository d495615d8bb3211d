use vstd::prelude::*;
use crate::config::RuleConfig;
use crate::ratchet::{new_post, RatchetRule};
use crate::rules::{Rule, RuleBuildError};

verus! {

/// Why a rule could not be made from a type tag and a configuration.
#[derive(Debug)]
pub enum FactoryError {
    /// No rule kind has this type tag.
    UnknownRuleType(String),
    /// The rule kind refused the configuration.
    BuildError(RuleBuildError),
}

impl From<RuleBuildError> for FactoryError {
    fn from(e: RuleBuildError) -> (r: Self)
        ensures
            r == FactoryError::BuildError(e),
    {
        FactoryError::BuildError(e)
    }
}

impl vstd::std_specs::convert::FromSpecImpl<RuleBuildError> for FactoryError {
    open spec fn obeys_from_spec() -> bool {
        true
    }

    open spec fn from_spec(e: RuleBuildError) -> Self {
        FactoryError::BuildError(e)
    }
}

impl FactoryError {
    /// The one-line description of the error.
    pub open spec fn spec_message(&self) -> Seq<char> {
        match self {
            FactoryError::UnknownRuleType(t) => "unknown rule type: '"@ + t@ + "'"@,
            FactoryError::BuildError(e) => e.spec_message(),
        }
    }

    /// A one-line description of the error.
    pub fn message(&self) -> (r: String)
        ensures
            r@ == self.spec_message(),
    {
        match self {
            FactoryError::UnknownRuleType(t) => {
                let mut s = String::from_str("unknown rule type: '");
                s.append(t.as_str());
                s.append("'");
                s
            },
            FactoryError::BuildError(e) => e.message(),
        }
    }
}

/// The type tag of budgeted pattern rules.
pub open spec fn ratchet_tag() -> Seq<char> {
    "ratchet"@
}

/// Builds a rule from its type tag and configuration.
///
/// `ratchet` builds a [`RatchetRule`]; its construction errors come back
/// wrapped. Any other tag is unknown.
pub fn build_rule(rule_type: &str, config: &RuleConfig) -> (r: Result<Rule, FactoryError>)
    ensures
        rule_type@ != ratchet_tag() ==> (r matches Err(FactoryError::UnknownRuleType(t)) && t@
            == rule_type@),
        rule_type@ == ratchet_tag() ==> match r {
            Ok(Rule::Ratchet(x)) => new_post(*config, Ok(x)),
            Err(FactoryError::BuildError(e)) => new_post(*config, Err(e)),
            _ => false,
        },
{
    let tag = String::from_str("ratchet");
    let given = String::from_str(rule_type);
    if given == tag {
        match RatchetRule::new(config) {
            Ok(x) => Ok(Rule::Ratchet(x)),
            Err(e) => Err(FactoryError::from(e)),
        }
    } else {
        Err(FactoryError::UnknownRuleType(given))
    }
}

} // verus!
