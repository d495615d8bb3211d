use guardrails::config::{RuleConfig, Severity};
use guardrails::factory::{build_rule, FactoryError};
use guardrails::rules::{Rule, RuleBuildError, Violation};
use guardrails::scan::{
    build_glob_set, build_rules, resolve_ratchets, Candidate, ScanError, ScanPlan, SourceFile,
};
use guardrails::toml_config::{
    default_severity, severity_from_lowercase, GuardrailsSection, TomlConfig, TomlRule,
};

fn toml_rule(id: &str, pattern: &str, max_count: usize) -> TomlRule {
    TomlRule {
        id: id.to_string(),
        rule_type: "ratchet".to_string(),
        severity: default_severity(),
        glob: None,
        message: "found it".to_string(),
        suggest: None,
        allowed_classes: Vec::new(),
        token_map: Vec::new(),
        pattern: Some(pattern.to_string()),
        max_count: Some(max_count),
        regex: false,
        packages: Vec::new(),
        manifest: None,
    }
}

fn config_with(rules: Vec<TomlRule>, exclude: Vec<&str>) -> TomlConfig {
    TomlConfig {
        guardrails: GuardrailsSection {
            name: None,
            included: Vec::new(),
            exclude: exclude.into_iter().map(|s| s.to_string()).collect(),
        },
        rule: rules,
    }
}

fn source(path: &str, content: Option<&str>) -> SourceFile {
    let name = path.rsplit('/').next().unwrap().to_string();
    SourceFile { path: path.to_string(), name, content: content.map(|c| c.to_string()) }
}

#[test]
fn end_to_end_under_budget_suppresses_all() {
    let config = config_with(vec![toml_rule("rule-id", "TODO", 5)], vec![]);
    let plan = ScanPlan::prepare(&config).unwrap();
    let files = vec![source("src/a.ts", Some("// TODO fix this TODO and that TODO"))];
    let result = plan.scan(&files);
    assert!(result.violations.is_empty());
    assert_eq!(result.ratchet_count("rule-id"), Some((3, 5)));
    assert_eq!(result.files_scanned, 1);
    assert_eq!(result.rules_loaded, 1);
}

#[test]
fn end_to_end_over_budget_keeps_all() {
    let config = config_with(vec![toml_rule("rule-id", "TODO", 2)], vec![]);
    let plan = ScanPlan::prepare(&config).unwrap();
    let files = vec![source("src/a.ts", Some("// TODO fix this TODO and that TODO"))];
    let result = plan.scan(&files);
    let cols: Vec<Option<usize>> = result.violations.iter().map(|v| v.column).collect();
    assert_eq!(cols, vec![Some(4), Some(18), Some(32)]);
    assert_eq!(result.ratchet_count("rule-id"), Some((3, 2)));
}

#[test]
fn budget_counts_across_files_and_unreadable_files_are_skipped() {
    let config = config_with(vec![toml_rule("r", "x", 2)], vec![]);
    let plan = ScanPlan::prepare(&config).unwrap();
    let files = vec![source("a", Some("x")), source("bin", None), source("b", Some("x x"))];
    let result = plan.scan(&files);
    assert_eq!(result.files_scanned, 2);
    assert_eq!(result.ratchet_count("r"), Some((3, 2)));
    let files: Vec<&str> = result.violations.iter().map(|v| v.file.as_str()).collect();
    assert_eq!(files, vec!["a", "b", "b"]);
}

#[test]
fn zero_found_is_recorded() {
    let config = config_with(vec![toml_rule("r", "x", 0), toml_rule("s", "y", 0)], vec![]);
    let plan = ScanPlan::prepare(&config).unwrap();
    let result = plan.scan(&vec![source("a", Some("yy"))]);
    assert_eq!(result.ratchet_counts.len(), 2);
    assert_eq!(result.ratchet_count("r"), Some((0, 0)));
    assert_eq!(result.ratchet_count("s"), Some((2, 0)));
    assert_eq!(result.violations.len(), 2);
    assert_eq!(result.ratchet_count("t"), None);
}

#[test]
fn violations_ordered_by_file_then_rule() {
    let config = config_with(vec![toml_rule("r1", "b", 0), toml_rule("r2", "a", 0)], vec![]);
    let plan = ScanPlan::prepare(&config).unwrap();
    let result = plan.scan(&vec![source("f1", Some("ab")), source("f2", Some("ba"))]);
    let order: Vec<(String, String)> =
        result.violations.iter().map(|v| (v.file.clone(), v.rule_id.clone())).collect();
    let expect = vec![("f1", "r1"), ("f1", "r2"), ("f2", "r1"), ("f2", "r2")];
    let expect: Vec<(String, String)> =
        expect.into_iter().map(|(a, b)| (a.to_string(), b.to_string())).collect();
    assert_eq!(order, expect);
}

#[test]
fn rule_glob_matches_path_or_name() {
    let mut rule = toml_rule("r", "x", 0);
    rule.glob = Some("*.ts".to_string());
    let plan = ScanPlan::prepare(&config_with(vec![rule], vec![])).unwrap();
    assert!(plan.applies(0, "src/deep/a.ts", "a.ts"));
    assert!(!plan.applies(0, "src/a.rs", "a.rs"));
    let result = plan.scan(&vec![source("src/a.ts", Some("x")), source("src/a.rs", Some("x"))]);
    assert_eq!(result.violations.len(), 1);
    assert_eq!(result.violations[0].file, "src/a.ts");
}

#[test]
fn excludes_skip_walked_paths_but_not_named_targets() {
    let plan = ScanPlan::prepare(&config_with(vec![], vec!["node_modules/**"])).unwrap();
    assert!(plan.is_excluded("node_modules/x/y.js"));
    assert!(!plan.is_excluded("src/y.js"));
    let cands = vec![
        Candidate { path: "t/node_modules/a.js".into(), relative: "node_modules/a.js".into(), explicit: false },
        Candidate { path: "t/src/b.js".into(), relative: "src/b.js".into(), explicit: false },
        Candidate { path: "node_modules/c.js".into(), relative: "node_modules/c.js".into(), explicit: true },
    ];
    assert_eq!(plan.select_files(&cands), vec!["t/src/b.js".to_string(), "node_modules/c.js".to_string()]);
}

#[test]
fn invalid_exclude_glob_aborts() {
    let err = ScanPlan::prepare(&config_with(vec![toml_rule("r", "x", 0)], vec!["ok/**", "a[b"])).unwrap_err();
    assert!(matches!(err, ScanError::GlobParse(Some(ref p), _) if p == "a[b"));
    assert_eq!(err.message(), "invalid glob pattern: 'a[b'");
    assert!(build_glob_set(&vec!["*.rs".to_string()]).is_ok());
}

#[test]
fn invalid_rule_glob_aborts() {
    let mut rule = toml_rule("r", "x", 0);
    rule.glob = Some("{a".to_string());
    let err = ScanPlan::prepare(&config_with(vec![rule], vec![])).unwrap_err();
    assert!(matches!(err, ScanError::GlobParse(Some(ref p), _) if p == "{a"));
}

#[test]
fn first_bad_rule_stops_building() {
    let mut bad = toml_rule("bad", "x", 0);
    bad.rule_type = "tailwind-dark-mode".to_string();
    let mut worse = toml_rule("worse", "", 0);
    worse.pattern = None;
    let err = build_rules(&vec![toml_rule("ok", "x", 0), bad, worse]).unwrap_err();
    assert!(matches!(err, ScanError::RuleFactory(FactoryError::UnknownRuleType(ref t)) if t == "tailwind-dark-mode"));
    assert_eq!(err.message(), "failed to build rule: unknown rule type: 'tailwind-dark-mode'");
}

#[test]
fn build_errors_are_wrapped() {
    let mut rule = toml_rule("nomax", "x", 0);
    rule.max_count = None;
    let err = build_rules(&vec![rule]).unwrap_err();
    assert!(matches!(
        err,
        ScanError::RuleFactory(FactoryError::BuildError(RuleBuildError::MissingField(ref id, "max_count"))) if id == "nomax"
    ));
}

#[test]
fn factory_dispatches_on_type_tag() {
    let config = RuleConfig {
        id: "r".into(),
        pattern: Some("x".into()),
        max_count: Some(1),
        ..Default::default()
    };
    let rule = build_rule("ratchet", &config).unwrap();
    assert!(matches!(rule, Rule::Ratchet(_)));
    assert_eq!(rule.id(), "r");
    assert_eq!(rule.budget(), Some(1));
    let err = build_rule("nope", &config).unwrap_err();
    assert!(matches!(err, FactoryError::UnknownRuleType(ref t) if t == "nope"));
    let err = build_rule("ratchet", &RuleConfig { id: "r".into(), ..Default::default() }).unwrap_err();
    assert!(matches!(err, FactoryError::BuildError(RuleBuildError::MissingField(_, "pattern"))));
    assert_eq!(FactoryError::from(RuleBuildError::MissingField("q".into(), "pattern")).message(), "rule 'q': missing required field 'pattern'");
}

#[test]
fn severity_names_ignore_case() {
    let mut rule = toml_rule("r", "x", 0);
    rule.severity = "ERROR".to_string();
    assert_eq!(rule.to_rule_config().severity, Severity::Error);
    rule.severity = "Warning".to_string();
    assert_eq!(rule.to_rule_config().severity, Severity::Warning);
    rule.severity = "fatal".to_string();
    assert_eq!(rule.to_rule_config().severity, Severity::Warning);
    assert_eq!(severity_from_lowercase("error"), Severity::Error);
    assert_eq!(severity_from_lowercase("Error"), Severity::Warning);
    assert_eq!(default_severity(), "warning");
}

#[test]
fn to_rule_config_copies_fields() {
    let mut rule = toml_rule("r", "pat", 7);
    rule.glob = Some("*.rs".into());
    rule.regex = true;
    rule.allowed_classes = vec!["a".into()];
    let c = rule.to_rule_config();
    assert_eq!(c.id, "r");
    assert_eq!(c.pattern.as_deref(), Some("pat"));
    assert_eq!(c.max_count, Some(7));
    assert_eq!(c.glob.as_deref(), Some("*.rs"));
    assert!(c.regex);
    assert_eq!(c.allowed_classes, vec!["a".to_string()]);
    assert_eq!(c.message, "found it");
}

fn violation(rule_id: &str) -> Violation {
    Violation {
        rule_id: rule_id.to_string(),
        severity: Severity::Warning,
        file: "f".to_string(),
        line: Some(1),
        column: Some(1),
        message: String::new(),
        suggest: None,
        source_line: None,
        fix: None,
    }
}

#[test]
fn ratchet_gate_is_all_or_nothing() {
    let (rules, _) = build_rules(&vec![toml_rule("a", "x", 1), toml_rule("b", "x", 2)]).unwrap();
    let all = vec![violation("a"), violation("b"), violation("a"), violation("c")];
    let (kept, counts) = resolve_ratchets(&rules, all);
    let ids: Vec<&str> = kept.iter().map(|v| v.rule_id.as_str()).collect();
    assert_eq!(ids, vec!["a", "a", "c"]);
    assert_eq!(counts.len(), 2);
    assert_eq!((counts[0].rule_id.as_str(), counts[0].found, counts[0].max), ("a", 2, 1));
    assert_eq!((counts[1].rule_id.as_str(), counts[1].found, counts[1].max), ("b", 1, 2));
}

#[test]
fn scan_error_messages() {
    assert_eq!(ScanError::ConfigRead("gone".into()).message(), "failed to read config: gone");
    assert_eq!(ScanError::ConfigParse("bad".into()).message(), "failed to parse config: bad");
}

#[test]
fn deeply_nested_glob_is_an_error_not_a_panic() {
    let deep = format!("{}a{}", "{".repeat(300), "}".repeat(300));
    let err = ScanPlan::prepare(&config_with(vec![], vec![deep.as_str()])).unwrap_err();
    assert!(matches!(err, ScanError::GlobParse(_, _)));
    let mut rule = toml_rule("r", "x", 0);
    rule.glob = Some(deep.clone());
    let err = ScanPlan::prepare(&config_with(vec![rule], vec![])).unwrap_err();
    assert!(matches!(err, ScanError::GlobParse(_, _)));
}
