use guardrails::config::{RuleConfig, Severity};
use guardrails::ratchet::RatchetRule;
use guardrails::rules::{RuleBuildError, ScanContext};

fn make_config(pattern: Option<&str>, max_count: Option<usize>) -> RuleConfig {
    RuleConfig {
        id: "test-ratchet".into(),
        severity: Severity::Error,
        message: "legacy pattern found".into(),
        suggest: Some("use newApi() instead".into()),
        pattern: pattern.map(|s| s.to_string()),
        max_count,
        ..Default::default()
    }
}

fn regex_config(pattern: &str) -> RuleConfig {
    RuleConfig { regex: true, ..make_config(Some(pattern), Some(3)) }
}

#[test]
fn basic_match() {
    let config = make_config(Some("legacyFetch("), Some(10));
    let rule = RatchetRule::new(&config).unwrap();
    let content = "let x = legacyFetch(url);\nlet y = newFetch(url);";
    let ctx = ScanContext { file_path: "test.ts", content };
    let violations = rule.check_file(&ctx);
    assert_eq!(violations.len(), 1);
    assert_eq!(violations[0].line, Some(1));
    assert_eq!(violations[0].column, Some(9));
}

#[test]
fn multiple_matches_per_line() {
    let config = make_config(Some("TODO"), Some(5));
    let rule = RatchetRule::new(&config).unwrap();
    let content = "// TODO fix this TODO and that TODO";
    let ctx = ScanContext { file_path: "test.ts", content };
    let violations = rule.check_file(&ctx);
    assert_eq!(violations.len(), 3);
    assert_eq!(violations[0].column, Some(4));
    assert_eq!(violations[1].column, Some(18));
    assert_eq!(violations[2].column, Some(32));
}

#[test]
fn no_matches() {
    let config = make_config(Some("legacyFetch("), Some(0));
    let rule = RatchetRule::new(&config).unwrap();
    let content = "let x = apiFetch(url);";
    let ctx = ScanContext { file_path: "test.ts", content };
    let violations = rule.check_file(&ctx);
    assert!(violations.is_empty());
}

#[test]
fn column_accuracy() {
    let config = make_config(Some("bad("), Some(10));
    let rule = RatchetRule::new(&config).unwrap();
    let content = "    bad(x)";
    let ctx = ScanContext { file_path: "test.ts", content };
    let violations = rule.check_file(&ctx);
    assert_eq!(violations.len(), 1);
    assert_eq!(violations[0].column, Some(5));
}

#[test]
fn missing_pattern_error() {
    let config = make_config(None, Some(10));
    let err = RatchetRule::new(&config).unwrap_err();
    assert!(
        matches!(err, RuleBuildError::MissingField(_, "pattern")),
        "expected MissingField for pattern, got {:?}",
        err
    );
}

#[test]
fn empty_pattern_error() {
    let config = make_config(Some(""), Some(10));
    let err = RatchetRule::new(&config).unwrap_err();
    assert!(matches!(err, RuleBuildError::MissingField(_, "pattern")));
}

#[test]
fn missing_max_count_error() {
    let config = make_config(Some("TODO"), None);
    let err = RatchetRule::new(&config).unwrap_err();
    assert!(matches!(err, RuleBuildError::MissingField(_, "max_count")));
}

#[test]
fn max_count_zero_works() {
    let config = make_config(Some("bad"), Some(0));
    let rule = RatchetRule::new(&config).unwrap();
    assert_eq!(rule.max_count(), 0);
}

#[test]
fn accessors() {
    let config = make_config(Some("legacyFetch("), Some(47));
    let rule = RatchetRule::new(&config).unwrap();
    assert_eq!(rule.pattern(), "legacyFetch(");
    assert_eq!(rule.max_count(), 47);
    assert_eq!(rule.id(), "test-ratchet");
}

#[test]
fn missing_field_names_the_rule() {
    let err = RatchetRule::new(&make_config(None, None)).unwrap_err();
    match &err {
        RuleBuildError::MissingField(id, field) => {
            assert_eq!(id, "test-ratchet");
            assert_eq!(*field, "pattern");
        }
        other => panic!("unexpected {:?}", other),
    }
    assert_eq!(err.message(), "rule 'test-ratchet': missing required field 'pattern'");
}

#[test]
fn literal_matches_do_not_overlap() {
    let rule = RatchetRule::new(&make_config(Some("aa"), Some(1))).unwrap();
    let ctx = ScanContext { file_path: "f", content: "aaa\naaaa" };
    let v = rule.check_file(&ctx);
    let places: Vec<(Option<usize>, Option<usize>)> = v.iter().map(|x| (x.line, x.column)).collect();
    assert_eq!(places, vec![(Some(1), Some(1)), (Some(2), Some(1)), (Some(2), Some(3))]);
}

#[test]
fn violation_carries_rule_fields_and_untrimmed_line() {
    let rule = RatchetRule::new(&make_config(Some("x"), Some(1))).unwrap();
    let ctx = ScanContext { file_path: "dir/f.ts", content: "a\r\n  x  \n" };
    let v = rule.check_file(&ctx);
    assert_eq!(v.len(), 1);
    assert_eq!(v[0].rule_id, "test-ratchet");
    assert_eq!(v[0].severity, Severity::Error);
    assert_eq!(v[0].file, "dir/f.ts");
    assert_eq!(v[0].line, Some(2));
    assert_eq!(v[0].column, Some(3));
    assert_eq!(v[0].message, "legacy pattern found");
    assert_eq!(v[0].suggest.as_deref(), Some("use newApi() instead"));
    assert_eq!(v[0].source_line.as_deref(), Some("  x  "));
    assert_eq!(v[0].fix, None);
}

#[test]
fn literal_columns_count_bytes() {
    let rule = RatchetRule::new(&make_config(Some("b"), Some(1))).unwrap();
    let ctx = ScanContext { file_path: "f", content: "\u{e9}b" };
    let v = rule.check_file(&ctx);
    assert_eq!(v.len(), 1);
    assert_eq!(v[0].column, Some(3));
}

#[test]
fn regex_mode_reports_each_match() {
    let rule = RatchetRule::new(&regex_config(r"fo+")).unwrap();
    assert!(rule.is_regex());
    let ctx = ScanContext { file_path: "f", content: "x foo fooo\nnone\n  fo" };
    let v = rule.check_file(&ctx);
    let places: Vec<(Option<usize>, Option<usize>)> = v.iter().map(|x| (x.line, x.column)).collect();
    assert_eq!(places, vec![(Some(1), Some(3)), (Some(1), Some(7)), (Some(3), Some(3))]);
}

#[test]
fn invalid_regex_is_refused() {
    let err = RatchetRule::new(&regex_config("(unclosed")).unwrap_err();
    assert!(matches!(err, RuleBuildError::InvalidRegex(ref id, _) if id == "test-ratchet"));
}

#[test]
fn literal_mode_ignores_regex_syntax() {
    let rule = RatchetRule::new(&make_config(Some("(unclosed"), Some(1))).unwrap();
    assert!(!rule.is_regex());
    let ctx = ScanContext { file_path: "f", content: "a (unclosed b" };
    assert_eq!(rule.check_file(&ctx).len(), 1);
}

#[test]
fn file_glob_and_severity_come_from_config() {
    let config = RuleConfig { glob: Some("*.ts".into()), severity: Severity::Warning, ..make_config(Some("x"), Some(1)) };
    let rule = RatchetRule::new(&config).unwrap();
    assert_eq!(rule.file_glob(), Some("*.ts"));
    assert_eq!(rule.severity(), Severity::Warning);
}

#[test]
fn rule_config_default_is_empty_warning() {
    let c = RuleConfig::default();
    assert_eq!(c.id, "");
    assert_eq!(c.severity, Severity::Warning);
    assert!(c.pattern.is_none() && c.max_count.is_none() && !c.regex);
}

#[test]
fn invalid_regex_message() {
    let err = RatchetRule::new(&regex_config("a(")).unwrap_err();
    assert_eq!(err.message(), "rule 'test-ratchet': invalid regex pattern");
}

#[test]
fn regex_columns_are_match_starts_plus_one() {
    let rule = RatchetRule::new(&regex_config(r"\d+")).unwrap();
    let ctx = ScanContext { file_path: "f", content: "a1 22\n333" };
    let v = rule.check_file(&ctx);
    let places: Vec<(Option<usize>, Option<usize>)> = v.iter().map(|x| (x.line, x.column)).collect();
    assert_eq!(places, vec![(Some(1), Some(2)), (Some(1), Some(4)), (Some(2), Some(1))]);
    assert_eq!(v[2].source_line.as_deref(), Some("333"));
}
