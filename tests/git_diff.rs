use guardrails::git_diff::{
    next_resolve_action, parse_diff, parse_hunk_header, pick_base_ref, DiffInfo, GitDiffError,
    LineRange, ResolveAction,
};

fn range(start: usize, end: usize) -> LineRange {
    LineRange { start, end }
}

#[test]
fn parse_hunk_single_line() {
    let range = parse_hunk_header("@@ -10,0 +15 @@").unwrap();
    assert_eq!(range, LineRange { start: 15, end: 15 });
}

#[test]
fn parse_hunk_multi_line() {
    let range = parse_hunk_header("@@ -10,3 +15,4 @@").unwrap();
    assert_eq!(range, LineRange { start: 15, end: 18 });
}

#[test]
fn parse_hunk_pure_deletion() {
    let range = parse_hunk_header("@@ -10,3 +14,0 @@");
    assert!(range.is_none());
}

#[test]
fn parse_hunk_with_context() {
    let range = parse_hunk_header("@@ -1,5 +1,7 @@ fn main() {").unwrap();
    assert_eq!(range, LineRange { start: 1, end: 7 });
}

#[test]
fn parse_diff_full() {
    let diff = "\
diff --git a/src/foo.rs b/src/foo.rs
index abc..def 100644
--- a/src/foo.rs
+++ b/src/foo.rs
@@ -1,3 +1,5 @@
+new line 1
+new line 2
 existing
diff --git a/src/bar.rs b/src/bar.rs
new file mode 100644
--- /dev/null
+++ b/src/bar.rs
@@ -0,0 +1,10 @@
+all new file
";
    let info = parse_diff(diff);
    assert!(info.has_file("src/foo.rs"));
    assert!(info.has_file("src/bar.rs"));

    let foo_ranges = info.ranges("src/foo.rs").unwrap();
    assert_eq!(foo_ranges.len(), 1);
    assert_eq!(foo_ranges[0], range(1, 5));

    let bar_ranges = info.ranges("src/bar.rs").unwrap();
    assert_eq!(bar_ranges.len(), 1);
    assert_eq!(bar_ranges[0], range(1, 10));
}

#[test]
fn diff_info_has_file_and_line() {
    let mut info = DiffInfo::new();
    info.add_range("src/main.rs", range(5, 10));
    info.add_range("src/main.rs", range(20, 25));

    assert!(info.has_file("src/main.rs"));
    assert!(!info.has_file("src/other.rs"));

    assert!(info.has_line("src/main.rs", 7));
    assert!(info.has_line("src/main.rs", 20));
    assert!(!info.has_line("src/main.rs", 15));
}

#[test]
fn detect_base_ref_defaults_to_main() {
    let base = pick_base_ref(&vec![None, None, None]);
    assert!(!base.is_empty());
    assert_eq!(base, "main");
}

#[test]
fn pick_base_ref_takes_first_non_empty() {
    let cands = vec![Some(String::new()), None, Some("develop".to_string()), Some("x".to_string())];
    assert_eq!(pick_base_ref(&cands), "develop");
    assert_eq!(pick_base_ref(&vec![Some("release".to_string())]), "release");
}

#[test]
fn hunk_without_plus_has_no_range() {
    assert!(parse_hunk_header("@@ -1,2 @@").is_none());
    assert!(parse_hunk_header("@@ -1 +x,2 @@").is_none());
    assert!(parse_hunk_header("@@ -1 +3, @@").is_none());
    assert!(parse_hunk_header("@@ -1 + @@").is_none());
}

#[test]
fn hunk_count_reaching_past_usize_has_no_range() {
    let header = format!("@@ -1 +{},2 @@", usize::MAX);
    assert!(parse_hunk_header(&header).is_none());
    let header = format!("@@ -1 +{},1 @@", usize::MAX);
    assert_eq!(parse_hunk_header(&header), Some(range(usize::MAX, usize::MAX)));
    assert!(parse_hunk_header("@@ -1 +99999999999999999999999 @@").is_none());
}

#[test]
fn hunk_start_with_plus_sign_is_read() {
    assert_eq!(parse_hunk_header("@@ -1 ++7,2 @@"), Some(range(7, 8)));
}

#[test]
fn diff_hunks_accumulate_in_order_without_merging() {
    let diff = "+++ b/a.rs\n@@ -1 +3,2 @@\n@@ -9,0 +10 @@\n@@ -20,4 +30,0 @@\n@@ -40 +4 @@\n+++ b/empty.rs\n";
    let info = parse_diff(diff);
    assert_eq!(info.ranges("a.rs").unwrap(), vec![range(3, 4), range(10, 10), range(4, 4)]);
    assert!(info.has_file("empty.rs"));
    assert!(info.ranges("empty.rs").unwrap().is_empty());
    assert!(!info.has_line("empty.rs", 1));
    assert!(!info.has_line("missing.rs", 3));
    assert!(info.has_line("a.rs", 4));
    assert!(!info.has_line("a.rs", 5));
}

#[test]
fn hunk_before_any_file_is_ignored() {
    let info = parse_diff("@@ -1 +1,3 @@\r\n+++ b/x.rs\r\n@@ -1 +2 @@\r\n");
    assert!(!info.has_file("x.rs\r"));
    assert!(info.has_file("x.rs"));
    assert_eq!(info.ranges("x.rs").unwrap(), vec![range(2, 2)]);
}

fn run(answers: [bool; 4]) -> ResolveAction {
    let mut step: usize = 0;
    let mut found = false;
    let mut probes: usize = 0;
    loop {
        match next_resolve_action("main", "origin", step, found) {
            ResolveAction::Verify(_) => {
                found = answers[probes];
                probes += 1;
            }
            ResolveAction::Fetch(r) => {
                assert_eq!(r, "main");
                found = false;
            }
            done => return done,
        }
        step += 1;
    }
}

#[test]
fn base_ref_resolution_order() {
    assert!(matches!(run([true, false, false, false]), ResolveAction::Resolved(r) if r == "main"));
    assert!(matches!(run([false, true, false, false]), ResolveAction::Resolved(r) if r == "origin/main"));
    assert!(matches!(run([false, false, true, false]), ResolveAction::Resolved(r) if r == "origin/main"));
    assert!(matches!(run([false, false, false, true]), ResolveAction::Resolved(r) if r == "main"));
    assert!(matches!(run([false, false, false, false]), ResolveAction::Missing(r) if r == "main"));
    assert!(matches!(next_resolve_action("dev", "upstream", 1, false), ResolveAction::Verify(r) if r == "upstream/dev"));
}

#[test]
fn git_diff_error_messages() {
    assert_eq!(
        GitDiffError::BaseRefNotFound("main".to_string()).message(),
        "base ref 'main' not found (try fetching it first)"
    );
    assert_eq!(GitDiffError::CommandFailed("boom".to_string()).message(), "git command failed: boom");
    assert_eq!(GitDiffError::NotARepo.message(), "not inside a git repository");
}

#[test]
fn git_not_found_message() {
    assert_eq!(GitDiffError::GitNotFound.message(), "git is not installed or not in PATH");
}
