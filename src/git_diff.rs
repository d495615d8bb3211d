use vstd::prelude::*;
use vstd::utf8::encode_utf8;
use crate::config::opt_view;
use crate::text::{lines_of, split_lines, strip_prefix};

verus! {

/// Why a diff could not be obtained.
#[derive(Debug)]
pub enum GitDiffError {
    GitNotFound,
    NotARepo,
    BaseRefNotFound(String),
    CommandFailed(String),
}

impl GitDiffError {
    /// The one-line description of the error.
    pub open spec fn spec_message(&self) -> Seq<char> {
        match self {
            GitDiffError::GitNotFound => "git is not installed or not in PATH"@,
            GitDiffError::NotARepo => "not inside a git repository"@,
            GitDiffError::BaseRefNotFound(r) => "base ref '"@ + r@ + "' not found (try fetching it first)"@,
            GitDiffError::CommandFailed(msg) => "git command failed: "@ + msg@,
        }
    }

    /// A one-line description of the error.
    pub fn message(&self) -> (r: String)
        ensures
            r@ == self.spec_message(),
    {
        match self {
            GitDiffError::GitNotFound => String::from_str("git is not installed or not in PATH"),
            GitDiffError::NotARepo => String::from_str("not inside a git repository"),
            GitDiffError::BaseRefNotFound(r) => {
                let mut s = String::from_str("base ref '");
                s.append(r.as_str());
                s.append("' not found (try fetching it first)");
                s
            },
            GitDiffError::CommandFailed(msg) => {
                let mut s = String::from_str("git command failed: ");
                s.append(msg.as_str());
                s
            },
        }
    }
}

/// An inclusive range of 1-indexed line numbers.
#[derive(Debug, Clone, Copy, PartialEq, Eq, Structural)]
pub struct LineRange {
    pub start: usize,
    pub end: usize,
}

impl LineRange {
    /// Whether `line` lies in the range, both ends included.
    pub open spec fn spec_contains(self, line: int) -> bool {
        self.start <= line <= self.end
    }

    /// Whether `line` lies in the range, both ends included.
    pub fn contains(&self, line: usize) -> (r: bool)
        ensures
            r == self.spec_contains(line as int),
    {
        self.start <= line && line <= self.end
    }
}

/// First index in `[lo, hi)` where `b` holds `c`.
pub open spec fn find_in(b: Seq<u8>, c: u8, lo: int, hi: int) -> Option<int>
    decreases hi - lo,
{
    if lo >= hi || lo < 0 || hi > b.len() {
        None
    } else if b[lo] == c {
        Some(lo)
    } else {
        find_in(b, c, lo + 1, hi)
    }
}

/// First index in `[lo, hi)` where `b` holds a space or `@`; `hi` if none.
pub open spec fn field_end(b: Seq<u8>, lo: int, hi: int) -> int
    decreases hi - lo,
{
    if lo >= hi || lo < 0 || hi > b.len() {
        hi
    } else if b[lo] == 32u8 || b[lo] == 64u8 {
        lo
    } else {
        field_end(b, lo + 1, hi)
    }
}

/// Whether `d` is an ASCII decimal digit.
pub open spec fn is_digit(d: u8) -> bool {
    48u8 <= d <= 57u8
}

/// The number that the decimal digits `b` spell.
pub open spec fn digits_value(b: Seq<u8>) -> nat
    decreases b.len(),
{
    if b.len() == 0 {
        0
    } else {
        digits_value(b.drop_last()) * 10 + (b.last() - 48) as nat
    }
}

/// The digits of an unsigned decimal number: an optional `+`, then at least one digit.
pub open spec fn number_digits(b: Seq<u8>) -> Seq<u8> {
    if b.len() > 0 && b[0] == 43u8 {
        b.drop_first()
    } else {
        b
    }
}

/// The `usize` that `b` spells in decimal, as `str::parse::<usize>` reads it:
/// an optional `+`, then one or more digits, the value fitting in `usize`.
pub open spec fn decimal(b: Seq<u8>) -> Option<usize> {
    let d = number_digits(b);
    if d.len() > 0 && (forall|i: int| 0 <= i < d.len() ==> is_digit(#[trigger] d[i]))
        && digits_value(d) <= usize::MAX {
        Some(digits_value(d) as usize)
    } else {
        None
    }
}

/// The new-side line range of a hunk header `@@ -a[,b] +c[,d] @@...`: the
/// number after the first `+` is the start, the one after a comma the count
/// (1 when omitted). A count of 0, a malformed number, or an end past
/// `usize::MAX` gives no range.
pub open spec fn hunk_range(b: Seq<u8>) -> Option<LineRange> {
    match find_in(b, 43u8, 0, b.len() as int) {
        None => None,
        Some(p) => {
            let e = field_end(b, p + 1, b.len() as int);
            match find_in(b, 44u8, p + 1, e) {
                Some(c) => match (decimal(b.subrange(p + 1, c)), decimal(b.subrange(c + 1, e))) {
                    (Some(s), Some(n)) => if n == 0 || s + n - 1 > usize::MAX {
                        None
                    } else {
                        Some(LineRange { start: s, end: (s + n - 1) as usize })
                    },
                    _ => None,
                },
                None => match decimal(b.subrange(p + 1, e)) {
                    Some(s) => Some(LineRange { start: s, end: s }),
                    None => None,
                },
            }
        },
    }
}

fn find_byte(b: &[u8], c: u8, lo: usize, hi: usize) -> (r: Option<usize>)
    requires
        lo <= hi <= b@.len(),
    ensures
        r matches Some(i) ==> find_in(b@, c, lo as int, hi as int) == Some(i as int) && lo <= i
            < hi,
        r is None ==> find_in(b@, c, lo as int, hi as int) is None,
{
    let mut i: usize = lo;
    while i < hi
        invariant
            lo <= i <= hi <= b@.len(),
            find_in(b@, c, lo as int, hi as int) == find_in(b@, c, i as int, hi as int),
        decreases hi - i,
    {
        if b[i] == c {
            return Some(i);
        }
        i = i + 1;
    }
    None
}

fn find_field_end(b: &[u8], lo: usize, hi: usize) -> (r: usize)
    requires
        lo <= hi <= b@.len(),
    ensures
        r == field_end(b@, lo as int, hi as int),
        lo <= r <= hi,
{
    let mut i: usize = lo;
    while i < hi
        invariant
            lo <= i <= hi <= b@.len(),
            field_end(b@, lo as int, hi as int) == field_end(b@, i as int, hi as int),
        decreases hi - i,
    {
        if b[i] == 32u8 || b[i] == 64u8 {
            return i;
        }
        i = i + 1;
    }
    i
}

proof fn lemma_digits_value_mono(b: Seq<u8>, i: int)
    requires
        0 <= i <= b.len(),
    ensures
        digits_value(b.subrange(0, i)) <= digits_value(b),
    decreases b.len() - i,
{
    if i < b.len() {
        lemma_digits_value_mono(b, i + 1);
        assert(b.subrange(0, i + 1).drop_last() =~= b.subrange(0, i));
    } else {
        assert(b.subrange(0, i) =~= b);
    }
}

/// Reads `b[lo..hi]` as a decimal `usize`, as `str::parse::<usize>` does.
fn parse_decimal(b: &[u8], lo: usize, hi: usize) -> (r: Option<usize>)
    requires
        lo <= hi <= b@.len(),
    ensures
        r == decimal(b@.subrange(lo as int, hi as int)),
{
    let ghost s = b@.subrange(lo as int, hi as int);
    let mut i: usize = lo;
    if i < hi && b[i] == 43u8 {
        i = i + 1;
    }
    let ghost d = number_digits(s);
    assert(d =~= b@.subrange(i as int, hi as int));
    if i == hi {
        return None;
    }
    let start: usize = i;
    let mut v: usize = 0;
    while i < hi
        invariant
            lo <= start <= i <= hi <= b@.len(),
            s == b@.subrange(lo as int, hi as int),
            d == number_digits(s),
            d.len() > 0,
            d == b@.subrange(start as int, hi as int),
            forall|j: int| 0 <= j < i - start ==> is_digit(#[trigger] d[j]),
            v as nat == digits_value(d.subrange(0, i - start)),
        decreases hi - i,
    {
        let c = b[i];
        if c < 48u8 || c > 57u8 {
            assert(d[i - start] == c);
            assert(!is_digit(d[i - start]));
            return None;
        }
        assert(d.subrange(0, i + 1 - start).drop_last() =~= d.subrange(0, i - start));
        match v.checked_mul(10) {
            Some(m) => match m.checked_add((c - 48u8) as usize) {
                Some(n) => {
                    v = n;
                },
                None => {
                    proof {
                        lemma_digits_value_mono(d, i + 1 - start);
                    }
                    return None;
                },
            },
            None => {
                proof {
                    lemma_digits_value_mono(d, i + 1 - start);
                }
                return None;
            },
        }
        i = i + 1;
    }
    assert(d.subrange(0, i - start) =~= d);
    Some(v)
}

/// The new-side line range of one hunk header line, if it has one.
pub fn parse_hunk_header(line: &str) -> (r: Option<LineRange>)
    ensures
        r == hunk_range(encode_utf8(line@)),
{
    let b = line.as_bytes();
    let n: usize = b.len();
    let p = match find_byte(b, 43u8, 0, n) {
        Some(p) => p,
        None => return None,
    };
    let e = find_field_end(b, p + 1, n);
    match find_byte(b, 44u8, p + 1, e) {
        Some(c) => {
            let s = match parse_decimal(b, p + 1, c) {
                Some(s) => s,
                None => return None,
            };
            let k = match parse_decimal(b, c + 1, e) {
                Some(k) => k,
                None => return None,
            };
            if k == 0 {
                return None;
            }
            match s.checked_add(k - 1) {
                Some(end) => Some(LineRange { start: s, end }),
                None => None,
            }
        },
        None => match parse_decimal(b, p + 1, e) {
            Some(s) => Some(LineRange { start: s, end: s }),
            None => None,
        },
    }
}

/// The changed ranges of one file, in the order the diff lists them.
#[derive(Debug)]
pub struct FileRanges {
    pub path: String,
    pub ranges: Vec<LineRange>,
}

/// A file path with the changed ranges recorded for it.
pub type Entry = (Seq<char>, Seq<LineRange>);

/// Changed files and their changed line ranges, from one diff.
#[derive(Debug)]
pub struct DiffInfo {
    changed_lines: Vec<FileRanges>,
}

impl View for DiffInfo {
    type V = Seq<Entry>;

    closed spec fn view(&self) -> Seq<Entry> {
        self.changed_lines@.map_values(|f: FileRanges| (f.path@, f.ranges@))
    }
}

/// First index at or after `i` of the entry for path `p`.
pub open spec fn path_index_from(es: Seq<Entry>, p: Seq<char>, i: int) -> Option<int>
    decreases es.len() - i,
{
    if i < 0 || i >= es.len() {
        None
    } else if es[i].0 == p {
        Some(i)
    } else {
        path_index_from(es, p, i + 1)
    }
}

/// Index of the entry for path `p`.
pub open spec fn path_index(es: Seq<Entry>, p: Seq<char>) -> Option<int> {
    path_index_from(es, p, 0)
}

/// No path has two entries.
pub open spec fn unique_paths(es: Seq<Entry>) -> bool {
    forall|i: int, j: int| 0 <= i < j < es.len() ==> es[i].0 != es[j].0
}

/// The entries with path `p` registered, with no range if it is new.
pub open spec fn with_file(es: Seq<Entry>, p: Seq<char>) -> Seq<Entry> {
    if path_index(es, p) is Some {
        es
    } else {
        es.push((p, Seq::empty()))
    }
}

/// The entries with `r` added at the end of the ranges of path `p`.
pub open spec fn with_range(es: Seq<Entry>, p: Seq<char>, r: LineRange) -> Seq<Entry> {
    match path_index(es, p) {
        Some(i) => es.update(i, (es[i].0, es[i].1.push(r))),
        None => es.push((p, seq![r])),
    }
}

/// Whether some range recorded for path `p` holds `line`.
pub open spec fn covers(es: Seq<Entry>, p: Seq<char>, line: int) -> bool {
    path_index(es, p) is Some && exists|j: int|
        0 <= j < es[path_index(es, p)->0].1.len() && (#[trigger] es[path_index(
            es,
            p,
        )->0].1[j]).spec_contains(line)
}

proof fn lemma_path_index_from(es: Seq<Entry>, p: Seq<char>, i: int)
    requires
        0 <= i,
    ensures
        path_index_from(es, p, i) matches Some(k) ==> i <= k < es.len() && es[k].0 == p
            && forall|j: int| i <= j < k ==> es[j].0 != p,
        path_index_from(es, p, i) is None ==> forall|j: int| i <= j < es.len() ==> es[j].0 != p,
    decreases es.len() - i,
{
    if i < es.len() && es[i].0 != p {
        lemma_path_index_from(es, p, i + 1);
    }
}

impl DiffInfo {
    /// The paths are distinct.
    pub open spec fn wf(&self) -> bool {
        unique_paths(self@)
    }

    /// A diff with no file.
    pub fn new() -> (r: Self)
        ensures
            r@ == Seq::<Entry>::empty(),
            r.wf(),
    {
        let r = DiffInfo { changed_lines: Vec::new() };
        assert(r@ =~= Seq::<Entry>::empty());
        r
    }

    fn find(&self, path: &str) -> (r: Option<usize>)
        ensures
            r matches Some(i) ==> path_index(self@, path@) == Some(i as int) && i
                < self.changed_lines@.len(),
            r is None ==> path_index(self@, path@) is None,
            self@.len() == self.changed_lines@.len(),
    {
        let key = String::from_str(path);
        let mut i: usize = 0;
        while i < self.changed_lines.len()
            invariant
                key@ == path@,
                i <= self.changed_lines@.len(),
                path_index(self@, path@) == path_index_from(self@, path@, i as int),
            decreases self.changed_lines@.len() - i,
        {
            assert(self@[i as int].0 == self.changed_lines@[i as int].path@);
            if self.changed_lines[i].path == key {
                return Some(i);
            }
            i = i + 1;
        }
        None
    }

    /// Registers `path` as changed, with no range yet if it is new.
    pub fn add_file(&mut self, path: &str)
        requires
            old(self).wf(),
        ensures
            final(self)@ == with_file(old(self)@, path@),
            final(self).wf(),
    {
        proof {
            lemma_path_index_from(self@, path@, 0);
        }
        match self.find(path) {
            Some(_) => {},
            None => {
                let ghost prev = self@;
                self.changed_lines.push(FileRanges { path: path.to_string(), ranges: Vec::new() });
                assert(self@ =~= prev.push((path@, Seq::empty())));
            },
        }
    }

    /// Appends `range` to the ranges of `path`, registering `path` if it is new.
    pub fn add_range(&mut self, path: &str, range: LineRange)
        requires
            old(self).wf(),
        ensures
            final(self)@ == with_range(old(self)@, path@, range),
            final(self).wf(),
    {
        proof {
            lemma_path_index_from(self@, path@, 0);
        }
        let ghost prev = self@;
        match self.find(path) {
            Some(i) => {
                self.changed_lines[i].ranges.push(range);
                assert(self@ =~= prev.update(i as int, (prev[i as int].0, prev[i as int].1.push(range))));
            },
            None => {
                let mut rs: Vec<LineRange> = Vec::new();
                rs.push(range);
                self.changed_lines.push(FileRanges { path: path.to_string(), ranges: rs });
                assert(self@ =~= prev.push((path@, seq![range])));
            },
        }
    }

    /// Whether the diff names `path` at all, with or without ranges.
    pub fn has_file(&self, path: &str) -> (r: bool)
        ensures
            r == path_index(self@, path@) is Some,
    {
        self.find(path).is_some()
    }

    /// Whether `line` of `path` lies in a changed range; false for a path the
    /// diff does not name.
    pub fn has_line(&self, path: &str, line: usize) -> (r: bool)
        ensures
            r == covers(self@, path@, line as int),
    {
        match self.find(path) {
            Some(i) => {
                let rs = &self.changed_lines[i].ranges;
                let mut j: usize = 0;
                while j < rs.len()
                    invariant
                        j <= rs@.len(),
                        i < self@.len(),
                        path_index(self@, path@) == Some(i as int),
                        rs@ == self@[i as int].1,
                        forall|k: int| 0 <= k < j ==> !(#[trigger] rs@[k]).spec_contains(line as int),
                    decreases rs@.len() - j,
                {
                    if rs[j].contains(line) {
                        assert(self@[path_index(self@, path@)->0].1[j as int].spec_contains(
                            line as int,
                        ));
                        return true;
                    }
                    j = j + 1;
                }
                false
            },
            None => false,
        }
    }

    /// The ranges recorded for `path`, if the diff names it.
    pub fn ranges(&self, path: &str) -> (r: Option<Vec<LineRange>>)
        ensures
            r matches Some(v) ==> path_index(self@, path@) matches Some(i) && v@ == self@[i].1,
            r is None ==> path_index(self@, path@) is None,
    {
        match self.find(path) {
            Some(i) => {
                let rs = &self.changed_lines[i].ranges;
                let mut v: Vec<LineRange> = Vec::new();
                let mut j: usize = 0;
                while j < rs.len()
                    invariant
                        j <= rs@.len(),
                        i < self@.len(),
                        rs@ == self@[i as int].1,
                        v@ == rs@.subrange(0, j as int),
                    decreases rs@.len() - j,
                {
                    v.push(rs[j]);
                    j = j + 1;
                }
                assert(v@ =~= rs@);
                Some(v)
            },
            None => None,
        }
    }
}

/// The state of a diff being read: the entries so far and the file whose
/// hunks are being read, if any.
pub type DiffState = (Seq<Entry>, Option<Seq<char>>);

/// The state after reading one line of a diff. A `+++ b/<path>` line
/// registers `<path>` and makes it the current file; a line starting with
/// `@@` adds its hunk's range, if it has one, to the current file.
pub open spec fn diff_step(st: DiffState, line: Seq<char>) -> DiffState {
    if "+++ b/"@.is_prefix_of(line) {
        let p = line.subrange("+++ b/"@.len() as int, line.len() as int);
        (with_file(st.0, p), Some(p))
    } else if "@@"@.is_prefix_of(line) && st.1 is Some && hunk_range(encode_utf8(line)) is Some {
        (with_range(st.0, st.1->0, hunk_range(encode_utf8(line))->0), st.1)
    } else {
        st
    }
}

/// The state after reading the first `k` lines.
pub open spec fn diff_state(lines: Seq<Seq<char>>, k: int) -> DiffState
    decreases k,
{
    if k <= 0 {
        (Seq::empty(), None)
    } else {
        diff_step(diff_state(lines, k - 1), lines[k - 1])
    }
}

/// The entries that a whole unified diff yields.
pub open spec fn diff_entries(text: Seq<char>) -> Seq<Entry> {
    diff_state(lines_of(text), lines_of(text).len() as int).0
}

/// Reads a unified diff (as `git diff -U0` prints it) into the changed line
/// ranges of each file, ranges in the order of their hunks.
pub fn parse_diff(diff_text: &str) -> (r: DiffInfo)
    ensures
        r@ == diff_entries(diff_text@),
        r.wf(),
{
    let lines = split_lines(diff_text);
    let ghost ls = lines_of(diff_text@);
    let mut info = DiffInfo::new();
    let mut current: Option<String> = None;
    let mut k: usize = 0;
    while k < lines.len()
        invariant
            k <= lines@.len(),
            ls == lines_of(diff_text@),
            lines@.map_values(|l: String| l@) == ls,
            info.wf(),
            (info@, opt_view(current)) == diff_state(ls, k as int),
        decreases lines@.len() - k,
    {
        let line = &lines[k];
        assert(line@ == ls[k as int]);
        match strip_prefix(line.as_str(), "+++ b/") {
            Some(path) => {
                info.add_file(path.as_str());
                current = Some(path);
            },
            None => {
                if strip_prefix(line.as_str(), "@@").is_some() {
                    match &current {
                        Some(file) => match parse_hunk_header(line.as_str()) {
                            Some(range) => {
                                info.add_range(file.as_str(), range);
                            },
                            None => {},
                        },
                        None => {},
                    }
                }
            },
        }
        k = k + 1;
    }
    info
}

/// A line counts as changed for a path exactly when some range recorded for
/// that very path holds it; a path the diff does not name has no changed line.
pub proof fn lemma_has_line_iff_recorded(info: &DiffInfo, p: Seq<char>, line: int)
    requires
        info.wf(),
    ensures
        covers(info@, p, line) <==> exists|i: int, j: int|
            0 <= i < info@.len() && info@[i].0 == p && 0 <= j < info@[i].1.len()
                && (#[trigger] info@[i].1[j]).spec_contains(line),
        (forall|i: int| 0 <= i < info@.len() ==> info@[i].0 != p) ==> !covers(info@, p, line),
{
    let es = info@;
    lemma_path_index_from(es, p, 0);
    if exists|i: int, j: int|
        0 <= i < es.len() && es[i].0 == p && 0 <= j < es[i].1.len()
            && (#[trigger] es[i].1[j]).spec_contains(line) {
        let (i, j) = choose|i: int, j: int|
            0 <= i < es.len() && es[i].0 == p && 0 <= j < es[i].1.len()
                && (#[trigger] es[i].1[j]).spec_contains(line);
        let k = path_index(es, p)->0;
        assert(k == i);
        assert(es[path_index(es, p)->0].1[j].spec_contains(line));
    }
}

/// What the base-ref resolution asks for next.
#[derive(Debug)]
pub enum ResolveAction {
    /// Check that this ref exists, and report the answer with the next step.
    Verify(String),
    /// Fetch this ref shallowly from the remote; the next step ignores the answer.
    Fetch(String),
    /// The base ref resolves to this ref.
    Resolved(String),
    /// No form of the ref exists.
    Missing(String),
}

/// A resolution action with its ref seen as characters.
pub enum ActionView {
    Verify(Seq<char>),
    Fetch(Seq<char>),
    Resolved(Seq<char>),
    Missing(Seq<char>),
}

impl View for ResolveAction {
    type V = ActionView;

    open spec fn view(&self) -> ActionView {
        match self {
            ResolveAction::Verify(s) => ActionView::Verify(s@),
            ResolveAction::Fetch(s) => ActionView::Fetch(s@),
            ResolveAction::Resolved(s) => ActionView::Resolved(s@),
            ResolveAction::Missing(s) => ActionView::Missing(s@),
        }
    }
}

/// `<remote>/<ref>`.
pub open spec fn qualified(base_ref: Seq<char>, remote: Seq<char>) -> Seq<char> {
    remote + "/"@ + base_ref
}

/// The planned action at `step`: check the ref, check it under the remote,
/// fetch it, check it under the remote again, check the ref again.
pub open spec fn planned(base_ref: Seq<char>, remote: Seq<char>, step: int) -> ActionView {
    if step == 0 {
        ActionView::Verify(base_ref)
    } else if step == 1 {
        ActionView::Verify(qualified(base_ref, remote))
    } else if step == 2 {
        ActionView::Fetch(base_ref)
    } else if step == 3 {
        ActionView::Verify(qualified(base_ref, remote))
    } else if step == 4 {
        ActionView::Verify(base_ref)
    } else {
        ActionView::Missing(base_ref)
    }
}

/// The action at `step`, `found` being the answer to the check of the step before.
pub open spec fn next_action(base_ref: Seq<char>, remote: Seq<char>, step: int, found: bool) -> ActionView {
    if step > 0 && found && planned(base_ref, remote, step - 1) is Verify {
        ActionView::Resolved(planned(base_ref, remote, step - 1)->Verify_0)
    } else {
        planned(base_ref, remote, step)
    }
}

/// The next step of resolving `base_ref`: `step` counts the actions done so
/// far, `found` is the answer to the last check (ignored after anything else).
pub fn next_resolve_action(base_ref: &str, remote: &str, step: usize, found: bool) -> (r: ResolveAction)
    ensures
        r@ == next_action(base_ref@, remote@, step as int, found),
{
    let mut q = String::from_str(remote);
    q.append("/");
    q.append(base_ref);
    if step > 0 && found && step != 3 && step <= 5 {
        if step == 1 || step == 5 {
            return ResolveAction::Resolved(String::from_str(base_ref));
        } else {
            return ResolveAction::Resolved(q);
        }
    }
    if step == 0 || step == 4 {
        ResolveAction::Verify(String::from_str(base_ref))
    } else if step == 1 || step == 3 {
        ResolveAction::Verify(q)
    } else if step == 2 {
        ResolveAction::Fetch(String::from_str(base_ref))
    } else {
        ResolveAction::Missing(String::from_str(base_ref))
    }
}

/// Drives the resolution from `step`, the checks being answered in turn by
/// `answers[probes..]`, until it resolves or gives up.
pub open spec fn drive(
    base_ref: Seq<char>,
    remote: Seq<char>,
    answers: Seq<bool>,
    step: int,
    found: bool,
    probes: int,
) -> ActionView
    decreases 6 - step,
{
    let a = next_action(base_ref, remote, step, found);
    if step >= 6 {
        a
    } else {
        match a {
            ActionView::Verify(_) => drive(base_ref, remote, answers, step + 1, answers[probes], probes + 1),
            ActionView::Fetch(_) => drive(base_ref, remote, answers, step + 1, false, probes),
            _ => a,
        }
    }
}

/// Resolution checks, in order, the ref itself, `<remote>/<ref>`, `<remote>/<ref>`
/// again after a fetch, and the ref once more, and takes the first that exists;
/// it fails only when all four checks miss.
pub proof fn lemma_resolution_order(base_ref: Seq<char>, remote: Seq<char>, answers: Seq<bool>)
    requires
        answers.len() == 4,
    ensures
        drive(base_ref, remote, answers, 0, false, 0) == (if answers[0] {
            ActionView::Resolved(base_ref)
        } else if answers[1] {
            ActionView::Resolved(qualified(base_ref, remote))
        } else if answers[2] {
            ActionView::Resolved(qualified(base_ref, remote))
        } else if answers[3] {
            ActionView::Resolved(base_ref)
        } else {
            ActionView::Missing(base_ref)
        }),
{
    reveal_with_fuel(drive, 7);
}

/// The first candidate that is present and non-empty.
pub open spec fn first_set(cands: Seq<Option<Seq<char>>>, i: int) -> Option<Seq<char>>
    decreases cands.len() - i,
{
    if i < 0 || i >= cands.len() {
        None
    } else if cands[i] matches Some(s) && s.len() > 0 {
        cands[i]
    } else {
        first_set(cands, i + 1)
    }
}

/// The base ref to compare against: the first of `cands` (values of the CI
/// variables that name a target branch, in priority order) that is set and
/// non-empty, else `main`.
pub fn pick_base_ref(cands: &Vec<Option<String>>) -> (r: String)
    ensures
        first_set(cands@.map_values(|o: Option<String>| opt_view(o)), 0) matches Some(s) ==> r@ == s,
        first_set(cands@.map_values(|o: Option<String>| opt_view(o)), 0) is None ==> r@ == "main"@,
{
    let ghost cs = cands@.map_values(|o: Option<String>| opt_view(o));
    let mut i: usize = 0;
    while i < cands.len()
        invariant
            i <= cands@.len(),
            cs == cands@.map_values(|o: Option<String>| opt_view(o)),
            first_set(cs, 0) == first_set(cs, i as int),
        decreases cands@.len() - i,
    {
        match &cands[i] {
            Some(s) => {
                if !s.as_str().is_empty() {
                    return s.clone();
                }
            },
            None => {},
        }
        i = i + 1;
    }
    String::from_str("main")
}

} // verus!
