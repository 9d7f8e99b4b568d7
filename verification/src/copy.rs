//! The sync engine: which files and directories a copy between two spaces moves.
//!
//! The engine decides; it touches no file. Its caller expands globs and walks
//! directories, hands over what it found, and carries out what comes back.

use crate::fspath::{joined_path, path_join, path_relative, relative_path};
use crate::globs::{glob_matches, glob_valid, pattern_compiles, pattern_matches};
use crate::text::{
    chars_contain, chars_occur_at, chars_of, decimal, digits_of, has_infix, has_prefix, has_suffix,
    join_text, lines, lines_of, same_text, starts_with, strip_prefix, trim, trimmed,
    without_prefix,
};
use vstd::prelude::*;

verus! {

/// A pattern that could reach outside the root it is applied to: an absolute
/// one, or one that climbs with `..`.
pub open spec fn unsafe_pattern(p: Seq<char>) -> bool {
    ||| has_prefix(p, "/"@)
    ||| p == ".."@
    ||| has_prefix(p, "../"@)
    ||| has_infix(p, "/../"@)
    ||| has_suffix(p, "/.."@)
}

/// Whether `pattern` is unsafe. Unsafe patterns are never matched.
pub fn is_unsafe_pattern(pattern: &str) -> (risky: bool)
    ensures
        risky == unsafe_pattern(pattern@),
{
    let p = chars_of(pattern);
    let slash = chars_of("/");
    let up = chars_of("../");
    let inner = chars_of("/../");
    let tail = chars_of("/..");
    if chars_occur_at(&p, &slash, 0) {
        return true;
    }
    if same_text(pattern, "..") {
        return true;
    }
    if chars_occur_at(&p, &up, 0) {
        return true;
    }
    if chars_contain(&p, &inner) {
        return true;
    }
    if tail.len() <= p.len() {
        return chars_occur_at(&p, &tail, p.len() - tail.len());
    }
    false
}

/// The unsafe patterns among `patterns`, in order.
pub open spec fn unsafe_only(patterns: Seq<Seq<char>>) -> Seq<Seq<char>>
    decreases patterns.len(),
{
    if patterns.len() == 0 {
        Seq::empty()
    } else {
        let head = unsafe_only(patterns.drop_last());
        if unsafe_pattern(patterns.last()) {
            head.push(patterns.last())
        } else {
            head
        }
    }
}

/// The patterns of `patterns` that are passed over as unsafe, in order: those
/// of which the user is to be warned.
pub fn unsafe_among(patterns: &Vec<String>) -> (risky: Vec<String>)
    ensures
        risky.deep_view() == unsafe_only(patterns.deep_view()),
{
    let mut risky: Vec<String> = Vec::new();
    let mut i: usize = 0;
    assert(patterns.deep_view().take(0) =~= Seq::empty());
    assert(risky.deep_view() =~= Seq::empty());
    while i < patterns.len()
        invariant
            i <= patterns.len(),
            risky.deep_view() == unsafe_only(patterns.deep_view().take(i as int)),
        decreases patterns.len() - i,
    {
        let ghost before = risky.deep_view();
        let ghost upto = patterns.deep_view().take(i as int + 1);
        assert(upto.drop_last() =~= patterns.deep_view().take(i as int));
        assert(upto.last() == patterns[i as int]@);
        if is_unsafe_pattern(patterns[i].as_str()) {
            risky.push(patterns[i].clone());
            assert(risky.deep_view() =~= before.push(patterns[i as int]@));
        }
        i = i + 1;
    }
    assert(patterns.deep_view().take(patterns.len() as int) =~= patterns.deep_view());
    risky
}

/// An exclude pattern that takes part in matching: a safe one that compiles.
pub open spec fn usable_exclude(p: Seq<char>) -> bool {
    !unsafe_pattern(p) && glob_valid(p)
}

/// The exclude patterns that take part in matching, in their order.
pub open spec fn effective_excludes(excludes: Seq<Seq<char>>) -> Seq<Seq<char>>
    decreases excludes.len(),
{
    if excludes.len() == 0 {
        Seq::empty()
    } else {
        let head = effective_excludes(excludes.drop_last());
        if usable_exclude(excludes.last()) {
            head.push(excludes.last())
        } else {
            head
        }
    }
}

/// Some pattern of `patterns` matches the relative path `rel`.
pub open spec fn excluded_by(patterns: Seq<Seq<char>>, rel: Seq<char>) -> bool {
    exists|i: int| 0 <= i < patterns.len() && glob_matches(#[trigger] patterns[i], rel)
}

/// The exclude patterns of one run, reduced to those that are safe and compile.
pub struct ExcludeSet {
    patterns: Vec<String>,
}

impl ExcludeSet {
    #[verifier::type_invariant]
    spec fn usable(self) -> bool {
        forall|i: int|
            0 <= i < self.patterns.len() ==> usable_exclude(
                #[trigger] self.patterns.deep_view()[i],
            )
    }

    /// The patterns of the set, in order.
    pub closed spec fn view(&self) -> Seq<Seq<char>> {
        self.patterns.deep_view()
    }

    /// Keeps the patterns of `excludes` that are safe and compile.
    pub fn new(excludes: &Vec<String>) -> (set: ExcludeSet)
        ensures
            set@ == effective_excludes(excludes.deep_view()),
    {
        let mut patterns: Vec<String> = Vec::new();
        let mut i: usize = 0;
        assert(excludes.deep_view().take(0) =~= Seq::empty());
        assert(patterns.deep_view() =~= Seq::empty());
        while i < excludes.len()
            invariant
                i <= excludes.len(),
                patterns.deep_view() == effective_excludes(excludes.deep_view().take(i as int)),
                forall|k: int|
                    0 <= k < patterns.len() ==> usable_exclude(#[trigger] patterns.deep_view()[k]),
            decreases excludes.len() - i,
        {
            let ghost before = patterns.deep_view();
            let ghost upto = excludes.deep_view().take(i as int + 1);
            assert(upto.drop_last() =~= excludes.deep_view().take(i as int));
            assert(upto.last() == excludes[i as int]@);
            let pattern = excludes[i].as_str();
            if !is_unsafe_pattern(pattern) && pattern_compiles(pattern) {
                patterns.push(excludes[i].clone());
                assert(patterns.deep_view() =~= before.push(excludes[i as int]@));
            }
            i = i + 1;
        }
        assert(excludes.deep_view().take(excludes.len() as int) =~= excludes.deep_view());
        ExcludeSet { patterns }
    }

    /// Whether some pattern of the set matches the relative path `rel`.
    pub fn excludes(&self, rel: &str) -> (hit: bool)
        ensures
            hit == excluded_by(self@, rel@),
    {
        proof {
            use_type_invariant(self);
        }
        let mut i: usize = 0;
        while i < self.patterns.len()
            invariant
                i <= self.patterns.len(),
                forall|k: int|
                    0 <= k < self.patterns.len() ==> usable_exclude(
                        #[trigger] self.patterns.deep_view()[k],
                    ),
                forall|k: int|
                    0 <= k < i ==> !glob_matches(#[trigger] self.patterns.deep_view()[k], rel@),
            decreases self.patterns.len() - i,
        {
            assert(usable_exclude(self.patterns.deep_view()[i as int]));
            assert(self.patterns.deep_view()[i as int] == self.patterns[i as int]@);
            if pattern_matches(self.patterns[i].as_str(), rel) {
                return true;
            }
            i = i + 1;
        }
        false
    }
}

/// What one line of a pattern file contributes: the line without the whitespace
/// around it, unless that is empty or a comment.
pub open spec fn pattern_of_line(line: Seq<char>) -> Option<Seq<char>> {
    let t = trimmed(line);
    if t.len() == 0 || has_prefix(t, "#"@) {
        None
    } else {
        Some(t)
    }
}

/// The patterns that the lines of a pattern file hold, in order.
pub open spec fn patterns_of_lines(all: Seq<Seq<char>>) -> Seq<Seq<char>>
    decreases all.len(),
{
    if all.len() == 0 {
        Seq::empty()
    } else {
        let head = patterns_of_lines(all.drop_last());
        match pattern_of_line(all.last()) {
            Some(p) => head.push(p),
            None => head,
        }
    }
}

/// The patterns of a pattern file: one per line, blank lines and lines that
/// begin with `#` left out. `content` is `None` where the file does not exist,
/// which gives no pattern.
pub fn parse_pattern_file(content: Option<&str>) -> (patterns: Vec<String>)
    ensures
        content is None ==> patterns.deep_view() == Seq::<Seq<char>>::empty(),
        content matches Some(c) ==> patterns.deep_view() == patterns_of_lines(lines_of(c@)),
{
    let mut out: Vec<String> = Vec::new();
    assert(out.deep_view() =~= Seq::empty());
    let text = match content {
        Some(c) => c,
        None => {
            return out;
        },
    };
    let all = lines(text);
    let mut i: usize = 0;
    assert(all.deep_view().take(0) =~= Seq::empty());
    while i < all.len()
        invariant
            i <= all.len(),
            out.deep_view() == patterns_of_lines(all.deep_view().take(i as int)),
        decreases all.len() - i,
    {
        let ghost before = out.deep_view();
        let ghost upto = all.deep_view().take(i as int + 1);
        assert(upto.drop_last() =~= all.deep_view().take(i as int));
        assert(upto.last() == all[i as int]@);
        let t = trim(all[i].as_str());
        if !(t.as_str().is_empty() || starts_with(t.as_str(), "#")) {
            let ghost tv = t@;
            out.push(t);
            assert(out.deep_view() =~= before.push(tv));
        }
        i = i + 1;
    }
    assert(all.deep_view().take(all.len() as int) =~= all.deep_view());
    out
}

/// One file or directory to copy: where it is, where it goes, and its path
/// below both roots.
#[derive(Debug)]
pub struct CopyItem {
    pub rel: String,
    pub from: String,
    pub to: String,
}

/// A `CopyItem` as plain sequences of characters.
pub ghost struct CopyItemView {
    pub rel: Seq<char>,
    pub from: Seq<char>,
    pub to: Seq<char>,
}

impl View for CopyItem {
    type V = CopyItemView;

    open spec fn view(&self) -> CopyItemView {
        CopyItemView { rel: self.rel@, from: self.from@, to: self.to@ }
    }
}

impl DeepView for CopyItem {
    type V = CopyItemView;

    open spec fn deep_view(&self) -> CopyItemView {
        self@
    }
}

/// The relative paths of `items`, in order.
pub open spec fn rels(items: Seq<CopyItemView>) -> Seq<Seq<char>> {
    items.map_values(|item: CopyItemView| item.rel)
}

/// The item for the path `path` found below `src_root`, to be copied below
/// `dst_root`; `None` where `path` is not below `src_root`.
pub open spec fn item_for(src_root: Seq<char>, dst_root: Seq<char>, path: Seq<char>) -> Option<
    CopyItemView,
> {
    match relative_path(path, src_root) {
        Some(rel) => Some(CopyItemView { rel, from: path, to: joined_path(dst_root, rel) }),
        None => None,
    }
}

/// What expanding a glob came upon: a path, and whether a regular file stands
/// there.
#[derive(Debug)]
pub struct FoundPath {
    pub path: String,
    pub is_file: bool,
}

/// A `FoundPath` as plain values.
pub ghost struct FoundPathView {
    pub path: Seq<char>,
    pub is_file: bool,
}

impl View for FoundPath {
    type V = FoundPathView;

    open spec fn view(&self) -> FoundPathView {
        FoundPathView { path: self.path@, is_file: self.is_file }
    }
}

impl DeepView for FoundPath {
    type V = FoundPathView;

    open spec fn deep_view(&self) -> FoundPathView {
        self@
    }
}

/// The item for what was found at `found`: only a regular file below
/// `src_root` gives one.
pub open spec fn file_item_for(src_root: Seq<char>, dst_root: Seq<char>, found: FoundPathView) -> Option<
    CopyItemView,
> {
    if found.is_file {
        item_for(src_root, dst_root, found.path)
    } else {
        None
    }
}

/// `acc` extended by the files among `paths` that are to be copied: the regular
/// files below `src_root` that no pattern of `excl` matches and whose relative
/// path was not taken before.
pub open spec fn selected(
    acc: Seq<CopyItemView>,
    src_root: Seq<char>,
    dst_root: Seq<char>,
    excl: Seq<Seq<char>>,
    paths: Seq<FoundPathView>,
) -> Seq<CopyItemView>
    decreases paths.len(),
{
    if paths.len() == 0 {
        acc
    } else {
        let head = selected(acc, src_root, dst_root, excl, paths.drop_last());
        match file_item_for(src_root, dst_root, paths.last()) {
            Some(item) => if excluded_by(excl, item.rel) || rels(head).contains(item.rel) {
                head
            } else {
                head.push(item)
            },
            None => head,
        }
    }
}

/// Builds the item for `path`, where it is below `src_root`.
fn make_item(src_root: &str, dst_root: &str, path: &str) -> (item: Option<CopyItem>)
    ensures
        item is Some == item_for(src_root@, dst_root@, path@) is Some,
        item matches Some(it) ==> item_for(src_root@, dst_root@, path@) == Some(it@),
{
    match path_relative(path, src_root) {
        Some(rel) => {
            let to = path_join(dst_root, rel.as_str());
            Some(CopyItem { rel, from: path.to_owned(), to })
        },
        None => None,
    }
}

/// Whether an item of `items` has the relative path `rel`.
fn has_rel(items: &Vec<CopyItem>, rel: &str) -> (found: bool)
    ensures
        found == rels(items.deep_view()).contains(rel@),
{
    let mut i: usize = 0;
    while i < items.len()
        invariant
            i <= items.len(),
            forall|k: int| 0 <= k < i ==> rels(items.deep_view())[k] != rel@,
        decreases items.len() - i,
    {
        assert(rels(items.deep_view())[i as int] == items[i as int].rel@);
        if same_text(items[i].rel.as_str(), rel) {
            return true;
        }
        i = i + 1;
    }
    false
}

/// Extends `items` by the files of `paths` that are to be copied.
fn select_into(
    items: &mut Vec<CopyItem>,
    src_root: &str,
    dst_root: &str,
    excl: &ExcludeSet,
    paths: &Vec<FoundPath>,
)
    ensures
        final(items).deep_view() == selected(
            old(items).deep_view(),
            src_root@,
            dst_root@,
            excl@,
            paths.deep_view(),
        ),
{
    let mut i: usize = 0;
    assert(paths.deep_view().take(0) =~= Seq::empty());
    while i < paths.len()
        invariant
            i <= paths.len(),
            items.deep_view() == selected(
                old(items).deep_view(),
                src_root@,
                dst_root@,
                excl@,
                paths.deep_view().take(i as int),
            ),
        decreases paths.len() - i,
    {
        let ghost before = items.deep_view();
        let ghost upto = paths.deep_view().take(i as int + 1);
        assert(upto.drop_last() =~= paths.deep_view().take(i as int));
        assert(upto.last() == paths[i as int]@);
        if paths[i].is_file {
            match make_item(src_root, dst_root, paths[i].path.as_str()) {
                Some(item) => {
                    if !excl.excludes(item.rel.as_str()) && !has_rel(items, item.rel.as_str()) {
                        let ghost iv = item@;
                        items.push(item);
                        assert(items.deep_view() =~= before.push(iv));
                    }
                },
                None => {},
            }
        }
        i = i + 1;
    }
    assert(paths.deep_view().take(paths.len() as int) =~= paths.deep_view());
}

/// An include pattern as it is expanded: without a leading `./`.
pub open spec fn normalized_include(pattern: Seq<char>) -> Seq<char> {
    match without_prefix(pattern, "./"@) {
        Some(rest) => rest,
        None => pattern,
    }
}

/// The glob to expand for the include pattern `pattern` below `src_root`;
/// `None` for an unsafe pattern, which is never expanded.
pub open spec fn glob_for(src_root: Seq<char>, pattern: Seq<char>) -> Option<Seq<char>> {
    if unsafe_pattern(pattern) {
        None
    } else {
        Some(joined_path(src_root, normalized_include(pattern)))
    }
}

/// The glob that the caller has to expand for one include pattern, rooted at
/// `src_root`. An unsafe pattern gives `None`: nothing is looked up for it.
pub fn include_glob(src_root: &str, pattern: &str) -> (glob: Option<String>)
    ensures
        glob is Some == !unsafe_pattern(pattern@),
        glob matches Some(g) ==> glob_for(src_root@, pattern@) == Some(g@),
{
    if is_unsafe_pattern(pattern) {
        return None;
    }
    match strip_prefix(pattern, "./") {
        Some(rest) => Some(path_join(src_root, rest.as_str())),
        None => Some(path_join(src_root, pattern)),
    }
}

/// What the expansion of one include pattern gave.
#[derive(Debug)]
pub enum Expansion {
    /// What the glob matched, in the order in which it was found.
    Found(Vec<FoundPath>),
    /// The glob was refused as malformed.
    Invalid,
}

/// An `Expansion` as plain sequences of characters.
pub ghost enum ExpansionView {
    Found(Seq<FoundPathView>),
    Invalid,
}

impl View for Expansion {
    type V = ExpansionView;

    open spec fn view(&self) -> ExpansionView {
        match self {
            Expansion::Found(paths) => ExpansionView::Found(paths.deep_view()),
            Expansion::Invalid => ExpansionView::Invalid,
        }
    }
}

impl DeepView for Expansion {
    type V = ExpansionView;

    open spec fn deep_view(&self) -> ExpansionView {
        self@
    }
}

/// The expansion that belongs to the include pattern at `i`; a pattern without
/// one matched nothing.
pub open spec fn expansion_at(found: Seq<ExpansionView>, i: int) -> ExpansionView {
    if 0 <= i < found.len() {
        found[i]
    } else {
        ExpansionView::Found(Seq::empty())
    }
}

/// What a run over the include patterns comes to.
pub ghost struct CopyRun {
    /// The files to copy, in order.
    pub items: Seq<CopyItemView>,
    /// The unsafe include patterns that were passed over, in order.
    pub skipped: Seq<Seq<char>>,
    /// The include pattern whose malformed glob ended the run, if one did.
    pub failed: Option<Seq<char>>,
}

/// The run over the first `n` include patterns. Patterns are taken in order; an
/// unsafe one is passed over and noted; a malformed glob ends the run, and what
/// was selected before it stays.
pub open spec fn copy_run(
    src_root: Seq<char>,
    dst_root: Seq<char>,
    includes: Seq<Seq<char>>,
    excl: Seq<Seq<char>>,
    found: Seq<ExpansionView>,
    n: nat,
) -> CopyRun
    decreases n,
{
    if n == 0 || n > includes.len() {
        CopyRun { items: Seq::empty(), skipped: Seq::empty(), failed: None }
    } else {
        let before = copy_run(src_root, dst_root, includes, excl, found, (n - 1) as nat);
        let i = n - 1;
        if before.failed is Some {
            before
        } else if unsafe_pattern(includes[i]) {
            CopyRun { skipped: before.skipped.push(includes[i]), ..before }
        } else {
            match expansion_at(found, i) {
                ExpansionView::Invalid => CopyRun { failed: Some(includes[i]), ..before },
                ExpansionView::Found(paths) => CopyRun {
                    items: selected(before.items, src_root, dst_root, excl, paths),
                    ..before
                },
            }
        }
    }
}

/// The result of `copy_patterns`.
#[derive(Debug)]
pub struct CopyOutcome {
    /// The files that the run copies, or would copy, in order.
    pub items: Vec<CopyItem>,
    /// The unsafe include patterns that the run passed over, in order.
    pub skipped: Vec<String>,
    /// The unsafe exclude patterns that the run left out of account, in order.
    pub ignored: Vec<String>,
    /// The include pattern whose malformed glob ended the run early.
    pub failed: Option<String>,
    /// Whether the run only reports: nothing is to be written then.
    pub dry_run: bool,
}

/// A `CopyOutcome` as plain values.
pub ghost struct CopyOutcomeView {
    pub items: Seq<CopyItemView>,
    pub skipped: Seq<Seq<char>>,
    pub ignored: Seq<Seq<char>>,
    pub failed: Option<Seq<char>>,
    pub dry_run: bool,
}

impl View for CopyOutcome {
    type V = CopyOutcomeView;

    open spec fn view(&self) -> CopyOutcomeView {
        CopyOutcomeView {
            items: self.items.deep_view(),
            skipped: self.skipped.deep_view(),
            ignored: self.ignored.deep_view(),
            failed: self.failed.deep_view(),
            dry_run: self.dry_run,
        }
    }
}

/// The unsafe exclude patterns that a run leaves out of account. A run without
/// include patterns looks at no exclude pattern.
pub open spec fn ignored_excludes(includes: Seq<Seq<char>>, excludes: Seq<Seq<char>>) -> Seq<
    Seq<char>,
> {
    if includes.len() == 0 {
        Seq::empty()
    } else {
        unsafe_only(excludes)
    }
}

/// What `copy_patterns` returns: the run over all include patterns against the
/// usable exclude patterns, with the unsafe patterns that it left aside, marked
/// as a dry run or a real one.
pub open spec fn copy_outcome(
    src_root: Seq<char>,
    dst_root: Seq<char>,
    includes: Seq<Seq<char>>,
    excludes: Seq<Seq<char>>,
    found: Seq<ExpansionView>,
    dry_run: bool,
) -> CopyOutcomeView {
    let run = copy_run(
        src_root,
        dst_root,
        includes,
        effective_excludes(excludes),
        found,
        includes.len(),
    );
    CopyOutcomeView {
        items: run.items,
        skipped: run.skipped,
        ignored: ignored_excludes(includes, excludes),
        failed: run.failed,
        dry_run,
    }
}

/// The warnings about unsafe patterns: first one line for each exclude pattern
/// left out of account, then one for each include pattern passed over.
pub open spec fn warnings_of(ignored: Seq<Seq<char>>, skipped: Seq<Seq<char>>) -> Seq<Seq<char>> {
    Seq::new(ignored.len(), |i: int| "Skipping unsafe exclude pattern: "@ + ignored[i]) + Seq::new(
        skipped.len(),
        |i: int| "Skipping unsafe pattern: "@ + skipped[i],
    )
}

/// The warnings about unsafe patterns, line by line.
fn warning_lines(ignored: &Vec<String>, skipped: &Vec<String>) -> (lines: Vec<String>)
    ensures
        lines.deep_view() == warnings_of(ignored.deep_view(), skipped.deep_view()),
{
    let mut lines: Vec<String> = Vec::new();
    let mut i: usize = 0;
    while i < ignored.len()
        invariant
            i <= ignored.len(),
            lines.len() == i,
            forall|k: int|
                0 <= k < i ==> #[trigger] lines.deep_view()[k]
                    == "Skipping unsafe exclude pattern: "@ + ignored.deep_view()[k],
        decreases ignored.len() - i,
    {
        let ghost before = lines.deep_view();
        assert(ignored.deep_view()[i as int] == ignored[i as int]@);
        let line = join_text("Skipping unsafe exclude pattern: ", ignored[i].as_str());
        let ghost lv = line@;
        lines.push(line);
        assert(lines.deep_view() =~= before.push(lv));
        i = i + 1;
    }
    let mut j: usize = 0;
    while j < skipped.len()
        invariant
            j <= skipped.len(),
            lines.len() == ignored.len() + j,
            forall|k: int|
                0 <= k < ignored.len() ==> #[trigger] lines.deep_view()[k]
                    == "Skipping unsafe exclude pattern: "@ + ignored.deep_view()[k],
            forall|k: int|
                0 <= k < j ==> #[trigger] lines.deep_view()[ignored.len() + k]
                    == "Skipping unsafe pattern: "@ + skipped.deep_view()[k],
        decreases skipped.len() - j,
    {
        let ghost before = lines.deep_view();
        assert(skipped.deep_view()[j as int] == skipped[j as int]@);
        let line = join_text("Skipping unsafe pattern: ", skipped[j].as_str());
        let ghost lv = line@;
        lines.push(line);
        assert(lines.deep_view() =~= before.push(lv));
        assert forall|k: int| 0 <= k < ignored.len() implies #[trigger] lines.deep_view()[k]
            == "Skipping unsafe exclude pattern: "@ + ignored.deep_view()[k] by {
            assert(lines.deep_view()[k] == before[k]);
        }
        assert forall|k: int| 0 <= k < j + 1 implies #[trigger] lines.deep_view()[ignored.len() + k]
            == "Skipping unsafe pattern: "@ + skipped.deep_view()[k] by {
            if k < j {
                assert(lines.deep_view()[ignored.len() + k] == before[ignored.len() + k]);
            }
        }
        j = j + 1;
    }
    proof {
        let a = Seq::new(
            ignored.deep_view().len(),
            |i: int| "Skipping unsafe exclude pattern: "@ + ignored.deep_view()[i],
        );
        let b = Seq::new(
            skipped.deep_view().len(),
            |i: int| "Skipping unsafe pattern: "@ + skipped.deep_view()[i],
        );
        assert(lines.deep_view().len() == a.len() + b.len());
        assert forall|k: int| 0 <= k < lines.deep_view().len() implies lines.deep_view()[k] == (a
            + b)[k] by {
            if k >= a.len() {
                assert(lines.deep_view()[ignored.len() + (k - a.len())] == b[k - a.len()]);
            }
        }
        assert(lines.deep_view() =~= a + b);
    }
    lines
}

/// The line that reports one file: copied, or to be copied in a dry run.
pub open spec fn item_line(rel: Seq<char>, dry_run: bool) -> Seq<char> {
    if dry_run {
        "[dry-run] Would copy: "@ + rel
    } else {
        "Copied "@ + rel
    }
}

/// The line that sums up a run over `count` files.
pub open spec fn summary_line(count: nat, dry_run: bool) -> Seq<char> {
    if dry_run {
        "[dry-run] Would copy "@ + digits_of(count) + " file(s)"@
    } else {
        "Copied "@ + digits_of(count) + " file(s)"@
    }
}

/// The report of a run: one line for each file, in order, and a line that
/// sums up, unless there was no file.
pub open spec fn report_of(outcome: CopyOutcomeView) -> Seq<Seq<char>> {
    let lines = Seq::new(
        outcome.items.len(),
        |i: int| item_line(outcome.items[i].rel, outcome.dry_run),
    );
    if outcome.items.len() > 0 {
        lines.push(summary_line(outcome.items.len(), outcome.dry_run))
    } else {
        lines
    }
}

impl CopyOutcome {
    /// The number of files that the run copies, or would copy.
    pub fn count(&self) -> (n: usize)
        ensures
            n == self@.items.len(),
    {
        self.items.len()
    }

    /// The warnings of the run about unsafe patterns, line by line.
    pub fn warnings(&self) -> (lines: Vec<String>)
        ensures
            lines.deep_view() == warnings_of(self@.ignored, self@.skipped),
    {
        warning_lines(&self.ignored, &self.skipped)
    }

    /// What the run reports, line by line.
    pub fn report(&self) -> (lines: Vec<String>)
        ensures
            lines.deep_view() == report_of(self@),
    {
        let mut lines: Vec<String> = Vec::new();
        let mut i: usize = 0;
        while i < self.items.len()
            invariant
                i <= self.items.len(),
                lines.len() == i,
                forall|k: int|
                    0 <= k < i ==> #[trigger] lines.deep_view()[k] == item_line(
                        self@.items[k].rel,
                        self.dry_run,
                    ),
            decreases self.items.len() - i,
        {
            let ghost before = lines.deep_view();
            assert(self.items.deep_view()[i as int] == self.items[i as int]@);
            let line = if self.dry_run {
                join_text("[dry-run] Would copy: ", self.items[i].rel.as_str())
            } else {
                join_text("Copied ", self.items[i].rel.as_str())
            };
            let ghost lv = line@;
            lines.push(line);
            assert(lines.deep_view() =~= before.push(lv));
            i = i + 1;
        }
        let ghost body = lines.deep_view();
        assert(body =~= Seq::new(
            self@.items.len(),
            |i: int| item_line(self@.items[i].rel, self@.dry_run),
        ));
        if self.items.len() > 0 {
            let mut line = if self.dry_run {
                join_text("[dry-run] Would copy ", decimal(self.items.len()).as_str())
            } else {
                join_text("Copied ", decimal(self.items.len()).as_str())
            };
            line.append(" file(s)");
            let ghost lv = line@;
            lines.push(line);
            assert(lines.deep_view() =~= body.push(lv));
        }
        lines
    }
}

/// A run has failed from some pattern on: the patterns after it change nothing.
pub proof fn lemma_run_ended(
    src_root: Seq<char>,
    dst_root: Seq<char>,
    includes: Seq<Seq<char>>,
    excl: Seq<Seq<char>>,
    found: Seq<ExpansionView>,
    k: nat,
    n: nat,
)
    requires
        k <= n <= includes.len(),
        copy_run(src_root, dst_root, includes, excl, found, k).failed is Some,
    ensures
        copy_run(src_root, dst_root, includes, excl, found, n) == copy_run(
            src_root,
            dst_root,
            includes,
            excl,
            found,
            k,
        ),
    decreases n - k,
{
    if k < n {
        lemma_run_ended(src_root, dst_root, includes, excl, found, k, (n - 1) as nat);
    }
}

/// Decides which files a copy from `src_root` to `dst_root` moves.
///
/// `found` holds, for each include pattern, what expanding `include_glob` of it
/// gave. Include patterns are taken in order. An unsafe one is passed over, and
/// what was found for it is not looked at. A malformed one ends the run. Of what
/// was found, the regular files below `src_root` are kept that no usable exclude
/// pattern matches and whose relative path did not come up before. A dry run
/// selects the same files as a real one.
pub fn copy_patterns(
    src_root: &str,
    dst_root: &str,
    includes: &Vec<String>,
    excludes: &Vec<String>,
    found: &Vec<Expansion>,
    dry_run: bool,
) -> (outcome: CopyOutcome)
    ensures
        outcome@ == copy_outcome(
            src_root@,
            dst_root@,
            includes.deep_view(),
            excludes.deep_view(),
            found.deep_view(),
            dry_run,
        ),
{
    let excl = ExcludeSet::new(excludes);
    let ignored = if includes.len() == 0 {
        Vec::new()
    } else {
        unsafe_among(excludes)
    };
    assert(ignored.deep_view() =~= ignored_excludes(includes.deep_view(), excludes.deep_view()));
    let mut items: Vec<CopyItem> = Vec::new();
    let mut skipped: Vec<String> = Vec::new();
    let mut failed: Option<String> = None;
    let mut i: usize = 0;
    assert(items.deep_view() =~= Seq::empty());
    assert(skipped.deep_view() =~= Seq::empty());
    while i < includes.len() && failed.is_none()
        invariant
            i <= includes.len(),
            excl@ == effective_excludes(excludes.deep_view()),
            items.deep_view() == copy_run(
                src_root@,
                dst_root@,
                includes.deep_view(),
                excl@,
                found.deep_view(),
                i as nat,
            ).items,
            skipped.deep_view() == copy_run(
                src_root@,
                dst_root@,
                includes.deep_view(),
                excl@,
                found.deep_view(),
                i as nat,
            ).skipped,
            failed.deep_view() == copy_run(
                src_root@,
                dst_root@,
                includes.deep_view(),
                excl@,
                found.deep_view(),
                i as nat,
            ).failed,
        decreases includes.len() - i,
    {
        assert(includes.deep_view()[i as int] == includes[i as int]@);
        if is_unsafe_pattern(includes[i].as_str()) {
            let ghost before = skipped.deep_view();
            skipped.push(includes[i].clone());
            assert(skipped.deep_view() =~= before.push(includes[i as int]@));
        } else {
            if i < found.len() {
                assert(found.deep_view()[i as int] == found[i as int]@);
                match &found[i] {
                    Expansion::Found(paths) => {
                        select_into(&mut items, src_root, dst_root, &excl, paths);
                    },
                    Expansion::Invalid => {
                        failed = Some(includes[i].clone());
                    },
                }
            } else {
                assert(selected(
                    items.deep_view(),
                    src_root@,
                    dst_root@,
                    excl@,
                    Seq::<FoundPathView>::empty(),
                ) == items.deep_view());
            }
        }
        i = i + 1;
    }
    proof {
        if failed.is_some() {
            lemma_run_ended(
                src_root@,
                dst_root@,
                includes.deep_view(),
                excl@,
                found.deep_view(),
                i as nat,
                includes.len() as nat,
            );
        }
    }
    CopyOutcome { items, skipped, ignored, failed, dry_run }
}

/// A dry run and a real run over the same input select the same files, and so
/// report the same count.
pub proof fn lemma_dry_run_selects_the_same(
    src_root: Seq<char>,
    dst_root: Seq<char>,
    includes: Seq<Seq<char>>,
    excludes: Seq<Seq<char>>,
    found: Seq<ExpansionView>,
)
    ensures
        copy_outcome(src_root, dst_root, includes, excludes, found, true).items == copy_outcome(
            src_root,
            dst_root,
            includes,
            excludes,
            found,
            false,
        ).items,
        copy_outcome(src_root, dst_root, includes, excludes, found, true).items.len()
            == copy_outcome(src_root, dst_root, includes, excludes, found, false).items.len(),
        copy_outcome(src_root, dst_root, includes, excludes, found, true).failed == copy_outcome(
            src_root,
            dst_root,
            includes,
            excludes,
            found,
            false,
        ).failed,
        report_of(copy_outcome(src_root, dst_root, includes, excludes, found, true)).len()
            == report_of(copy_outcome(src_root, dst_root, includes, excludes, found, false)).len(),
        copy_outcome(src_root, dst_root, includes, excludes, found, true).skipped == copy_outcome(
            src_root,
            dst_root,
            includes,
            excludes,
            found,
            false,
        ).skipped,
        copy_outcome(src_root, dst_root, includes, excludes, found, true).ignored == copy_outcome(
            src_root,
            dst_root,
            includes,
            excludes,
            found,
            false,
        ).ignored,
{
}

/// Two records of what was found differ only at unsafe include patterns.
pub open spec fn same_at_safe_includes(
    includes: Seq<Seq<char>>,
    a: Seq<ExpansionView>,
    b: Seq<ExpansionView>,
) -> bool {
    forall|i: int|
        0 <= i < includes.len() && !unsafe_pattern(#[trigger] includes[i]) ==> expansion_at(a, i)
            == expansion_at(b, i)
}

/// Nothing that is found for an unsafe include pattern reaches the result:
/// whatever stands there, the run is the same.
pub proof fn lemma_unsafe_include_selects_nothing(
    src_root: Seq<char>,
    dst_root: Seq<char>,
    includes: Seq<Seq<char>>,
    excl: Seq<Seq<char>>,
    a: Seq<ExpansionView>,
    b: Seq<ExpansionView>,
    n: nat,
)
    requires
        same_at_safe_includes(includes, a, b),
    ensures
        copy_run(src_root, dst_root, includes, excl, a, n) == copy_run(
            src_root,
            dst_root,
            includes,
            excl,
            b,
            n,
        ),
    decreases n,
{
    if 0 < n <= includes.len() {
        lemma_unsafe_include_selects_nothing(
            src_root,
            dst_root,
            includes,
            excl,
            a,
            b,
            (n - 1) as nat,
        );
        assert(unsafe_pattern(includes[n - 1]) || expansion_at(a, n - 1) == expansion_at(b, n - 1));
    }
}

/// Every exclude pattern that takes part in matching is one of the patterns
/// given, is safe, and compiles.
pub proof fn lemma_effective_excludes_usable(excludes: Seq<Seq<char>>, i: int)
    requires
        0 <= i < effective_excludes(excludes).len(),
    ensures
        usable_exclude(effective_excludes(excludes)[i]),
        excludes.contains(effective_excludes(excludes)[i]),
    decreases excludes.len(),
{
    let head = effective_excludes(excludes.drop_last());
    if i < head.len() {
        lemma_effective_excludes_usable(excludes.drop_last(), i);
        let k = choose|k: int|
            0 <= k < excludes.drop_last().len() && excludes.drop_last()[k] == head[i];
        assert(excludes[k] == head[i]);
    } else {
        assert(excludes[excludes.len() - 1] == excludes.last());
    }
}

/// An unsafe exclude pattern excludes nothing: a path is excluded only where a
/// safe pattern that compiles matches it.
pub proof fn lemma_unsafe_exclude_excludes_nothing(excludes: Seq<Seq<char>>, rel: Seq<char>)
    requires
        excluded_by(effective_excludes(excludes), rel),
    ensures
        exists|k: int|
            0 <= k < excludes.len() && !unsafe_pattern(#[trigger] excludes[k]) && glob_matches(
                excludes[k],
                rel,
            ),
{
    let eff = effective_excludes(excludes);
    let i = choose|i: int| 0 <= i < eff.len() && glob_matches(#[trigger] eff[i], rel);
    lemma_effective_excludes_usable(excludes, i);
    let k = choose|k: int| 0 <= k < excludes.len() && excludes[k] == eff[i];
    assert(!unsafe_pattern(excludes[k]) && glob_matches(excludes[k], rel));
}

/// The patterns of `patterns` that are not unsafe, in order.
pub open spec fn safe_only(patterns: Seq<Seq<char>>) -> Seq<Seq<char>>
    decreases patterns.len(),
{
    if patterns.len() == 0 {
        Seq::empty()
    } else {
        let head = safe_only(patterns.drop_last());
        if unsafe_pattern(patterns.last()) {
            head
        } else {
            head.push(patterns.last())
        }
    }
}

/// Unsafe exclude patterns might as well not be there: the patterns that take
/// part in matching are the same without them.
pub proof fn lemma_unsafe_excludes_change_nothing(excludes: Seq<Seq<char>>)
    ensures
        effective_excludes(safe_only(excludes)) == effective_excludes(excludes),
    decreases excludes.len(),
{
    if excludes.len() > 0 {
        lemma_unsafe_excludes_change_nothing(excludes.drop_last());
        if !unsafe_pattern(excludes.last()) {
            let head = safe_only(excludes.drop_last());
            assert(head.push(excludes.last()).drop_last() =~= head);
        }
    }
}

/// A copy of files with the unsafe exclude patterns taken out selects what the
/// copy with them selects, and so does a copy of directories.
pub proof fn lemma_copy_without_unsafe_excludes(
    src_root: Seq<char>,
    dst_root: Seq<char>,
    includes: Seq<Seq<char>>,
    excludes: Seq<Seq<char>>,
    found: Seq<ExpansionView>,
    entries: Seq<WalkEntryView>,
    dry_run: bool,
)
    ensures
        copy_outcome(src_root, dst_root, includes, safe_only(excludes), found, dry_run).items
            == copy_outcome(src_root, dst_root, includes, excludes, found, dry_run).items,
        copy_outcome(src_root, dst_root, includes, safe_only(excludes), found, dry_run).failed
            == copy_outcome(src_root, dst_root, includes, excludes, found, dry_run).failed,
        dir_outcome(src_root, dst_root, includes, safe_only(excludes), entries).items
            == dir_outcome(src_root, dst_root, includes, excludes, entries).items,
{
    lemma_unsafe_excludes_change_nothing(excludes);
}

/// What holds of every selected file: it lies below the source root, goes to the
/// same relative path below the destination root, and no exclude pattern
/// matches it.
pub open spec fn well_selected(
    item: CopyItemView,
    src_root: Seq<char>,
    dst_root: Seq<char>,
    excl: Seq<Seq<char>>,
) -> bool {
    &&& relative_path(item.from, src_root) == Some(item.rel)
    &&& item.to == joined_path(dst_root, item.rel)
    &&& !excluded_by(excl, item.rel)
}

/// What holds of a selection: each file is well selected, and no relative path
/// comes twice.
pub open spec fn sound_selection(
    items: Seq<CopyItemView>,
    src_root: Seq<char>,
    dst_root: Seq<char>,
    excl: Seq<Seq<char>>,
) -> bool {
    &&& rels(items).no_duplicates()
    &&& forall|k: int|
        0 <= k < items.len() ==> well_selected(#[trigger] items[k], src_root, dst_root, excl)
}

/// Selecting more files keeps a selection sound.
pub proof fn lemma_selected_sound(
    acc: Seq<CopyItemView>,
    src_root: Seq<char>,
    dst_root: Seq<char>,
    excl: Seq<Seq<char>>,
    paths: Seq<FoundPathView>,
)
    requires
        sound_selection(acc, src_root, dst_root, excl),
    ensures
        sound_selection(selected(acc, src_root, dst_root, excl, paths), src_root, dst_root, excl),
    decreases paths.len(),
{
    if paths.len() > 0 {
        let head = selected(acc, src_root, dst_root, excl, paths.drop_last());
        lemma_selected_sound(acc, src_root, dst_root, excl, paths.drop_last());
        match file_item_for(src_root, dst_root, paths.last()) {
            Some(item) => {
                if !(excluded_by(excl, item.rel) || rels(head).contains(item.rel)) {
                    let out = head.push(item);
                    assert(rels(out) =~= rels(head).push(item.rel));
                    assert forall|k: int| 0 <= k < out.len() implies well_selected(
                        #[trigger] out[k],
                        src_root,
                        dst_root,
                        excl,
                    ) by {
                        if k < head.len() {
                            assert(out[k] == head[k]);
                        }
                    }
                }
            },
            None => {},
        }
    }
}

/// The files of a run are a sound selection: no relative path is copied twice,
/// every file comes from below the source root and goes below the destination
/// root at the same relative path, and no usable exclude pattern matches one.
pub proof fn lemma_copy_run_sound(
    src_root: Seq<char>,
    dst_root: Seq<char>,
    includes: Seq<Seq<char>>,
    excl: Seq<Seq<char>>,
    found: Seq<ExpansionView>,
    n: nat,
)
    ensures
        sound_selection(
            copy_run(src_root, dst_root, includes, excl, found, n).items,
            src_root,
            dst_root,
            excl,
        ),
    decreases n,
{
    if 0 < n <= includes.len() {
        let before = copy_run(src_root, dst_root, includes, excl, found, (n - 1) as nat);
        lemma_copy_run_sound(src_root, dst_root, includes, excl, found, (n - 1) as nat);
        match expansion_at(found, n - 1) {
            ExpansionView::Found(paths) => {
                lemma_selected_sound(before.items, src_root, dst_root, excl, paths);
            },
            ExpansionView::Invalid => {},
        }
    } else {
        assert(rels(Seq::<CopyItemView>::empty()) =~= Seq::empty());
    }
}

/// What kind of thing a directory walk came upon.
#[derive(Clone, Copy, Debug, PartialEq, Eq, Structural)]
pub enum EntryKind {
    Dir,
    File,
    Symlink,
    Other,
}

/// One entry of a directory walk: its path, its last component, and its kind.
#[derive(Debug)]
pub struct WalkEntry {
    pub path: String,
    pub name: String,
    pub kind: EntryKind,
}

/// A `WalkEntry` as plain values.
pub ghost struct WalkEntryView {
    pub path: Seq<char>,
    pub name: Seq<char>,
    pub kind: EntryKind,
}

impl View for WalkEntry {
    type V = WalkEntryView;

    open spec fn view(&self) -> WalkEntryView {
        WalkEntryView { path: self.path@, name: self.name@, kind: self.kind }
    }
}

impl DeepView for WalkEntry {
    type V = WalkEntryView;

    open spec fn deep_view(&self) -> WalkEntryView {
        self@
    }
}

/// An include pattern for directories that is applied: a safe one that compiles.
pub open spec fn usable_include(p: Seq<char>) -> bool {
    !unsafe_pattern(p) && glob_valid(p)
}

/// The copy that the directory pattern `pattern` asks for at `entry`: the entry
/// is a directory below `src_root` whose name the pattern matches, and no
/// exclude pattern matches its relative path.
pub open spec fn dir_item_for(
    src_root: Seq<char>,
    dst_root: Seq<char>,
    pattern: Seq<char>,
    excl: Seq<Seq<char>>,
    entry: WalkEntryView,
) -> Option<CopyItemView> {
    if entry.kind == EntryKind::Dir && glob_matches(pattern, entry.name) {
        match item_for(src_root, dst_root, entry.path) {
            Some(item) => if excluded_by(excl, item.rel) {
                None
            } else {
                Some(item)
            },
            None => None,
        }
    } else {
        None
    }
}

/// The directories among `entries` that the pattern `pattern` copies, in the
/// order of the walk.
pub open spec fn dirs_matching(
    src_root: Seq<char>,
    dst_root: Seq<char>,
    pattern: Seq<char>,
    excl: Seq<Seq<char>>,
    entries: Seq<WalkEntryView>,
) -> Seq<CopyItemView>
    decreases entries.len(),
{
    if entries.len() == 0 {
        Seq::empty()
    } else {
        let head = dirs_matching(src_root, dst_root, pattern, excl, entries.drop_last());
        match dir_item_for(src_root, dst_root, pattern, excl, entries.last()) {
            Some(item) => head.push(item),
            None => head,
        }
    }
}

/// The directories that the first `n` include patterns copy: pattern by
/// pattern, each over the whole walk. An unsafe pattern and one that does not
/// compile copy nothing. A directory that two patterns match is copied twice.
pub open spec fn dir_run(
    src_root: Seq<char>,
    dst_root: Seq<char>,
    includes: Seq<Seq<char>>,
    excl: Seq<Seq<char>>,
    entries: Seq<WalkEntryView>,
    n: nat,
) -> Seq<CopyItemView>
    decreases n,
{
    if n == 0 || n > includes.len() {
        Seq::empty()
    } else {
        let before = dir_run(src_root, dst_root, includes, excl, entries, (n - 1) as nat);
        if usable_include(includes[n - 1]) {
            before + dirs_matching(src_root, dst_root, includes[n - 1], excl, entries)
        } else {
            before
        }
    }
}

/// Extends `items` by the directories of `entries` that `pattern` copies.
fn match_dirs_into(
    items: &mut Vec<CopyItem>,
    src_root: &str,
    dst_root: &str,
    pattern: &str,
    excl: &ExcludeSet,
    entries: &Vec<WalkEntry>,
)
    requires
        glob_valid(pattern@),
    ensures
        final(items).deep_view() == old(items).deep_view() + dirs_matching(
            src_root@,
            dst_root@,
            pattern@,
            excl@,
            entries.deep_view(),
        ),
{
    let mut i: usize = 0;
    assert(entries.deep_view().take(0) =~= Seq::empty());
    assert(items.deep_view() =~= old(items).deep_view() + Seq::<CopyItemView>::empty());
    while i < entries.len()
        invariant
            i <= entries.len(),
            glob_valid(pattern@),
            items.deep_view() == old(items).deep_view() + dirs_matching(
                src_root@,
                dst_root@,
                pattern@,
                excl@,
                entries.deep_view().take(i as int),
            ),
        decreases entries.len() - i,
    {
        let ghost before = items.deep_view();
        let ghost upto = entries.deep_view().take(i as int + 1);
        assert(upto.drop_last() =~= entries.deep_view().take(i as int));
        assert(upto.last() == entries[i as int]@);
        let entry = &entries[i];
        if entry.kind == EntryKind::Dir && pattern_matches(pattern, entry.name.as_str()) {
            match make_item(src_root, dst_root, entry.path.as_str()) {
                Some(item) => {
                    if !excl.excludes(item.rel.as_str()) {
                        let ghost iv = item@;
                        items.push(item);
                        assert(items.deep_view() =~= before.push(iv));
                    }
                },
                None => {},
            }
        }
        assert(items.deep_view() =~= old(items).deep_view() + dirs_matching(
            src_root@,
            dst_root@,
            pattern@,
            excl@,
            upto,
        ));
        i = i + 1;
    }
    assert(entries.deep_view().take(entries.len() as int) =~= entries.deep_view());
}

/// The result of `copy_directories`.
#[derive(Debug)]
pub struct DirOutcome {
    /// The directories to copy, in order.
    pub items: Vec<CopyItem>,
    /// The unsafe include patterns that were passed over, in order.
    pub skipped: Vec<String>,
    /// The unsafe exclude patterns that were left out of account, in order.
    pub ignored: Vec<String>,
}

/// A `DirOutcome` as plain values.
pub ghost struct DirOutcomeView {
    pub items: Seq<CopyItemView>,
    pub skipped: Seq<Seq<char>>,
    pub ignored: Seq<Seq<char>>,
}

impl View for DirOutcome {
    type V = DirOutcomeView;

    open spec fn view(&self) -> DirOutcomeView {
        DirOutcomeView {
            items: self.items.deep_view(),
            skipped: self.skipped.deep_view(),
            ignored: self.ignored.deep_view(),
        }
    }
}

impl DirOutcome {
    /// The number of directories to copy.
    pub fn count(&self) -> (n: usize)
        ensures
            n == self@.items.len(),
    {
        self.items.len()
    }

    /// The warnings about unsafe patterns, line by line.
    pub fn warnings(&self) -> (lines: Vec<String>)
        ensures
            lines.deep_view() == warnings_of(self@.ignored, self@.skipped),
    {
        warning_lines(&self.ignored, &self.skipped)
    }

    /// What is reported of the directories copied, line by line.
    pub fn report(&self) -> (lines: Vec<String>)
        ensures
            lines.deep_view() == dir_report_of(self@.items),
    {
        let mut lines: Vec<String> = Vec::new();
        let mut i: usize = 0;
        while i < self.items.len()
            invariant
                i <= self.items.len(),
                lines.len() == i,
                forall|k: int|
                    0 <= k < i ==> #[trigger] lines.deep_view()[k] == "Copied directory "@
                        + self@.items[k].rel,
            decreases self.items.len() - i,
        {
            let ghost before = lines.deep_view();
            assert(self.items.deep_view()[i as int] == self.items[i as int]@);
            let line = join_text("Copied directory ", self.items[i].rel.as_str());
            let ghost lv = line@;
            lines.push(line);
            assert(lines.deep_view() =~= before.push(lv));
            i = i + 1;
        }
        let ghost body = lines.deep_view();
        assert(body =~= Seq::new(
            self@.items.len(),
            |i: int| "Copied directory "@ + self@.items[i].rel,
        ));
        if self.items.len() > 0 {
            let mut line = join_text("Copied ", decimal(self.items.len()).as_str());
            line.append(" directories");
            let ghost lv = line@;
            lines.push(line);
            assert(lines.deep_view() =~= body.push(lv));
        }
        lines
    }
}

/// What is reported of the directories `items`: one line for each, in order,
/// and a line that sums up, unless there was none.
pub open spec fn dir_report_of(items: Seq<CopyItemView>) -> Seq<Seq<char>> {
    let lines = Seq::new(items.len(), |i: int| "Copied directory "@ + items[i].rel);
    if items.len() > 0 {
        lines.push("Copied "@ + digits_of(items.len()) + " directories"@)
    } else {
        lines
    }
}

/// What `copy_directories` returns: the directories that the include patterns
/// copy, and the unsafe patterns that were left aside.
pub open spec fn dir_outcome(
    src_root: Seq<char>,
    dst_root: Seq<char>,
    includes: Seq<Seq<char>>,
    excludes: Seq<Seq<char>>,
    entries: Seq<WalkEntryView>,
) -> DirOutcomeView {
    DirOutcomeView {
        items: dir_run(
            src_root,
            dst_root,
            includes,
            effective_excludes(excludes),
            entries,
            includes.len(),
        ),
        skipped: unsafe_only(includes),
        ignored: ignored_excludes(includes, excludes),
    }
}

/// Decides which directories a copy from `src_root` to `dst_root` moves.
///
/// `entries` is a walk of everything below `src_root`. Each include pattern is
/// held against the name of every directory in it; an unsafe pattern and one
/// that does not compile are passed over. A matching directory is copied to the
/// same relative path below `dst_root`, unless a usable exclude pattern matches
/// that relative path.
pub fn copy_directories(
    src_root: &str,
    dst_root: &str,
    includes: &Vec<String>,
    excludes: &Vec<String>,
    entries: &Vec<WalkEntry>,
) -> (outcome: DirOutcome)
    ensures
        outcome@ == dir_outcome(
            src_root@,
            dst_root@,
            includes.deep_view(),
            excludes.deep_view(),
            entries.deep_view(),
        ),
{
    let skipped = unsafe_among(includes);
    let ignored = if includes.len() == 0 {
        Vec::new()
    } else {
        unsafe_among(excludes)
    };
    assert(ignored.deep_view() =~= ignored_excludes(includes.deep_view(), excludes.deep_view()));
    let excl = ExcludeSet::new(excludes);
    let mut items: Vec<CopyItem> = Vec::new();
    let mut i: usize = 0;
    assert(items.deep_view() =~= Seq::empty());
    while i < includes.len()
        invariant
            i <= includes.len(),
            excl@ == effective_excludes(excludes.deep_view()),
            items.deep_view() == dir_run(
                src_root@,
                dst_root@,
                includes.deep_view(),
                excl@,
                entries.deep_view(),
                i as nat,
            ),
        decreases includes.len() - i,
    {
        assert(includes.deep_view()[i as int] == includes[i as int]@);
        let pattern = includes[i].as_str();
        if !is_unsafe_pattern(pattern) && pattern_compiles(pattern) {
            match_dirs_into(&mut items, src_root, dst_root, pattern, &excl, entries);
        }
        i = i + 1;
    }
    DirOutcome { items, skipped, ignored }
}

/// The directories that one pattern copies lie below the source root, go to
/// the same relative path below the destination root, and none is excluded.
pub proof fn lemma_dirs_matching_sound(
    src_root: Seq<char>,
    dst_root: Seq<char>,
    pattern: Seq<char>,
    excl: Seq<Seq<char>>,
    entries: Seq<WalkEntryView>,
    k: int,
)
    requires
        0 <= k < dirs_matching(src_root, dst_root, pattern, excl, entries).len(),
    ensures
        well_selected(
            dirs_matching(src_root, dst_root, pattern, excl, entries)[k],
            src_root,
            dst_root,
            excl,
        ),
    decreases entries.len(),
{
    let head = dirs_matching(src_root, dst_root, pattern, excl, entries.drop_last());
    if k < head.len() {
        lemma_dirs_matching_sound(src_root, dst_root, pattern, excl, entries.drop_last(), k);
    }
}

/// Every directory of a run lies below the source root, goes to the same
/// relative path below the destination root, and no usable exclude pattern
/// matches it. An unsafe pattern, which copies nothing, is behind none of them.
pub proof fn lemma_dir_run_sound(
    src_root: Seq<char>,
    dst_root: Seq<char>,
    includes: Seq<Seq<char>>,
    excl: Seq<Seq<char>>,
    entries: Seq<WalkEntryView>,
    n: nat,
    k: int,
)
    requires
        0 <= k < dir_run(src_root, dst_root, includes, excl, entries, n).len(),
    ensures
        well_selected(
            dir_run(src_root, dst_root, includes, excl, entries, n)[k],
            src_root,
            dst_root,
            excl,
        ),
    decreases n,
{
    if 0 < n <= includes.len() {
        let before = dir_run(src_root, dst_root, includes, excl, entries, (n - 1) as nat);
        if k < before.len() {
            lemma_dir_run_sound(src_root, dst_root, includes, excl, entries, (n - 1) as nat, k);
        } else {
            lemma_dirs_matching_sound(
                src_root,
                dst_root,
                includes[n - 1],
                excl,
                entries,
                k - before.len(),
            );
        }
    }
}

/// Patterns that are all unsafe copy no directory.
pub proof fn lemma_unsafe_patterns_copy_no_directory(
    src_root: Seq<char>,
    dst_root: Seq<char>,
    includes: Seq<Seq<char>>,
    excl: Seq<Seq<char>>,
    entries: Seq<WalkEntryView>,
    n: nat,
)
    requires
        forall|i: int| 0 <= i < includes.len() ==> unsafe_pattern(#[trigger] includes[i]),
    ensures
        dir_run(src_root, dst_root, includes, excl, entries, n).len() == 0,
    decreases n,
{
    if 0 < n <= includes.len() {
        lemma_unsafe_patterns_copy_no_directory(
            src_root,
            dst_root,
            includes,
            excl,
            entries,
            (n - 1) as nat,
        );
        assert(unsafe_pattern(includes[n - 1]));
    }
}

/// One step of copying a directory's content.
#[derive(Debug)]
pub enum TreeAction {
    /// Create the directory `to`, with the directories above it.
    MakeDir { to: String },
    /// Copy the regular file `from` to `to`, creating the directories above it.
    CopyFile { from: String, to: String },
    /// Recreate at `to` the symbolic link `from`. A link that cannot be made is
    /// passed over: it does not end the copy.
    Link { from: String, to: String },
}

/// A `TreeAction` as plain sequences of characters.
pub ghost enum TreeActionView {
    MakeDir { to: Seq<char> },
    CopyFile { from: Seq<char>, to: Seq<char> },
    Link { from: Seq<char>, to: Seq<char> },
}

impl View for TreeAction {
    type V = TreeActionView;

    open spec fn view(&self) -> TreeActionView {
        match self {
            TreeAction::MakeDir { to } => TreeActionView::MakeDir { to: to@ },
            TreeAction::CopyFile { from, to } => TreeActionView::CopyFile { from: from@, to: to@ },
            TreeAction::Link { from, to } => TreeActionView::Link { from: from@, to: to@ },
        }
    }
}

impl DeepView for TreeAction {
    type V = TreeActionView;

    open spec fn deep_view(&self) -> TreeActionView {
        self@
    }
}

/// What is done for one entry of the walk of a directory `src` that is copied
/// to `dst`. Nothing is done for the directory itself, whose relative path is
/// empty, for an entry that an exclude pattern matches, nor for one that is
/// neither directory, file nor link.
pub open spec fn tree_action_for(
    src: Seq<char>,
    dst: Seq<char>,
    excl: Seq<Seq<char>>,
    entry: WalkEntryView,
) -> Option<TreeActionView> {
    match relative_path(entry.path, src) {
        Some(rel) => if rel.len() == 0 || excluded_by(excl, rel) {
            None
        } else {
            let to = joined_path(dst, rel);
            match entry.kind {
                EntryKind::Dir => Some(TreeActionView::MakeDir { to }),
                EntryKind::File => Some(TreeActionView::CopyFile { from: entry.path, to }),
                EntryKind::Symlink => Some(TreeActionView::Link { from: entry.path, to }),
                EntryKind::Other => None,
            }
        },
        None => None,
    }
}

/// The steps that copy the content of `src` to `dst`, in the order of the walk.
pub open spec fn tree_actions(
    src: Seq<char>,
    dst: Seq<char>,
    excl: Seq<Seq<char>>,
    entries: Seq<WalkEntryView>,
) -> Seq<TreeActionView>
    decreases entries.len(),
{
    if entries.len() == 0 {
        Seq::empty()
    } else {
        let head = tree_actions(src, dst, excl, entries.drop_last());
        match tree_action_for(src, dst, excl, entries.last()) {
            Some(action) => head.push(action),
            None => head,
        }
    }
}

/// Decides how the content of the directory `src` is copied to `dst`.
///
/// `entries` is a walk of `src`, the directory itself included. The steps come
/// in the order of the walk, so that a directory is made before what it holds.
pub fn copy_dir_recursive(src: &str, dst: &str, excludes: &ExcludeSet, entries: &Vec<WalkEntry>) -> (actions:
    Vec<TreeAction>)
    ensures
        actions.deep_view() == tree_actions(src@, dst@, excludes@, entries.deep_view()),
{
    let mut actions: Vec<TreeAction> = Vec::new();
    let mut i: usize = 0;
    assert(entries.deep_view().take(0) =~= Seq::empty());
    assert(actions.deep_view() =~= Seq::empty());
    while i < entries.len()
        invariant
            i <= entries.len(),
            actions.deep_view() == tree_actions(
                src@,
                dst@,
                excludes@,
                entries.deep_view().take(i as int),
            ),
        decreases entries.len() - i,
    {
        let ghost before = actions.deep_view();
        let ghost upto = entries.deep_view().take(i as int + 1);
        assert(upto.drop_last() =~= entries.deep_view().take(i as int));
        assert(upto.last() == entries[i as int]@);
        let entry = &entries[i];
        match path_relative(entry.path.as_str(), src) {
            Some(rel) => {
                if !rel.as_str().is_empty() && !excludes.excludes(rel.as_str()) {
                    let to = path_join(dst, rel.as_str());
                    let action = match entry.kind {
                        EntryKind::Dir => Some(TreeAction::MakeDir { to }),
                        EntryKind::File => Some(
                            TreeAction::CopyFile { from: entry.path.clone(), to },
                        ),
                        EntryKind::Symlink => Some(
                            TreeAction::Link { from: entry.path.clone(), to },
                        ),
                        EntryKind::Other => None,
                    };
                    match action {
                        Some(a) => {
                            let ghost av = a@;
                            actions.push(a);
                            assert(actions.deep_view() =~= before.push(av));
                        },
                        None => {},
                    }
                }
            },
            None => {},
        }
        i = i + 1;
    }
    assert(entries.deep_view().take(entries.len() as int) =~= entries.deep_view());
    actions
}

} // verus!
