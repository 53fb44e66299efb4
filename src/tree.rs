//! Tree rendering: the filter predicate and the per-directory plan that says,
//! for each entry in name order, which line it prints and whether the walk
//! descends into it.
//!
//! Entries are taken in name order. An entry counts as the last of its level
//! when no later entry of that level prints a line of its own; this decides
//! its branch glyph and, for its children, whether the rail of that level
//! goes on. A directory that the pattern excludes prints no line but is still
//! walked, so that matching entries below it are found.
//!
//! A walk (see `crate::walk`) starts at the root with no rails. Each directory
//! listing is handed to `plan_level` with the parent's path and rails; every
//! step that descends is walked in turn with the step's own path and rails,
//! one level deeper.
use vstd::prelude::*;
use vstd::relations::sorted_by;
use vstd::string::*;
use crate::text::push_char;

verus! {

/// Whether `pattern` compiles as a glob pattern.
pub uninterp spec fn glob_compiles(pattern: Seq<char>) -> bool;

/// Whether the glob pattern with text `pattern` matches the text `path`.
pub uninterp spec fn glob_match(pattern: Seq<char>, path: Seq<char>) -> bool;

#[verifier::external_type_specification]
#[verifier::external_body]
pub struct ExPattern(glob::Pattern);

/// Relies on `glob::Pattern::new`: compiles a shell-style pattern, or fails
/// on a malformed one; which of the two depends on the text alone.
#[verifier::external_body]
fn compile_glob(text: &str) -> (r: Option<glob::Pattern>)
    ensures
        r is Some <==> glob_compiles(text@),
{
    glob::Pattern::new(text).ok()
}

/// A compiled glob pattern together with the text it was compiled from.
pub struct Glob {
    compiled: glob::Pattern,
    text: String,
}

/// Relies on `glob::Pattern::matches` with the default options: whether the
/// pattern matches depends on the pattern text and the path alone.
#[verifier::external_body]
fn glob_matches(g: &Glob, path: &str) -> (r: bool)
    ensures
        r == glob_match(g.text(), path@),
{
    g.compiled.matches(path)
}

impl Glob {
    /// The text the pattern was compiled from.
    pub closed spec fn text(&self) -> Seq<char> {
        self.text@
    }

    /// Compiles `text`; `None` where it is not a valid pattern.
    pub fn new(text: &str) -> (r: Option<Glob>)
        ensures
            r is Some <==> glob_compiles(text@),
            r matches Some(g) ==> g.text() == text@,
    {
        match compile_glob(text) {
            Some(compiled) => Some(Glob { compiled, text: text.to_owned() }),
            None => None,
        }
    }

    /// Whether the pattern matches the whole of `path`.
    pub fn matches(&self, path: &str) -> (r: bool)
        ensures
            r == glob_match(self.text(), path@),
    {
        glob_matches(self, path)
    }
}

/// One immediate child of a directory, as listed.
pub struct DirEntry {
    pub name: String,
    pub is_dir: bool,
}

/// How a name is displayed.
#[derive(Clone, Copy, Debug, PartialEq, Eq, Structural)]
pub enum Category {
    Directory,
    Source,
    Plain,
}

/// The settings of one walk; they do not change while it runs.
pub struct TreeOptions {
    pub show_all: bool,
    pub max_depth: Option<usize>,
    pub pattern: Option<Glob>,
}

/// What to do with one entry of a directory.
pub struct Step {
    /// The rails and branch glyph that precede the name on the entry's own
    /// line, or `None` where the entry prints no line.
    pub lead: Option<String>,
    pub name: String,
    pub category: Category,
    /// The entry's path: the parent's path joined with the name.
    pub path: String,
    /// Whether the walk goes on into this entry.
    pub descend: bool,
    /// The rails for the entry's children: one more than the parent's.
    pub rails: Vec<bool>,
}

/// The mathematical value of a `Step`.
pub struct StepView {
    pub lead: Option<Seq<char>>,
    pub name: Seq<char>,
    pub category: Category,
    pub path: Seq<char>,
    pub descend: bool,
    pub rails: Seq<bool>,
}

impl View for Step {
    type V = StepView;

    open spec fn view(&self) -> StepView {
        StepView {
            lead: match self.lead {
                Some(s) => Some(s@),
                None => None,
            },
            name: self.name@,
            category: self.category,
            path: self.path@,
            descend: self.descend,
            rails: self.rails@,
        }
    }
}

/// Order on names: character by character, a proper prefix first.
pub open spec fn name_le(a: Seq<char>, b: Seq<char>) -> bool
    decreases a.len(),
{
    if a.len() == 0 {
        true
    } else if b.len() == 0 {
        false
    } else if a[0] != b[0] {
        (a[0] as u32) < (b[0] as u32)
    } else {
        name_le(a.drop_first(), b.drop_first())
    }
}

/// Entries ordered by name.
pub open spec fn by_name() -> spec_fn(DirEntry, DirEntry) -> bool {
    |a: DirEntry, b: DirEntry| name_le(a.name@, b.name@)
}

/// Relies on `slice::sort_by`, a stable sort, with `str`'s order, which
/// compares the UTF-8 bytes and so orders by code point: the result is a
/// rearrangement in name order that keeps entries of equal names in their
/// first order, as the stable merge sort `Seq::sort_by` does.
#[verifier::external_body]
fn sort_entries(v: &mut Vec<DirEntry>)
    ensures
        final(v)@ == old(v)@.sort_by(by_name()),
        final(v)@.len() == old(v)@.len(),
        final(v)@.to_multiset() == old(v)@.to_multiset(),
        sorted_by(final(v)@, by_name()),
{
    v.sort_by(|a, b| a.name.as_str().cmp(b.name.as_str()));
}

/// A dotfile that the hidden-file policy leaves out.
pub open spec fn is_hidden(name: Seq<char>, show_all: bool) -> bool {
    !show_all && name.len() > 0 && name[0] == '.'
}

/// Whether the optional pattern lets `path` through; no pattern lets all through.
pub open spec fn pattern_admits(pattern: Option<Glob>, path: Seq<char>) -> bool {
    match pattern {
        Some(g) => glob_match(g.text(), path),
        None => true,
    }
}

/// Whether an entry with this name and path gets its own line.
pub open spec fn visible(name: Seq<char>, path: Seq<char>, show_all: bool, pattern: Option<Glob>) -> bool {
    !is_hidden(name, show_all) && pattern_admits(pattern, path)
}

/// A child's path: the parent's, a separator where it has none at its end, and the name.
pub open spec fn child_path(parent: Seq<char>, name: Seq<char>) -> Seq<char> {
    if parent.len() == 0 {
        name
    } else if parent.last() == '/' {
        parent + name
    } else {
        parent.push('/') + name
    }
}

/// Whether a name ends in the source extension `.rs` after a non-empty stem.
pub open spec fn has_source_ext(name: Seq<char>) -> bool {
    name.len() > 3 && name.subrange(name.len() - 3, name.len() as int) == seq!['.', 'r', 's']
}

pub open spec fn category_of(is_dir: bool, name: Seq<char>) -> Category {
    if is_dir {
        Category::Directory
    } else if has_source_ext(name) {
        Category::Source
    } else {
        Category::Plain
    }
}

/// Whether a node at `depth` is within the optional maximum depth.
pub open spec fn depth_allows(max_depth: Option<usize>, depth: int) -> bool {
    match max_depth {
        Some(m) => depth <= m,
        None => true,
    }
}

/// One continuation unit: a rail where more lines of that level follow.
pub open spec fn rail(more: bool) -> Seq<char> {
    if more {
        seq!['│', ' ', ' ', ' ']
    } else {
        seq![' ', ' ', ' ', ' ']
    }
}

/// The prefix drawn for a line whose ancestors have these rails, outermost first.
pub open spec fn rail_text(rails: Seq<bool>) -> Seq<char>
    decreases rails.len(),
{
    if rails.len() == 0 {
        Seq::empty()
    } else {
        rail_text(rails.drop_last()) + rail(rails.last())
    }
}

/// The branch glyph: the last-sibling one, or the one with siblings below.
pub open spec fn branch(last: bool) -> Seq<char> {
    if last {
        seq!['└', '─', '─', ' ']
    } else {
        seq!['├', '─', '─', ' ']
    }
}

/// Whether entry `e` of a directory at `parent` prints its own line.
pub open spec fn entry_visible(opts: TreeOptions, parent: Seq<char>, e: DirEntry) -> bool {
    visible(e.name@, child_path(parent, e.name@), opts.show_all, opts.pattern)
}

/// Whether an entry after position `i` of `order` prints its own line.
pub open spec fn later_visible(
    opts: TreeOptions,
    parent: Seq<char>,
    order: Seq<DirEntry>,
    i: int,
) -> bool {
    exists|j: int| i < j < order.len() && entry_visible(opts, parent, #[trigger] order[j])
}

/// The step for position `i` of the name-ordered entries `order` of the
/// directory at `parent`, drawn below the rails `rails`.
pub open spec fn step_at(
    opts: TreeOptions,
    parent: Seq<char>,
    rails: Seq<bool>,
    order: Seq<DirEntry>,
    i: int,
) -> StepView {
    let e = order[i];
    let more = later_visible(opts, parent, order, i);
    StepView {
        lead: if entry_visible(opts, parent, e) {
            Some(rail_text(rails) + branch(!more))
        } else {
            None
        },
        name: e.name@,
        category: category_of(e.is_dir, e.name@),
        path: child_path(parent, e.name@),
        descend: !is_hidden(e.name@, opts.show_all) && e.is_dir && depth_allows(
            opts.max_depth,
            rails.len() + 1 as int,
        ),
        rails: rails.push(more),
    }
}

/// Whether `name` is a dotfile that the hidden-file policy leaves out.
pub fn hidden(name: &str, show_all: bool) -> (r: bool)
    ensures
        r == is_hidden(name@, show_all),
{
    !show_all && !name.is_empty() && name.get_char(0) == '.'
}

/// The filter predicate: whether an entry with this name and path is shown
/// under the hidden-file policy and the optional pattern.
pub fn shows_entry(name: &str, path: &str, show_all: bool, pattern: &Option<Glob>) -> (r: bool)
    ensures
        r == visible(name@, path@, show_all, *pattern),
{
    if hidden(name, show_all) {
        return false;
    }
    match pattern {
        Some(g) => g.matches(path),
        None => true,
    }
}

/// The path of the child `name` of the directory at `parent`.
pub fn join_path(parent: &str, name: &str) -> (r: String)
    ensures
        r@ == child_path(parent@, name@),
{
    let mut r = parent.to_owned();
    if !parent.is_empty() {
        let n = parent.unicode_len();
        if parent.get_char(n - 1) != '/' {
            push_char(&mut r, '/');
        }
    }
    r.append(name);
    r
}

/// Whether `name` ends in `.rs` after a non-empty stem.
pub fn is_source_name(name: &str) -> (r: bool)
    ensures
        r == has_source_ext(name@),
{
    let n = name.unicode_len();
    if n <= 3 {
        return false;
    }
    let r = name.get_char(n - 3) == '.' && name.get_char(n - 2) == 'r' && name.get_char(n - 1) == 's';
    proof {
        let tail = name@.subrange(n - 3, n as int);
        assert(r ==> tail =~= seq!['.', 'r', 's']);
        assert(tail == seq!['.', 'r', 's'] ==> tail[0] == '.' && tail[1] == 'r' && tail[2] == 's');
    }
    r
}

/// The display category of an entry.
pub fn classify(is_dir: bool, name: &str) -> (r: Category)
    ensures
        r == category_of(is_dir, name@),
{
    if is_dir {
        Category::Directory
    } else if is_source_name(name) {
        Category::Source
    } else {
        Category::Plain
    }
}

fn push_glyph(s: &mut String, a: char, b: char, c: char, d: char)
    ensures
        final(s)@ == old(s)@ + seq![a, b, c, d],
{
    push_char(s, a);
    push_char(s, b);
    push_char(s, c);
    push_char(s, d);
    assert(final(s)@ =~= old(s)@ + seq![a, b, c, d]);
}

/// The prefix text for the rails `rails`, four characters per level.
pub fn rail_string(rails: &Vec<bool>) -> (r: String)
    ensures
        r@ == rail_text(rails@),
{
    let mut r = String::new();
    let mut i: usize = 0;
    while i < rails.len()
        invariant
            i <= rails.len(),
            r@ == rail_text(rails@.subrange(0, i as int)),
        decreases rails.len() - i,
    {
        if rails[i] {
            push_glyph(&mut r, '│', ' ', ' ', ' ');
        } else {
            push_glyph(&mut r, ' ', ' ', ' ', ' ');
        }
        assert(rails@.subrange(0, i + 1).drop_last() =~= rails@.subrange(0, i as int));
        i = i + 1;
    }
    assert(rails@.subrange(0, i as int) =~= rails@);
    r
}

/// The lead of a line: the rails' prefix, then the branch glyph.
fn lead_string(rails: &Vec<bool>, last: bool) -> (r: String)
    ensures
        r@ == rail_text(rails@) + branch(last),
{
    let mut r = rail_string(rails);
    if last {
        push_glyph(&mut r, '└', '─', '─', ' ');
    } else {
        push_glyph(&mut r, '├', '─', '─', ' ');
    }
    r
}

/// Plans one directory level. The entries are put in name order, and the
/// result holds one step for each, in that order: its line, if it prints one,
/// and whether the walk descends into it. `rails` are the parent's rails; a
/// directory at the root of the walk has none.
pub fn plan_level(opts: &TreeOptions, parent: &str, rails: &Vec<bool>, entries: Vec<DirEntry>) -> (r:
    Vec<Step>)
    ensures
        r@.len() == entries@.len(),
        entries@.sort_by(by_name()).to_multiset() == entries@.to_multiset(),
        sorted_by(entries@.sort_by(by_name()), by_name()),
        forall|i: int|
            0 <= i < r@.len() ==> #[trigger] r@[i]@ == step_at(
                *opts,
                parent@,
                rails@,
                entries@.sort_by(by_name()),
                i,
            ),
{
    let mut order = entries;
    sort_entries(&mut order);
    let ghost o = order@;
    assert(o.len() == entries@.len());
    let n = order.len();

    let mut paths: Vec<String> = Vec::new();
    let mut vis: Vec<bool> = Vec::new();
    let mut i: usize = 0;
    while i < n
        invariant
            n == order@.len(),
            order@ == o,
            i <= n,
            paths@.len() == i,
            vis@.len() == i,
            forall|j: int| 0 <= j < i ==> #[trigger] paths@[j]@ == child_path(parent@, o[j].name@),
            forall|j: int| 0 <= j < i ==> #[trigger] vis@[j] == entry_visible(*opts, parent@, o[j]),
        decreases n - i,
    {
        let path = join_path(parent, order[i].name.as_str());
        let v = shows_entry(order[i].name.as_str(), path.as_str(), opts.show_all, &opts.pattern);
        paths.push(path);
        vis.push(v);
        i = i + 1;
    }

    // `rev[k]` says whether an entry after position `n - 1 - k` is visible.
    let mut rev: Vec<bool> = Vec::new();
    let mut acc = false;
    let mut k: usize = 0;
    while k < n
        invariant
            n == o.len(),
            vis@.len() == n,
            forall|j: int| 0 <= j < n ==> #[trigger] vis@[j] == entry_visible(*opts, parent@, o[j]),
            k <= n,
            rev@.len() == k,
            acc == (exists|j: int| n - k <= j < n && entry_visible(*opts, parent@, #[trigger] o[j])),
            forall|m: int|
                0 <= m < k ==> #[trigger] rev@[m] == later_visible(*opts, parent@, o, n - 1 - m),
        decreases n - k,
    {
        let idx = n - 1 - k;
        assert(acc == later_visible(*opts, parent@, o, idx as int));
        rev.push(acc);
        let ghost old_acc = acc;
        acc = acc || vis[idx];
        proof {
            if acc && !old_acc {
                assert(entry_visible(*opts, parent@, o[idx as int]));
            }
            if !acc {
                assert forall|j: int| n - (k + 1) <= j < n implies !entry_visible(
                    *opts,
                    parent@,
                    #[trigger] o[j],
                ) by {}
            }
        }
        k = k + 1;
    }

    let mut steps: Vec<Step> = Vec::new();
    let depth = rails.len();
    let deeper = match opts.max_depth {
        Some(m) => depth < m,
        None => true,
    };
    let mut i: usize = 0;
    while i < n
        invariant
            n == o.len(),
            order@ == o,
            o == entries@.sort_by(by_name()),
            depth == rails@.len(),
            deeper == depth_allows(opts.max_depth, depth + 1 as int),
            paths@.len() == n,
            vis@.len() == n,
            rev@.len() == n,
            forall|j: int| 0 <= j < n ==> #[trigger] paths@[j]@ == child_path(parent@, o[j].name@),
            forall|j: int| 0 <= j < n ==> #[trigger] vis@[j] == entry_visible(*opts, parent@, o[j]),
            forall|m: int|
                0 <= m < n ==> #[trigger] rev@[m] == later_visible(*opts, parent@, o, n - 1 - m),
            i <= n,
            steps@.len() == i,
            forall|j: int|
                0 <= j < i ==> #[trigger] steps@[j]@ == step_at(*opts, parent@, rails@, o, j),
        decreases n - i,
    {
        let more = rev[n - 1 - i];
        assert(more == later_visible(*opts, parent@, o, i as int));
        let e = &order[i];
        let lead = if vis[i] {
            Some(lead_string(rails, !more))
        } else {
            None
        };
        let mut child_rails = rails.clone();
        child_rails.push(more);
        let step = Step {
            lead,
            name: e.name.clone(),
            category: classify(e.is_dir, e.name.as_str()),
            path: paths[i].clone(),
            descend: !hidden(e.name.as_str(), opts.show_all) && e.is_dir && deeper,
            rails: child_rails,
        };
        assert(step@.rails =~= rails@.push(more));
        assert(step@ == step_at(*opts, parent@, rails@, o, i as int));
        steps.push(step);
        i = i + 1;
    }
    steps
}

/// Each entry prints exactly one line when it passes the hidden-file policy
/// and the pattern, and none otherwise. A hidden entry is neither printed nor
/// walked into; a directory that the pattern alone excludes prints no line of
/// its own but is still walked into, within the depth limit.
pub proof fn lemma_one_line_per_visible_entry(
    opts: TreeOptions,
    parent: Seq<char>,
    rails: Seq<bool>,
    order: Seq<DirEntry>,
    i: int,
)
    requires
        0 <= i < order.len(),
    ensures
        step_at(opts, parent, rails, order, i).lead is Some <==> entry_visible(
            opts,
            parent,
            order[i],
        ),
        is_hidden(order[i].name@, opts.show_all) ==> step_at(opts, parent, rails, order, i).lead is None
            && !step_at(opts, parent, rails, order, i).descend,
        !is_hidden(order[i].name@, opts.show_all) && order[i].is_dir ==> (step_at(
            opts,
            parent,
            rails,
            order,
            i,
        ).descend <==> depth_allows(opts.max_depth, rails.len() + 1 as int)),
{
}

/// Among the lines of one directory level, the last one printed carries the
/// last-sibling glyph `└── ` and every other one the glyph `├── `.
pub proof fn lemma_last_line_glyph(
    opts: TreeOptions,
    parent: Seq<char>,
    rails: Seq<bool>,
    order: Seq<DirEntry>,
    i: int,
)
    requires
        0 <= i < order.len(),
        step_at(opts, parent, rails, order, i).lead is Some,
    ensures
        step_at(opts, parent, rails, order, i).lead == Some(
            rail_text(rails) + branch(
                forall|j: int|
                    i < j < order.len() ==> (#[trigger] step_at(opts, parent, rails, order, j)).lead is None,
            ),
        ),
{
    let last = forall|j: int|
        i < j < order.len() ==> (#[trigger] step_at(opts, parent, rails, order, j)).lead is None;
    if last {
        assert forall|j: int| i < j < order.len() implies !entry_visible(
            opts,
            parent,
            #[trigger] order[j],
        ) by {
            assert(step_at(opts, parent, rails, order, j).lead is None);
        }
    } else {
        let j = choose|j: int|
            i < j < order.len() && (#[trigger] step_at(opts, parent, rails, order, j)).lead is Some;
        assert(entry_visible(opts, parent, order[j]));
    }
}

/// The prefix is four characters per level.
pub proof fn lemma_rail_text_len(rails: Seq<bool>)
    ensures
        rail_text(rails).len() == 4 * rails.len(),
    decreases rails.len(),
{
    if rails.len() > 0 {
        lemma_rail_text_len(rails.drop_last());
    }
}

/// A line of a directory at depth `d` (a directory whose rails number `d`)
/// has a prefix of exactly `d` continuation units before its branch glyph,
/// and the entry's children are one level deeper.
pub proof fn lemma_prefix_depth(
    opts: TreeOptions,
    parent: Seq<char>,
    rails: Seq<bool>,
    order: Seq<DirEntry>,
    i: int,
)
    requires
        0 <= i < order.len(),
    ensures
        step_at(opts, parent, rails, order, i).lead matches Some(l) ==> l.len() == 4 * (rails.len() + 1)
            && l.subrange(0, 4 * rails.len() as int) == rail_text(rails),
        step_at(opts, parent, rails, order, i).rails.len() == rails.len() + 1,
        step_at(opts, parent, rails, order, i).rails.subrange(0, rails.len() as int) == rails,
{
    lemma_rail_text_len(rails);
    let st = step_at(opts, parent, rails, order, i);
    if st.lead is Some {
        let l = st.lead->0;
        let more = later_visible(opts, parent, order, i);
        assert(l == rail_text(rails) + branch(!more));
        assert(l.subrange(0, 4 * rails.len() as int) =~= rail_text(rails));
    }
    assert(st.rails.subrange(0, rails.len() as int) =~= rails);
}

/// With a maximum depth of zero the walk lists the root's own entries and
/// descends into none of them.
pub proof fn lemma_depth_zero_is_flat(opts: TreeOptions, parent: Seq<char>, order: Seq<DirEntry>, i: int)
    requires
        opts.max_depth == Some(0usize),
        0 <= i < order.len(),
    ensures
        !step_at(opts, parent, Seq::empty(), order, i).descend,
{
}

} // verus!
