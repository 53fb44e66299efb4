//! The depth-first walk over a directory tree, as a state machine that asks
//! its driver for each directory listing and hands back each line to print.
//!
//! The driver calls `next` until it returns `Done`. On `List` it lists the
//! directory and passes the listing (or `None` where it cannot be read) to
//! `listed`; on `Print` it prints the lead and the painted name. Entries come
//! in name order, each directory's lines right below its own line.
use vstd::prelude::*;
use crate::tree::{
    by_name, lemma_rail_text_len, plan_level, step_at, Category, DirEntry, Step, StepView,
    TreeOptions,
};

verus! {

/// A directory the walk waits to have listed.
struct Pending {
    path: String,
    rails: Vec<bool>,
}

/// What the walk asks of its driver next.
pub enum Action {
    /// List the directory at `path` and pass the result to `Walk::listed`.
    List { path: String },
    /// Print `lead` followed by the painted name. `depth` counts the
    /// directories between the walk's root and the entry's own directory.
    Print { lead: String, name: String, category: Category, depth: usize },
    /// The walk is over.
    Done,
}

/// The mathematical value of an `Action`.
pub enum ActionView {
    List { path: Seq<char> },
    Print { lead: Seq<char>, name: Seq<char>, category: Category, depth: int },
    Done,
}

impl View for Action {
    type V = ActionView;

    open spec fn view(&self) -> ActionView {
        match self {
            Action::List { path } => ActionView::List { path: path@ },
            Action::Print { lead, name, category, depth } => ActionView::Print {
                lead: lead@,
                name: name@,
                category: *category,
                depth: *depth as int,
            },
            Action::Done => ActionView::Done,
        }
    }
}

/// The state of a walk: the directory that waits to be listed, with its path
/// and rails, and for each open directory, outermost first, the steps still to
/// come, the next one last.
pub struct WalkView {
    pub pending: Option<(Seq<char>, Seq<bool>)>,
    pub levels: Seq<Seq<StepView>>,
}

/// A walk in progress.
pub struct Walk {
    levels: Vec<Vec<Step>>,
    pending: Option<Pending>,
}

/// The steps of a level as values.
pub open spec fn steps_view(v: Vec<Step>) -> Seq<StepView> {
    v@.map_values(|s: Step| s@)
}

spec fn view_of(levels: Seq<Vec<Step>>, pending: Option<Pending>) -> WalkView {
    WalkView {
        pending: match pending {
            Some(p) => Some((p.path@, p.rails@)),
            None => None,
        },
        levels: levels.map_values(|v: Vec<Step>| steps_view(v)),
    }
}

impl View for Walk {
    type V = WalkView;

    closed spec fn view(&self) -> WalkView {
        view_of(self.levels@, self.pending)
    }
}

/// The steps that `plan_level` gives for `entries`, next one last.
pub open spec fn planned_level(
    opts: TreeOptions,
    parent: Seq<char>,
    rails: Seq<bool>,
    entries: Seq<DirEntry>,
) -> Seq<StepView> {
    Seq::new(
        entries.len(),
        |j: int| step_at(opts, parent, rails, entries.sort_by(by_name()), entries.len() - 1 - j),
    )
}

/// One move of the walk: a waiting directory is asked for; otherwise the
/// next step of the innermost open directory is taken, a directory it
/// descends into becomes the waiting one, and its line, if it has one, is
/// printed at the depth of that directory; a step without a line is passed
/// over, a directory whose steps are all taken is closed, and the walk is done
/// when none is open.
pub open spec fn advance(w: WalkView) -> (ActionView, WalkView)
    decreases w.levels.len(), if w.levels.len() > 0 {
        w.levels.last().len()
    } else {
        0
    },
{
    if let Some((path, _)) = w.pending {
        (ActionView::List { path }, w)
    } else if w.levels.len() == 0 {
        (ActionView::Done, w)
    } else {
        let top = w.levels.last();
        let rest = w.levels.drop_last();
        if top.len() == 0 {
            advance(WalkView { pending: None, levels: rest })
        } else {
            let s = top.last();
            let next = WalkView {
                pending: if s.descend {
                    Some((s.path, s.rails))
                } else {
                    None
                },
                levels: rest.push(top.drop_last()),
            };
            match s.lead {
                Some(l) => (
                    ActionView::Print {
                        lead: l,
                        name: s.name,
                        category: s.category,
                        depth: rest.len() as int,
                    },
                    next,
                ),
                None => advance(next),
            }
        }
    }
}

/// Under a maximum depth `m`, a step that the walk descends into hands on
/// rails of at most `m` units, so no directory deeper than `m` is listed and
/// no line has more than `m` units of prefix.
pub proof fn lemma_descent_bounded(
    opts: TreeOptions,
    parent: Seq<char>,
    rails: Seq<bool>,
    entries: Seq<DirEntry>,
    m: usize,
    j: int,
)
    requires
        opts.max_depth == Some(m),
        0 <= j < entries.len(),
        planned_level(opts, parent, rails, entries)[j].descend,
    ensures
        planned_level(opts, parent, rails, entries)[j].rails.len() <= m,
        planned_level(opts, parent, rails, entries)[j].rails.len() == rails.len() + 1,
{
}

/// Whether `s` suits a directory `k` levels below the root: rails for its
/// children one longer than `k`, and a lead of `k + 1` units.
pub open spec fn fits_level(s: Step, k: int) -> bool {
    &&& s.rails@.len() == k + 1
    &&& s.lead matches Some(l) ==> l@.len() == 4 * (k + 1)
}

/// The steps of `v` in reverse order.
fn reversed(v: Vec<Step>) -> (r: Vec<Step>)
    ensures
        r@.len() == v@.len(),
        forall|i: int| 0 <= i < r@.len() ==> #[trigger] r@[i] == v@[v@.len() - 1 - i],
{
    let ghost orig = v@;
    let mut v = v;
    let mut r: Vec<Step> = Vec::new();
    while v.len() > 0
        invariant
            v@ == orig.subrange(0, v@.len() as int),
            r@.len() + v@.len() == orig.len(),
            forall|i: int| 0 <= i < r@.len() ==> #[trigger] r@[i] == orig[orig.len() - 1 - i],
        decreases v@.len(),
    {
        let s = v.pop().unwrap();
        r.push(s);
    }
    r
}

impl Walk {
    #[verifier::type_invariant]
    spec fn inv(self) -> bool {
        &&& forall|k: int, j: int|
            0 <= k < self.levels@.len() && 0 <= j < self.levels@[k]@.len() ==> fits_level(
                #[trigger] self.levels@[k]@[j],
                k,
            )
        &&& self.pending matches Some(p) ==> p.rails@.len() == self.levels@.len()
    }

    /// A walk of the directory at `root`, which comes first to be listed.
    pub fn new(root: &str) -> (r: Walk)
        ensures
            r@ == (WalkView { pending: Some((root@, Seq::<bool>::empty())), levels: Seq::empty() }),
    {
        let r = Walk { levels: Vec::new(), pending: Some(Pending { path: root.to_owned(), rails: Vec::new() }) };
        assert(r@.levels =~= Seq::<Seq<StepView>>::empty());
        assert(r.pending->0.rails@ =~= Seq::<bool>::empty());
        r
    }

    /// Takes the listing of the directory that the last `List` asked for;
    /// `None` where it could not be read, which leaves that directory out.
    /// The directory's steps become the innermost open level.
    pub fn listed(&mut self, opts: &TreeOptions, listing: Option<Vec<DirEntry>>)
        ensures
            final(self)@ == (match (old(self)@.pending, listing) {
                (Some((path, rails)), Some(es)) => WalkView {
                    pending: None,
                    levels: old(self)@.levels.push(planned_level(*opts, path, rails, es@)),
                },
                _ => WalkView { pending: None, levels: old(self)@.levels },
            }),
    {
        let mut cur = Walk { levels: Vec::new(), pending: None };
        std::mem::swap(self, &mut cur);
        proof {
            use_type_invariant(&cur);
        }
        let Walk { mut levels, pending } = cur;
        match (pending, listing) {
            (Some(p), Some(entries)) => {
                let ghost k = levels@.len();
                let ghost es = entries@;
                let steps = plan_level(opts, p.path.as_str(), &p.rails, entries);
                proof {
                    lemma_rail_text_len(p.rails@);
                }
                let rev = reversed(steps);
                assert forall|j: int| 0 <= j < rev@.len() implies fits_level(#[trigger] rev@[j], k as int) by {
                    let i = steps@.len() - 1 - j;
                    assert(rev@[j] == steps@[i]);
                    assert(steps@[i]@.rails.len() == p.rails@.len() + 1);
                }
                assert(steps_view(rev) =~= planned_level(*opts, p.path@, p.rails@, es)) by {
                    assert forall|j: int| 0 <= j < rev@.len() implies #[trigger] steps_view(rev)[j]
                        == planned_level(*opts, p.path@, p.rails@, es)[j] by {
                        assert(rev@[j] == steps@[steps@.len() - 1 - j]);
                    }
                }
                let ghost before = levels@;
                levels.push(rev);
                assert forall|a: int, j: int|
                    0 <= a < levels@.len() && 0 <= j < levels@[a]@.len() implies fits_level(
                    #[trigger] levels@[a]@[j],
                    a,
                ) by {
                    if a < k {
                        assert(levels@[a] == before[a]);
                    }
                }
                assert(view_of(levels@, None).levels =~= view_of(before, None).levels.push(
                    steps_view(rev),
                ));
            },
            _ => {},
        }
        *self = Walk { levels, pending: None };
    }

    /// The next thing for the driver to do, as `advance` says.
    pub fn next(&mut self) -> (r: Action)
        ensures
            (r@, final(self)@) == advance(old(self)@),
            r matches Action::Print { lead, depth, .. } ==> lead@.len() == 4 * (depth + 1),
    {
        let mut cur = Walk { levels: Vec::new(), pending: None };
        std::mem::swap(self, &mut cur);
        proof {
            use_type_invariant(&cur);
        }
        let Walk { mut levels, mut pending } = cur;
        loop
            invariant
                advance(view_of(levels@, pending)) == advance(old(self)@),
                forall|k: int, j: int|
                    0 <= k < levels@.len() && 0 <= j < levels@[k]@.len() ==> fits_level(
                        #[trigger] levels@[k]@[j],
                        k,
                    ),
                pending matches Some(p) ==> p.rails@.len() == levels@.len(),
            decreases levels@.len(), if levels@.len() > 0 {
                levels@.last()@.len()
            } else {
                0
            },
        {
            if let Some(p) = &pending {
                let path = p.path.clone();
                *self = Walk { levels, pending };
                return Action::List { path };
            }
            let ghost before = levels@;
            let ghost wv = view_of(levels@, pending);
            match levels.pop() {
                None => {
                    *self = Walk { levels, pending };
                    return Action::Done;
                },
                Some(mut steps) => {
                    assert(before.drop_last() =~= levels@);
                    let ghost k = levels@.len();
                    let ghost level = steps@;
                    assert(wv.levels.last() == steps_view(steps));
                    assert(wv.levels.drop_last() =~= view_of(levels@, None).levels);
                    match steps.pop() {
                        None => {
                            assert(steps_view(steps).len() == 0);
                        },
                        Some(step) => {
                            assert(fits_level(level[level.len() - 1], k as int));
                            assert(step@ == wv.levels.last().last());
                            assert(steps_view(steps) =~= wv.levels.last().drop_last());
                            levels.push(steps);
                            assert(levels@.drop_last() =~= before.drop_last());
                            assert(view_of(levels@, None).levels =~= wv.levels.drop_last().push(
                                wv.levels.last().drop_last(),
                            ));
                            assert forall|a: int, j: int|
                                0 <= a < levels@.len() && 0 <= j < levels@[a]@.len() implies fits_level(
                                #[trigger] levels@[a]@[j],
                                a,
                            ) by {
                                if a < k {
                                    assert(levels@[a] == before[a]);
                                } else {
                                    assert(levels@[a]@[j] == level[j]);
                                }
                            }
                            let depth = levels.len() - 1;
                            if step.descend {
                                pending = Some(Pending { path: step.path, rails: step.rails });
                            }
                            if let Some(lead) = step.lead {
                                *self = Walk { levels, pending };
                                return Action::Print { lead, name: step.name, category: step.category, depth };
                            }
                        },
                    }
                },
            }
        }
    }
}

} // verus!
