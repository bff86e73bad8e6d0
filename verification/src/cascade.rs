//! Cascade removal over the panel tree: a set of doomed panel identifiers
//! condemns those panels and every live descendant, and everything a
//! condemned panel owns goes with it.

use vstd::prelude::*;

use crate::highlight::HighlightSourceEntry;
use crate::system::Tooltip;
use crate::term::LinkEntry;

verus! {

/// The panel at position `i` is condemned: its id is one of `roots`, or
/// its parent chain reaches one. Parents stand earlier in the sequence, so
/// the chain is walked by descending position.
pub open spec fn spec_condemned(panels: Seq<Tooltip>, i: int, roots: Seq<u64>) -> bool
    decreases i,
{
    roots.contains(panels[i].id) || (match panels[i].parent {
        Option::None => false,
        Option::Some(p) => {
            let j = choose|j: int| 0 <= j < i && panels[j].id == p;
            if 0 <= j < i && panels[j].id == p {
                spec_condemned(panels, j, roots)
            } else {
                false
            }
        },
    })
}

/// The live panel with identifier `id` is condemned.
pub open spec fn spec_condemned_id(panels: Seq<Tooltip>, id: u64, roots: Seq<u64>) -> bool {
    exists|i: int|
        0 <= i < panels.len() && panels[i].id == id && spec_condemned(panels, i, roots)
}

/// A link is condemned when the panel whose content renders it is removed.
pub open spec fn link_condemned(l: LinkEntry, removed: Seq<u64>) -> bool {
    match l.spec_parent_panel() {
        Option::None => false,
        Option::Some(p) => removed.contains(p),
    }
}

/// A highlight source is condemned when the panel whose content renders it
/// is removed.
pub open spec fn source_condemned(s: HighlightSourceEntry, removed: Seq<u64>) -> bool {
    match s.owner {
        Option::None => false,
        Option::Some(p) => removed.contains(p),
    }
}

/// Panel identifiers are pairwise distinct.
pub open spec fn seq_panel_ids_unique(panels: Seq<Tooltip>) -> bool {
    forall|i: int, j: int| 0 <= i < j < panels.len() ==> panels[i].id != panels[j].id
}

/// No two panels share a source link.
pub open spec fn seq_panel_sources_unique(panels: Seq<Tooltip>) -> bool {
    forall|i: int, j: int| 0 <= i < j < panels.len() ==> panels[i].entity != panels[j].entity
}

/// At most one panel is a root panel.
pub open spec fn seq_single_root(panels: Seq<Tooltip>) -> bool {
    forall|i: int, j: int|
        0 <= i < panels.len() && 0 <= j < panels.len() && panels[i].parent is None
            && panels[j].parent is None ==> i == j
}

/// A nested panel's parent is live and stands earlier in the sequence.
pub open spec fn seq_parents_linked(panels: Seq<Tooltip>) -> bool {
    forall|i: int| #![trigger panels[i].parent]
        0 <= i < panels.len() ==> match panels[i].parent {
            Option::None => true,
            Option::Some(p) => exists|j: int| 0 <= j < i && panels[j].id == p,
        }
}

/// Filtering one element at a time: pushing `x` extends the filtered
/// sequence exactly when `x` satisfies the predicate.
pub proof fn lemma_filter_push<A>(s: Seq<A>, x: A, pred: spec_fn(A) -> bool)
    ensures
        (s.push(x)).filter(pred) == if pred(x) {
            s.filter(pred).push(x)
        } else {
            s.filter(pred)
        },
{
    reveal(Seq::filter);
    assert(s.push(x).drop_last() =~= s);
    assert(s.push(x).last() == x);
}

/// Under unique ids and forward-linked parents, condemnation at a position
/// unfolds to: named in the roots, or the parent's position is condemned.
pub proof fn lemma_condemned_unfold(panels: Seq<Tooltip>, k: int, roots: Seq<u64>)
    requires
        seq_panel_ids_unique(panels),
        seq_parents_linked(panels),
        0 <= k < panels.len(),
    ensures
        spec_condemned(panels, k, roots) <==> (roots.contains(panels[k].id) || (match panels[
            k
        ].parent {
            Option::None => false,
            Option::Some(p) => exists|j: int|
                0 <= j < k && panels[j].id == p && spec_condemned(panels, j, roots),
        })),
{
    match panels[k].parent {
        Option::None => {},
        Option::Some(p) => {
            assert(exists|j: int| 0 <= j < k && panels[j].id == p);
            let j0 = choose|j: int| 0 <= j < k && panels[j].id == p;
            assert(0 <= j0 < k && panels[j0].id == p);
            if spec_condemned(panels, k, roots) {
                if !roots.contains(panels[k].id) {
                    assert(spec_condemned(panels, j0, roots));
                }
            }
            if exists|j: int| 0 <= j < k && panels[j].id == p && spec_condemned(panels, j, roots) {
                let j1 = choose|j: int|
                    0 <= j < k && panels[j].id == p && spec_condemned(panels, j, roots);
                assert(j1 == j0);
                assert(spec_condemned(panels, k, roots));
            }
        },
    }
}

/// Whether a vector of identifiers holds `x`.
pub fn contains_id(v: &Vec<u64>, x: u64) -> (r: bool)
    ensures
        r == v@.contains(x),
{
    let n = v.len();
    let mut i: usize = 0;
    while i < n
        invariant
            n == v@.len(),
            0 <= i <= n,
            forall|j: int| 0 <= j < i ==> v@[j] != x,
        decreases n - i,
    {
        if v[i] == x {
            return true;
        }
        i = i + 1;
    }
    false
}

/// The predicate selecting survivors of a cascade removal.
pub open spec fn keep_pred(panels: Seq<Tooltip>, roots: Seq<u64>) -> spec_fn(Tooltip) -> bool {
    |t: Tooltip| !spec_condemned_id(panels, t.id, roots)
}

/// The predicate selecting the condemned.
pub open spec fn condemned_pred(panels: Seq<Tooltip>, roots: Seq<u64>) -> spec_fn(Tooltip) -> bool {
    |t: Tooltip| spec_condemned_id(panels, t.id, roots)
}

/// Projection from a panel to its identifier.
pub open spec fn panel_id_fn() -> spec_fn(Tooltip) -> u64 {
    |t: Tooltip| t.id
}

/// The loop invariant of [`filter_condemned_panels`]: after the first `k`
/// panels are split, the survivors and removed ids are exactly the two
/// filters of that prefix, membership in `removed` characterizes
/// condemnation among the prefix, and the survivors keep the tree shape.
pub open spec fn filter_inv(
    pre: Seq<Tooltip>,
    roots: Seq<u64>,
    k: int,
    kept: Seq<Tooltip>,
    removed: Seq<u64>,
) -> bool {
    &&& 0 <= k <= pre.len()
    &&& kept == pre.take(k).filter(keep_pred(pre, roots))
    &&& removed == pre.take(k).filter(condemned_pred(pre, roots)).map_values(panel_id_fn())
    &&& forall|q: u64|
        removed.contains(q) <==> exists|j: int|
            0 <= j < k && pre[j].id == q && spec_condemned(pre, j, roots)
    &&& forall|j: int|
        0 <= j < k && !spec_condemned(pre, j, roots) ==> kept.contains(pre[j])
    &&& forall|a: int| #![trigger kept[a]]
        0 <= a < kept.len() ==> exists|j: int| 0 <= j < k && kept[a] == pre[j]
    &&& seq_panel_ids_unique(kept)
    &&& seq_panel_sources_unique(kept)
    &&& seq_single_root(kept)
    &&& seq_parents_linked(kept)
}

/// One split step: panel `k`'s condemnation is decidable from the roots
/// and the ids removed so far, and its own position's condemnation agrees
/// with its id's.
pub proof fn lemma_filter_test(
    pre: Seq<Tooltip>,
    roots: Seq<u64>,
    k: int,
    kept: Seq<Tooltip>,
    removed: Seq<u64>,
)
    requires
        seq_panel_ids_unique(pre),
        seq_parents_linked(pre),
        filter_inv(pre, roots, k, kept, removed),
        k < pre.len(),
    ensures
        spec_condemned(pre, k, roots) == (roots.contains(pre[k].id) || (match pre[k].parent {
            Option::None => false,
            Option::Some(p) => removed.contains(p),
        })),
        spec_condemned_id(pre, pre[k].id, roots) == spec_condemned(pre, k, roots),
{
    lemma_condemned_unfold(pre, k, roots);
    match pre[k].parent {
        Option::None => {},
        Option::Some(p) => {
            assert(removed.contains(p) <==> exists|j: int|
                0 <= j < k && pre[j].id == p && spec_condemned(pre, j, roots));
        },
    }
    if spec_condemned_id(pre, pre[k].id, roots) {
        let i = choose|i: int|
            0 <= i < pre.len() && pre[i].id == pre[k].id && spec_condemned(pre, i, roots);
        assert(i == k);
    }
}

/// One split step, condemned case: pushing the id keeps the invariant.
pub proof fn lemma_filter_step_removed(
    pre: Seq<Tooltip>,
    roots: Seq<u64>,
    k: int,
    kept: Seq<Tooltip>,
    removed: Seq<u64>,
)
    requires
        seq_panel_ids_unique(pre),
        seq_parents_linked(pre),
        filter_inv(pre, roots, k, kept, removed),
        k < pre.len(),
        spec_condemned(pre, k, roots),
    ensures
        filter_inv(pre, roots, k + 1, kept, removed.push(pre[k].id)),
{
    lemma_filter_test(pre, roots, k, kept, removed);
    assert(pre.take(k + 1) =~= pre.take(k).push(pre[k]));
    lemma_filter_push(pre.take(k), pre[k], keep_pred(pre, roots));
    lemma_filter_push(pre.take(k), pre[k], condemned_pred(pre, roots));
    let removed2 = removed.push(pre[k].id);
    assert(removed2 =~= pre.take(k + 1).filter(condemned_pred(pre, roots)).map_values(
        panel_id_fn(),
    ));
    assert forall|q: u64|
        removed2.contains(q) <==> exists|j: int|
            0 <= j < k + 1 && pre[j].id == q && spec_condemned(pre, j, roots) by {
        if removed2.contains(q) {
            let a = choose|a: int| 0 <= a < removed2.len() && removed2[a] == q;
            if a < removed2.len() - 1 {
                assert(removed[a] == q);
                assert(removed.contains(q));
            } else {
                assert(q == pre[k].id);
            }
        }
        if exists|j: int| 0 <= j < k + 1 && pre[j].id == q && spec_condemned(pre, j, roots) {
            let j = choose|j: int|
                0 <= j < k + 1 && pre[j].id == q && spec_condemned(pre, j, roots);
            if j < k {
                assert(removed.contains(q));
                let a = choose|a: int| 0 <= a < removed.len() && removed[a] == q;
                assert(removed2[a] == q);
            } else {
                assert(removed2[removed2.len() - 1] == q);
            }
        }
    }
    assert forall|j: int|
        0 <= j < k + 1 && !spec_condemned(pre, j, roots) implies kept.contains(pre[j]) by {
        assert(j < k);
    }
}

/// One split step, surviving case: pushing the panel keeps the invariant.
#[verifier::rlimit(100)]
pub proof fn lemma_filter_step_kept(
    pre: Seq<Tooltip>,
    roots: Seq<u64>,
    k: int,
    kept: Seq<Tooltip>,
    removed: Seq<u64>,
)
    requires
        seq_panel_ids_unique(pre),
        seq_panel_sources_unique(pre),
        seq_single_root(pre),
        seq_parents_linked(pre),
        filter_inv(pre, roots, k, kept, removed),
        k < pre.len(),
        !spec_condemned(pre, k, roots),
    ensures
        filter_inv(pre, roots, k + 1, kept.push(pre[k]), removed),
{
    lemma_filter_test(pre, roots, k, kept, removed);
    assert(pre.take(k + 1) =~= pre.take(k).push(pre[k]));
    lemma_filter_push(pre.take(k), pre[k], keep_pred(pre, roots));
    lemma_filter_push(pre.take(k), pre[k], condemned_pred(pre, roots));
    let kept2 = kept.push(pre[k]);
    let a_new = kept2.len() - 1;
    assert(kept2[a_new] == pre[k]);
    assert(forall|a: int| 0 <= a < kept.len() ==> kept2[a] == kept[a]);
    assert forall|j: int|
        0 <= j < k + 1 && !spec_condemned(pre, j, roots) implies kept2.contains(pre[j]) by {
        if j < k {
            assert(kept.contains(pre[j]));
            let a = choose|a: int| 0 <= a < kept.len() && kept[a] == pre[j];
            assert(kept2[a] == pre[j]);
        } else {
            assert(kept2[a_new] == pre[j]);
        }
    }
    assert forall|a: int| #![trigger kept2[a]]
        0 <= a < kept2.len() implies exists|j: int| 0 <= j < k + 1 && kept2[a] == pre[j] by {
        if a < a_new {
            assert(kept2[a] == kept[a]);
            let j = choose|j: int| 0 <= j < k && kept[a] == pre[j];
            assert(kept2[a] == pre[j]);
        } else {
            assert(kept2[a] == pre[k]);
        }
    }
    assert(seq_panel_ids_unique(kept2)) by {
        assert forall|a: int, b: int|
            0 <= a < b < kept2.len() implies kept2[a].id != kept2[b].id by {
            if b == a_new {
                let j = choose|j: int| 0 <= j < k && kept[a] == pre[j];
                assert(pre[j].id != pre[k].id);
            }
        }
    }
    assert(seq_panel_sources_unique(kept2)) by {
        assert forall|a: int, b: int|
            0 <= a < b < kept2.len() implies kept2[a].entity != kept2[b].entity by {
            if b == a_new {
                let j = choose|j: int| 0 <= j < k && kept[a] == pre[j];
                assert(pre[j].entity != pre[k].entity);
            }
        }
    }
    assert(seq_single_root(kept2)) by {
        assert forall|a: int, b: int|
            0 <= a < kept2.len() && 0 <= b < kept2.len() && kept2[a].parent is None && kept2[
                b
            ].parent is None implies a == b by {
            if a != b {
                let lo = if a < b { a } else { b };
                let hi = if a < b { b } else { a };
                if hi == a_new {
                    let j = choose|j: int| 0 <= j < k && kept[lo] == pre[j];
                    assert(pre[j].parent is None && pre[k].parent is None);
                    assert(j == k);
                }
            }
        }
    }
    assert(seq_parents_linked(kept2)) by {
        assert forall|a: int| #![trigger kept2[a].parent]
            0 <= a < kept2.len() implies match kept2[a].parent {
            Option::None => true,
            Option::Some(p) => exists|b: int| 0 <= b < a && kept2[b].id == p,
        } by {
            if a == a_new {
                match pre[k].parent {
                    Option::None => {},
                    Option::Some(p) => {
                        let j = choose|j: int| 0 <= j < k && pre[j].id == p;
                        assert(0 <= j < k && pre[j].id == p);
                        assert(!spec_condemned(pre, j, roots)) by {
                            lemma_condemned_unfold(pre, k, roots);
                        }
                        assert(kept.contains(pre[j]));
                        let b = choose|b: int| 0 <= b < kept.len() && kept[b] == pre[j];
                        assert(kept2[b].id == p);
                    },
                }
            } else {
                assert(kept2[a] == kept[a]);
                match kept[a].parent {
                    Option::None => {},
                    Option::Some(p) => {
                        assert(exists|b: int| 0 <= b < a && kept[b].id == p);
                        let b0 = choose|b: int| 0 <= b < a && kept[b].id == p;
                        assert(kept2[b0].id == p);
                    },
                }
            }
        }
    }
}

/// Splits the panels into survivors and the identifiers of the condemned,
/// both in their original order. Survivors keep the tree shape: ids and
/// source links stay unique, at most one root remains, and every
/// survivor's parent survives ahead of it.
pub(crate) fn filter_condemned_panels(panels: Vec<Tooltip>, roots: &Vec<u64>) -> (r: (
    Vec<Tooltip>,
    Vec<u64>,
))
    requires
        seq_panel_ids_unique(panels@),
        seq_panel_sources_unique(panels@),
        seq_single_root(panels@),
        seq_parents_linked(panels@),
    ensures
        r.0@ == panels@.filter(keep_pred(panels@, roots@)),
        r.1@ == panels@.filter(condemned_pred(panels@, roots@)).map_values(panel_id_fn()),
        forall|q: u64| r.1@.contains(q) <==> spec_condemned_id(panels@, q, roots@),
        forall|j: int|
            0 <= j < panels@.len() && !spec_condemned(panels@, j, roots@) ==> r.0@.contains(
                panels@[j],
            ),
        forall|a: int| #![trigger r.0@[a]]
            0 <= a < r.0@.len() ==> exists|j: int|
                0 <= j < panels@.len() && r.0@[a] == panels@[j],
        seq_panel_ids_unique(r.0@),
        seq_panel_sources_unique(r.0@),
        seq_single_root(r.0@),
        seq_parents_linked(r.0@),
{
    let ghost pre = panels@;
    let mut rest = panels;
    let mut kept: Vec<Tooltip> = Vec::new();
    let mut removed: Vec<u64> = Vec::new();
    let ghost mut k: int = 0;
    proof {
        reveal(Seq::filter);
        assert(pre.take(0) =~= Seq::<Tooltip>::empty());
        assert(pre.take(0).filter(keep_pred(pre, roots@)) =~= Seq::<Tooltip>::empty());
        assert(pre.take(0).filter(condemned_pred(pre, roots@)) =~= Seq::<Tooltip>::empty());
        assert(pre.take(0).filter(condemned_pred(pre, roots@)).map_values(panel_id_fn())
            =~= Seq::<u64>::empty());
        assert(filter_inv(pre, roots@, 0, kept@, removed@));
    }
    while rest.len() > 0
        invariant
            rest@ == pre.skip(k),
            seq_panel_ids_unique(pre),
            seq_panel_sources_unique(pre),
            seq_single_root(pre),
            seq_parents_linked(pre),
            filter_inv(pre, roots@, k, kept@, removed@),
        decreases rest@.len(),
    {
        let t = rest.remove(0);
        proof {
            assert(pre.skip(k)[0] == pre[k]);
            assert(t == pre[k]);
            assert(rest@ =~= pre.skip(k + 1));
            lemma_filter_test(pre, roots@, k, kept@, removed@);
        }
        let in_roots = contains_id(roots, t.id);
        let parent_doomed = match t.parent {
            Option::Some(p) => contains_id(&removed, p),
            Option::None => false,
        };
        let doomed = in_roots || parent_doomed;
        if doomed {
            proof {
                lemma_filter_step_removed(pre, roots@, k, kept@, removed@);
            }
            removed.push(t.id);
        } else {
            proof {
                lemma_filter_step_kept(pre, roots@, k, kept@, removed@);
            }
            kept.push(t);
        }
        proof {
            k = k + 1;
        }
    }
    proof {
        assert(k == pre.len());
        assert(pre.take(k) =~= pre);
        assert forall|q: u64|
            removed@.contains(q) <==> spec_condemned_id(pre, q, roots@) by {
        }
    }
    (kept, removed)
}

/// Link identifiers are pairwise distinct.
pub open spec fn seq_link_ids_unique(links: Seq<LinkEntry>) -> bool {
    forall|i: int, j: int| 0 <= i < j < links.len() ==> links[i].id != links[j].id
}

/// Highlight source identifiers are pairwise distinct.
pub open spec fn seq_source_ids_unique(sources: Seq<HighlightSourceEntry>) -> bool {
    forall|i: int, j: int| 0 <= i < j < sources.len() ==> sources[i].id != sources[j].id
}

/// The predicate selecting the links that survive a cascade removal.
pub open spec fn link_keep_pred(removed: Seq<u64>) -> spec_fn(LinkEntry) -> bool {
    |l: LinkEntry| !link_condemned(l, removed)
}

/// The predicate selecting the highlight sources that survive a cascade
/// removal.
pub open spec fn source_keep_pred(removed: Seq<u64>) -> spec_fn(HighlightSourceEntry) -> bool {
    |s: HighlightSourceEntry| !source_condemned(s, removed)
}

/// Drops every link rendered by a removed panel, keeping the rest in
/// order.
#[verifier::rlimit(100)]
pub(crate) fn filter_condemned_links(links: Vec<LinkEntry>, removed: &Vec<u64>) -> (kept: Vec<
    LinkEntry,
>)
    requires
        seq_link_ids_unique(links@),
    ensures
        kept@ == links@.filter(link_keep_pred(removed@)),
        forall|a: int| #![trigger kept@[a]]
            0 <= a < kept@.len() ==> exists|j: int| 0 <= j < links@.len() && kept@[a] == links@[j],
        seq_link_ids_unique(kept@),
{
    let ghost pre = links@;
    let mut rest = links;
    let mut kept: Vec<LinkEntry> = Vec::new();
    let ghost mut k: int = 0;
    proof {
        reveal(Seq::filter);
        assert(pre.take(0) =~= Seq::<LinkEntry>::empty());
        assert(pre.take(0).filter(link_keep_pred(removed@)) =~= Seq::<LinkEntry>::empty());
    }
    while rest.len() > 0
        invariant
            0 <= k <= pre.len(),
            rest@ == pre.skip(k),
            seq_link_ids_unique(pre),
            kept@ == pre.take(k).filter(link_keep_pred(removed@)),
            forall|a: int| #![trigger kept@[a]]
                0 <= a < kept@.len() ==> exists|j: int| 0 <= j < k && kept@[a] == pre[j],
            seq_link_ids_unique(kept@),
        decreases rest@.len(),
    {
        let l = rest.remove(0);
        proof {
            assert(pre.skip(k)[0] == pre[k]);
            assert(l == pre[k]);
            assert(rest@ =~= pre.skip(k + 1));
            assert(pre.take(k + 1) =~= pre.take(k).push(pre[k]));
            lemma_filter_push(pre.take(k), pre[k], link_keep_pred(removed@));
        }
        let doomed = match &l.kind {
            crate::term::LinkKind::Root(_) => false,
            crate::term::LinkKind::Nested(r) => contains_id(removed, r.parent_entity),
        };
        proof {
            assert(doomed == link_condemned(pre[k], removed@));
        }
        if !doomed {
            kept.push(l);
            proof {
                let a_new = kept@.len() - 1;
                assert(kept@[a_new] == pre[k]);
                assert forall|a: int, b: int|
                    0 <= a < b < kept@.len() implies kept@[a].id != kept@[b].id by {
                    if b == a_new {
                        let j = choose|j: int| 0 <= j < k && kept@[a] == pre[j];
                        assert(pre[j].id != pre[k].id);
                    }
                }
            }
        }
        proof {
            k = k + 1;
        }
    }
    proof {
        assert(k == pre.len());
        assert(pre.take(k) =~= pre);
    }
    kept
}

/// Drops every highlight source rendered by a removed panel, keeping the
/// rest in order.
#[verifier::rlimit(100)]
pub(crate) fn filter_condemned_sources(
    sources: Vec<HighlightSourceEntry>,
    removed: &Vec<u64>,
) -> (kept: Vec<HighlightSourceEntry>)
    requires
        seq_source_ids_unique(sources@),
    ensures
        kept@ == sources@.filter(source_keep_pred(removed@)),
        forall|a: int| #![trigger kept@[a]]
            0 <= a < kept@.len() ==> exists|j: int|
                0 <= j < sources@.len() && kept@[a] == sources@[j],
        seq_source_ids_unique(kept@),
{
    let ghost pre = sources@;
    let mut rest = sources;
    let mut kept: Vec<HighlightSourceEntry> = Vec::new();
    let ghost mut k: int = 0;
    proof {
        reveal(Seq::filter);
        assert(pre.take(0) =~= Seq::<HighlightSourceEntry>::empty());
        assert(pre.take(0).filter(source_keep_pred(removed@)) =~= Seq::<
            HighlightSourceEntry,
        >::empty());
    }
    while rest.len() > 0
        invariant
            0 <= k <= pre.len(),
            rest@ == pre.skip(k),
            seq_source_ids_unique(pre),
            kept@ == pre.take(k).filter(source_keep_pred(removed@)),
            forall|a: int| #![trigger kept@[a]]
                0 <= a < kept@.len() ==> exists|j: int| 0 <= j < k && kept@[a] == pre[j],
            seq_source_ids_unique(kept@),
        decreases rest@.len(),
    {
        let s = rest.remove(0);
        proof {
            assert(pre.skip(k)[0] == pre[k]);
            assert(s == pre[k]);
            assert(rest@ =~= pre.skip(k + 1));
            assert(pre.take(k + 1) =~= pre.take(k).push(pre[k]));
            lemma_filter_push(pre.take(k), pre[k], source_keep_pred(removed@));
        }
        let doomed = match s.owner {
            Option::None => false,
            Option::Some(p) => contains_id(removed, p),
        };
        proof {
            assert(doomed == source_condemned(pre[k], removed@));
        }
        if !doomed {
            kept.push(s);
            proof {
                let a_new = kept@.len() - 1;
                assert(kept@[a_new] == pre[k]);
                assert forall|a: int, b: int|
                    0 <= a < b < kept@.len() implies kept@[a].id != kept@[b].id by {
                    if b == a_new {
                        let j = choose|j: int| 0 <= j < k && kept@[a] == pre[j];
                        assert(pre[j].id != pre[k].id);
                    }
                }
            }
        }
        proof {
            k = k + 1;
        }
    }
    proof {
        assert(k == pre.len());
        assert(pre.take(k) =~= pre);
    }
    kept
}

/// Condemnation of a live panel's id agrees with condemnation of its
/// position.
pub proof fn lemma_condemned_id_index(panels: Seq<Tooltip>, roots: Seq<u64>, i: int)
    requires
        seq_panel_ids_unique(panels),
        0 <= i < panels.len(),
    ensures
        spec_condemned_id(panels, panels[i].id, roots) == spec_condemned(panels, i, roots),
{
    if spec_condemned_id(panels, panels[i].id, roots) {
        let j = choose|j: int|
            0 <= j < panels.len() && panels[j].id == panels[i].id && spec_condemned(
                panels,
                j,
                roots,
            );
        assert(j == i);
    }
}

/// Nothing satisfies the predicate: the filter is empty.
pub proof fn lemma_filter_none<A>(s: Seq<A>, p: spec_fn(A) -> bool)
    requires
        forall|j: int| 0 <= j < s.len() ==> !p(#[trigger] s[j]),
    ensures
        s.filter(p).len() == 0,
    decreases s.len(),
{
    reveal(Seq::filter);
    if s.len() > 0 {
        assert(forall|j: int| 0 <= j < s.drop_last().len() ==> s.drop_last()[j] == s[j]);
        lemma_filter_none(s.drop_last(), p);
    }
}

/// Exactly the element at one position satisfies the predicate: the
/// filter holds one element.
pub proof fn lemma_filter_single<A>(s: Seq<A>, p: spec_fn(A) -> bool, i: int)
    requires
        0 <= i < s.len(),
        p(s[i]),
        forall|j: int| 0 <= j < s.len() && j != i ==> !p(#[trigger] s[j]),
    ensures
        s.filter(p).len() == 1,
    decreases s.len(),
{
    reveal(Seq::filter);
    assert(forall|j: int| 0 <= j < s.drop_last().len() ==> s.drop_last()[j] == s[j]);
    if i == s.len() - 1 {
        lemma_filter_none(s.drop_last(), p);
    } else {
        lemma_filter_single(s.drop_last(), p, i);
    }
}

/// Filters of pointwise-disjoint predicates split the filter of their
/// disjunction.
pub proof fn lemma_filter_disjoint<A>(
    s: Seq<A>,
    p: spec_fn(A) -> bool,
    q: spec_fn(A) -> bool,
    both: spec_fn(A) -> bool,
)
    requires
        forall|x: A| #[trigger] both(x) == (p(x) || q(x)),
        forall|x: A| !(#[trigger] p(x) && q(x)),
    ensures
        s.filter(both).len() == s.filter(p).len() + s.filter(q).len(),
    decreases s.len(),
{
    reveal(Seq::filter);
    if s.len() > 0 {
        lemma_filter_disjoint(s.drop_last(), p, q, both);
    }
}

/// The predicate selecting the live proper descendants of a panel.
pub open spec fn descendant_pred(panels: Seq<Tooltip>, root: u64) -> spec_fn(Tooltip) -> bool {
    |t: Tooltip| t.id != root && spec_condemned_id(panels, t.id, seq![root])
}

/// How many live proper descendants a panel has.
pub open spec fn spec_descendant_count(panels: Seq<Tooltip>, root: u64) -> nat {
    panels.filter(descendant_pred(panels, root)).len()
}

/// Condemning one live panel condemns it and exactly its live
/// descendants.
pub proof fn lemma_subtree_count(panels: Seq<Tooltip>, root: u64, i: int)
    requires
        seq_panel_ids_unique(panels),
        0 <= i < panels.len(),
        panels[i].id == root,
    ensures
        panels.filter(condemned_pred(panels, seq![root])).len() == 1 + spec_descendant_count(
            panels,
            root,
        ),
{
    let rootp = |t: Tooltip| t.id == root && spec_condemned_id(panels, t.id, seq![root]);
    assert(seq![root][0] == root);
    assert forall|x: Tooltip| #[trigger]
        condemned_pred(panels, seq![root])(x) == (rootp(x) || descendant_pred(panels, root)(
        x,
    )) by {}
    lemma_filter_disjoint(
        panels,
        rootp,
        descendant_pred(panels, root),
        condemned_pred(panels, seq![root]),
    );
    assert(spec_condemned(panels, i, seq![root])) by {
        assert(seq![root].contains(panels[i].id));
    }
    lemma_condemned_id_index(panels, seq![root], i);
    assert(rootp(panels[i]));
    assert forall|j: int| 0 <= j < panels.len() && j != i implies !rootp(#[trigger] panels[j]) by {
        assert(panels[j].id != root);
    }
    lemma_filter_single(panels, rootp, i);
}

/// A predicate met everywhere filters to the whole sequence.
pub proof fn lemma_filter_all<A>(s: Seq<A>, p: spec_fn(A) -> bool)
    requires
        forall|j: int| 0 <= j < s.len() ==> p(#[trigger] s[j]),
    ensures
        s.filter(p) == s,
    decreases s.len(),
{
    reveal(Seq::filter);
    if s.len() > 0 {
        assert(forall|j: int| 0 <= j < s.drop_last().len() ==> s.drop_last()[j] == s[j]);
        lemma_filter_all(s.drop_last(), p);
        assert(s.filter(p) =~= s);
    }
}

/// Every element of a filtered sequence comes from the original.
pub proof fn lemma_filter_subset<A>(s: Seq<A>, p: spec_fn(A) -> bool)
    ensures
        forall|a: int| #![trigger s.filter(p)[a]]
            0 <= a < s.filter(p).len() ==> exists|j: int| 0 <= j < s.len() && s.filter(p)[a]
                == s[j],
    decreases s.len(),
{
    reveal(Seq::filter);
    if s.len() > 0 {
        lemma_filter_subset(s.drop_last(), p);
        assert forall|a: int|
            0 <= a < s.filter(p).len() implies exists|j: int|
                0 <= j < s.len() && #[trigger] s.filter(p)[a] == s[j] by {
            let sub = s.drop_last().filter(p);
            if a < sub.len() {
                assert(s.filter(p)[a] == sub[a]);
                let j = choose|j: int| 0 <= j < s.drop_last().len() && sub[a] == s.drop_last()[j];
                assert(s.filter(p)[a] == s[j]);
            } else {
                assert(s.filter(p)[a] == s[s.len() - 1]);
            }
        }
    }
}

} // verus!
