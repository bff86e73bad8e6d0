//! Hit testing: mapping the pointer position to the single topmost
//! interactive text span, tracking continuity across ticks so that
//! hover-enter and hover-exit fire exactly once per state change.
//!
//! Every rectangle is in screen space: the host transforms each
//! container's glyph-run boxes once per tick before handing them in, so no
//! per-container coordinate branching happens here.

use vstd::prelude::*;

use crate::geometry::HitRect;

verus! {

/// The process-wide hover: present exactly while the pointer rests on one
/// interactive span. `hovered_entity` is the span itself; `anchor_entity`
/// is the container whose layout the span was found in, which differs from
/// the span for text spans measured through their parent text node.
#[derive(Clone, Copy, Debug, PartialEq, Eq, Structural)]
pub struct HoverState {
    pub hovered_entity: u64,
    pub anchor_entity: u64,
}

/// One container offering interactive spans this tick: the topmost
/// non-nested panel's text region, or, when no panel is hovered, a
/// root-level link or highlight text region. `spans` are the glyph-run
/// rectangles in screen space, each carrying the span it belongs to.
#[derive(Debug)]
pub struct HitCandidate {
    /// The scene node whose region was measured.
    pub container: u64,
    /// Candidates that are panel regions outrank root-level regions.
    pub is_panel_region: bool,
    /// The interactive spans, first match wins; the host must not produce
    /// overlapping interactive spans.
    pub spans: Vec<(u64, HitRect)>,
}

/// The hover transitions one hit-test pass raised: each fires at most
/// once per pass, and only on an actual state change.
#[derive(Clone, Copy, Debug, PartialEq, Eq, Structural)]
pub struct HitEvents {
    /// The span the pointer left this pass.
    pub exited: Option<u64>,
    /// The span the pointer entered this pass.
    pub entered: Option<u64>,
}

/// What one hit-test pass concluded.
#[derive(Clone, Copy, Debug, PartialEq, Eq, Structural)]
pub struct HitOutcome {
    /// The hover to track from now on.
    pub hover: Option<HoverState>,
    /// The transitions to hand to the activation and highlight steps.
    pub events: HitEvents,
}

/// The first span whose rectangle contains the point, in span order.
pub open spec fn spec_first_span(spans: Seq<(u64, HitRect)>, x: int, y: int) -> Option<u64>
    decreases spans.len(),
{
    if spans.len() == 0 {
        None
    } else if spans[0].1.spec_contains(x, y) {
        Some(spans[0].0)
    } else {
        spec_first_span(spans.drop_first(), x, y)
    }
}

/// The first candidate measuring this container, in candidate order.
pub open spec fn spec_find_candidate(cands: Seq<HitCandidate>, container: u64) -> Option<
    HitCandidate,
>
    decreases cands.len(),
{
    if cands.len() == 0 {
        None
    } else if cands[0].container == container {
        Some(cands[0])
    } else {
        spec_find_candidate(cands.drop_first(), container)
    }
}

/// The tracked span still contains the pointer: its anchor container is
/// still a candidate, still lists the span, and the span's rectangle
/// holds the point.
pub open spec fn spec_still_inside(
    prev: HoverState,
    cands: Seq<HitCandidate>,
    x: int,
    y: int,
) -> bool {
    match spec_find_candidate(cands, prev.anchor_entity) {
        Option::None => false,
        Option::Some(c) => match spec_find_span_rect(c.spans@, prev.hovered_entity) {
            Option::None => false,
            Option::Some(r) => r.spec_contains(x, y),
        },
    }
}

/// The rectangle of the first span with this id, in span order.
pub open spec fn spec_find_span_rect(spans: Seq<(u64, HitRect)>, id: u64) -> Option<HitRect>
    decreases spans.len(),
{
    if spans.len() == 0 {
        None
    } else if spans[0].0 == id {
        Some(spans[0].1)
    } else {
        spec_find_span_rect(spans.drop_first(), id)
    }
}

/// The first hit among the candidates of one rank (panel regions or
/// root-level regions), in candidate order.
pub open spec fn spec_search_group(
    cands: Seq<HitCandidate>,
    panels_only: bool,
    x: int,
    y: int,
) -> Option<HoverState>
    decreases cands.len(),
{
    if cands.len() == 0 {
        None
    } else {
        let c = cands[0];
        if c.is_panel_region == panels_only {
            match spec_first_span(c.spans@, x, y) {
                Option::Some(sid) => Some(
                    HoverState { hovered_entity: sid, anchor_entity: c.container },
                ),
                Option::None => spec_search_group(cands.drop_first(), panels_only, x, y),
            }
        } else {
            spec_search_group(cands.drop_first(), panels_only, x, y)
        }
    }
}

/// The span the pointer rests on: panel regions outrank root-level
/// regions, and within a rank the first match wins.
pub open spec fn spec_search(cands: Seq<HitCandidate>, x: int, y: int) -> Option<HoverState> {
    match spec_search_group(cands, true, x, y) {
        Option::Some(h) => Some(h),
        Option::None => spec_search_group(cands, false, x, y),
    }
}

/// What one hit-test pass does. With no pointer, nothing is hovered and a
/// tracked span is exited. While the pointer stays inside the tracked
/// span, nothing happens. Otherwise the tracked span (if any) is exited,
/// and the candidates are searched for the span now under the pointer,
/// which is entered.
pub open spec fn spec_hit_outcome(
    prev: Option<HoverState>,
    pointer: Option<(i64, i64)>,
    cands: Seq<HitCandidate>,
) -> HitOutcome {
    match pointer {
        Option::None => HitOutcome {
            hover: None,
            events: HitEvents {
                exited: match prev {
                    Option::Some(h) => Some(h.hovered_entity),
                    Option::None => None,
                },
                entered: None,
            },
        },
        Option::Some(p) => {
            let x = p.0 as int;
            let y = p.1 as int;
            if prev matches Some(h) && spec_still_inside(h, cands, x, y) {
                HitOutcome { hover: prev, events: HitEvents { exited: None, entered: None } }
            } else {
                let found = spec_search(cands, x, y);
                HitOutcome {
                    hover: found,
                    events: HitEvents {
                        exited: match prev {
                            Option::Some(h) => Some(h.hovered_entity),
                            Option::None => None,
                        },
                        entered: match found {
                            Option::Some(h) => Some(h.hovered_entity),
                            Option::None => None,
                        },
                    },
                }
            }
        },
    }
}

/// Finds the first span in `spans` whose rectangle contains the point.
fn first_span(spans: &Vec<(u64, HitRect)>, x: i64, y: i64) -> (r: Option<u64>)
    ensures
        r == spec_first_span(spans@, x as int, y as int),
{
    let n = spans.len();
    let mut i: usize = 0;
    proof {
        assert(spans@.skip(0) =~= spans@);
    }
    while i < n
        invariant
            n == spans@.len(),
            0 <= i <= n,
            spec_first_span(spans@.skip(i as int), x as int, y as int) == spec_first_span(
                spans@,
                x as int,
                y as int,
            ),
        decreases n - i,
    {
        proof {
            assert(spans@.skip(i as int)[0] == spans@[i as int]);
            assert(spans@.skip(i as int).drop_first() =~= spans@.skip(i + 1));
        }
        if spans[i].1.contains(x, y) {
            return Some(spans[i].0);
        }
        i = i + 1;
    }
    proof {
        assert(spans@.skip(n as int).len() == 0);
    }
    None
}

/// Finds the rectangle of the span with this id.
fn find_span_rect(spans: &Vec<(u64, HitRect)>, id: u64) -> (r: Option<HitRect>)
    ensures
        r == spec_find_span_rect(spans@, id),
{
    let n = spans.len();
    let mut i: usize = 0;
    proof {
        assert(spans@.skip(0) =~= spans@);
    }
    while i < n
        invariant
            n == spans@.len(),
            0 <= i <= n,
            spec_find_span_rect(spans@.skip(i as int), id) == spec_find_span_rect(spans@, id),
        decreases n - i,
    {
        proof {
            assert(spans@.skip(i as int)[0] == spans@[i as int]);
            assert(spans@.skip(i as int).drop_first() =~= spans@.skip(i + 1));
        }
        if spans[i].0 == id {
            return Some(spans[i].1);
        }
        i = i + 1;
    }
    proof {
        assert(spans@.skip(n as int).len() == 0);
    }
    None
}

/// Searches one rank of candidates for the span under the pointer.
fn search_group(cands: &Vec<HitCandidate>, panels_only: bool, x: i64, y: i64) -> (r: Option<
    HoverState,
>)
    ensures
        r == spec_search_group(cands@, panels_only, x as int, y as int),
{
    let n = cands.len();
    let mut i: usize = 0;
    proof {
        assert(cands@.skip(0) =~= cands@);
    }
    while i < n
        invariant
            n == cands@.len(),
            0 <= i <= n,
            spec_search_group(cands@.skip(i as int), panels_only, x as int, y as int)
                == spec_search_group(cands@, panels_only, x as int, y as int),
        decreases n - i,
    {
        proof {
            assert(cands@.skip(i as int)[0] == cands@[i as int]);
            assert(cands@.skip(i as int).drop_first() =~= cands@.skip(i + 1));
        }
        if cands[i].is_panel_region == panels_only {
            match first_span(&cands[i].spans, x, y) {
                Option::Some(sid) => {
                    return Some(
                        HoverState { hovered_entity: sid, anchor_entity: cands[i].container },
                    );
                },
                Option::None => {},
            }
        }
        i = i + 1;
    }
    proof {
        assert(cands@.skip(n as int).len() == 0);
    }
    None
}

/// One hit-test pass over the candidates; see [`spec_hit_outcome`] for
/// exactly what it concludes.
pub fn hit_test(
    prev: Option<HoverState>,
    pointer: Option<(i64, i64)>,
    candidates: &Vec<HitCandidate>,
) -> (r: HitOutcome)
    ensures
        r == spec_hit_outcome(prev, pointer, candidates@),
{
    let p = match pointer {
        Option::None => {
            return HitOutcome {
                hover: None,
                events: HitEvents {
                    exited: match prev {
                        Option::Some(h) => Some(h.hovered_entity),
                        Option::None => None,
                    },
                    entered: None,
                },
            };
        },
        Option::Some(p) => p,
    };
    let (x, y) = p;
    match prev {
        Option::Some(h) => {
            let still = {
                let anchor = find_candidate(candidates, h.anchor_entity);
                match anchor {
                    Option::None => false,
                    Option::Some(ci) => {
                        match find_span_rect(&candidates[ci].spans, h.hovered_entity) {
                            Option::None => false,
                            Option::Some(rect) => rect.contains(x, y),
                        }
                    },
                }
            };
            if still {
                return HitOutcome {
                    hover: prev,
                    events: HitEvents { exited: None, entered: None },
                };
            }
        },
        Option::None => {},
    }
    let found = match search_group(candidates, true, x, y) {
        Option::Some(h2) => Some(h2),
        Option::None => search_group(candidates, false, x, y),
    };
    HitOutcome {
        hover: found,
        events: HitEvents {
            exited: match prev {
                Option::Some(h) => Some(h.hovered_entity),
                Option::None => None,
            },
            entered: match found {
                Option::Some(h2) => Some(h2.hovered_entity),
                Option::None => None,
            },
        },
    }
}

/// Finds the position of the first candidate measuring this container.
fn find_candidate(cands: &Vec<HitCandidate>, container: u64) -> (r: Option<usize>)
    ensures
        match r {
            Some(i) => i < cands@.len() && spec_find_candidate(cands@, container) == Some(
                cands@[i as int],
            ),
            None => spec_find_candidate(cands@, container) is None,
        },
{
    let n = cands.len();
    let mut i: usize = 0;
    proof {
        assert(cands@.skip(0) =~= cands@);
    }
    while i < n
        invariant
            n == cands@.len(),
            0 <= i <= n,
            spec_find_candidate(cands@.skip(i as int), container) == spec_find_candidate(
                cands@,
                container,
            ),
        decreases n - i,
    {
        proof {
            assert(cands@.skip(i as int)[0] == cands@[i as int]);
            assert(cands@.skip(i as int).drop_first() =~= cands@.skip(i + 1));
        }
        if cands[i].container == container {
            return Some(i);
        }
        i = i + 1;
    }
    proof {
        assert(cands@.skip(n as int).len() == 0);
    }
    None
}

/// Which node should listen for pointer events on behalf of a freshly
/// tagged span: text spans get no pointer events of their own, so a span
/// that is not itself a text node is watched through its nearest text
/// ancestor.
#[derive(Clone, Copy, Debug, PartialEq, Eq, Structural)]
pub enum ListenTarget {
    /// The tagged node is itself a text node: it listens directly.
    Direct,
    /// The named ancestor is the nearest text node: it listens and
    /// narrows hits down to the span.
    Parent(u64),
    /// No text node holds the span: nothing can listen.
    NotFound,
}

/// The first ancestor flagged as a text node, nearest first.
pub open spec fn spec_first_text(ancestors: Seq<(u64, bool)>) -> Option<u64>
    decreases ancestors.len(),
{
    if ancestors.len() == 0 {
        None
    } else if ancestors[0].1 {
        Some(ancestors[0].0)
    } else {
        spec_first_text(ancestors.drop_first())
    }
}

/// Decides where pointer listening for a tagged span is installed.
/// `ancestors` walks from the span's parent towards the root, each node
/// flagged with whether it is a text node.
pub fn span_listener(node_is_text: bool, ancestors: &Vec<(u64, bool)>) -> (r: ListenTarget)
    ensures
        node_is_text ==> r == ListenTarget::Direct,
        !node_is_text ==> r == (match spec_first_text(ancestors@) {
            Option::Some(a) => ListenTarget::Parent(a),
            Option::None => ListenTarget::NotFound,
        }),
{
    if node_is_text {
        return ListenTarget::Direct;
    }
    let n = ancestors.len();
    let mut i: usize = 0;
    proof {
        assert(ancestors@.skip(0) =~= ancestors@);
    }
    while i < n
        invariant
            !node_is_text,
            n == ancestors@.len(),
            0 <= i <= n,
            spec_first_text(ancestors@.skip(i as int)) == spec_first_text(ancestors@),
        decreases n - i,
    {
        proof {
            assert(ancestors@.skip(i as int)[0] == ancestors@[i as int]);
            assert(ancestors@.skip(i as int).drop_first() =~= ancestors@.skip(i + 1));
        }
        if ancestors[i].1 {
            return ListenTarget::Parent(ancestors[i].0);
        }
        i = i + 1;
    }
    proof {
        assert(ancestors@.skip(n as int).len() == 0);
    }
    ListenTarget::NotFound
}

} // verus!
