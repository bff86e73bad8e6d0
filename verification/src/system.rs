//! The interaction state machine itself: configuration, the live panel
//! tree, link activation timers, dismiss timers, debounce, locking and
//! highlight marks, advanced by explicit calls the host makes each tick.

use vstd::prelude::*;

use crate::cascade::{
    condemned_pred, contains_id, filter_condemned_links, filter_condemned_panels,
    filter_condemned_sources, keep_pred, link_condemned, link_keep_pred, panel_id_fn,
    seq_link_ids_unique, seq_panel_ids_unique, seq_panel_sources_unique, seq_parents_linked,
    seq_single_root, seq_source_ids_unique, source_condemned, source_keep_pred, spec_condemned,
    spec_condemned_id, spec_descendant_count,
};
use crate::content::{ContentEntry, TooltipMap, TooltipsContent};
use crate::geometry::{debounce_inside, spec_debounce_inside, TooltipPlacement};
use crate::highlight::{
    marks_after_enter, marks_after_exit, HighlightSourceEntry, HighlightTargetEntry,
    TooltipHighlight, TooltipHighlightLink,
};
use crate::hittest::{HitCandidate, HitEvents, HoverState};
use crate::layout::{TooltipPart, TooltipPartKind};
use crate::term::{LinkEntry, LinkKind, TooltipLinkTimer, TooltipTermLink, TooltipTermLinkRecursive};

verus! {

/// How a link's activation is triggered.
#[derive(Clone, Copy, Debug, PartialEq, Eq, Structural)]
pub enum ActivationMethod {
    /// The middle mouse button is pressed on the link.
    MiddleMouse,
    /// The pointer rests on the link for `time` milliseconds.
    Hover { time: u64 },
}

impl Default for ActivationMethod {
    /// Hovering for 900 milliseconds.
    fn default() -> (r: ActivationMethod)
        ensures
            r == (ActivationMethod::Hover { time: 900u64 }),
    {
        ActivationMethod::Hover { time: 900 }
    }
}

/// Configures the behaviour of tooltips. Mutable at runtime through the
/// setters on [`TooltipSystem`].
#[derive(Clone, Copy, Debug, PartialEq, Eq, Structural)]
pub struct TooltipConfiguration {
    /// See the [`ActivationMethod`] variants.
    pub activation_method: ActivationMethod,
    /// Maximum time in milliseconds a panel remains around without user
    /// interaction.
    pub interaction_wait_for_time: u64,
    /// The stacking index of a root panel; each nested panel stacks one
    /// step higher. Increase this if tooltips are not on top.
    pub starting_z_index: i32,
}

impl Default for TooltipConfiguration {
    /// Hover activation, a 500 millisecond dismiss delay, stacking from 3.
    fn default() -> (r: TooltipConfiguration)
        ensures
            r == (TooltipConfiguration {
                activation_method: ActivationMethod::Hover { time: 900u64 },
                interaction_wait_for_time: 500u64,
                starting_z_index: 3i32,
            }),
    {
        TooltipConfiguration {
            activation_method: ActivationMethod::Hover { time: 900 },
            interaction_wait_for_time: 500,
            starting_z_index: 3,
        }
    }
}

/// The dismiss countdown of a panel nobody is interacting with. Present
/// exactly while the panel is neither debounced nor locked.
#[derive(Clone, Copy, Debug, PartialEq, Eq, Structural)]
pub struct TooltipWaitForHover {
    /// Remaining time in milliseconds.
    pub timer: u64,
}

/// A live tooltip panel and everything it owns.
#[derive(Debug)]
pub struct Tooltip {
    /// The panel's identifier, shared with the scene node that renders it.
    pub id: u64,
    /// The link that spawned this panel. That link is blocked from
    /// spawning another panel until this one is gone.
    pub entity: u64,
    /// The panel this one is nested under, or `None` for the root panel.
    pub parent: Option<u64>,
    /// Stacking order: later, deeper panels render on top.
    pub z_index: i64,
    /// A locked panel is exempt from the dismiss timer and from despawn on
    /// hover-exit.
    pub locked: bool,
    /// Set once the pointer has settled well inside the panel; from then
    /// on the dismiss timer is gone for good and only hover-exit (or a
    /// cascade) removes the panel.
    pub debounced: bool,
    /// The dismiss countdown; see [`TooltipWaitForHover`].
    pub wait_for_hover: Option<TooltipWaitForHover>,
    /// Where the panel sits relative to the window edges.
    pub placement: TooltipPlacement,
    /// The title line, from the content entry's title.
    pub title: String,
    /// The rendered parts, in render order: title node, title text, text
    /// node, then one part per content segment.
    pub parts: Vec<TooltipPart>,
}

impl Tooltip {
    /// The entity that spawned this tooltip.
    pub fn entity(&self) -> (r: u64)
        ensures
            r == self.entity,
    {
        self.entity
    }

    /// Whether this panel's dismiss timer would expire after `delta` more
    /// milliseconds without the pointer resting in the panel.
    pub open spec fn spec_expired(self, delta: u64, resting: Option<u64>) -> bool {
        match self.wait_for_hover {
            Some(w) => resting != Some(self.id) && w.timer <= delta,
            None => false,
        }
    }
}

/// The whole interaction state machine. The host constructs one, fills the
/// content map, registers its own links and highlight nodes, and then
/// reports pointer and time to it every tick, mirroring the resulting
/// panel tree into its scene.
///
/// The per-tick order is part of the design: first [`Self::tooltip_links`]
/// (hit testing), then the hover transition handlers
/// ([`Self::hover_cancel_spawn`] and [`Self::highlight_deactivate`] for the
/// exited span, [`Self::hover_time_spawn`] and [`Self::highlight_activate`]
/// for the entered one), then [`Self::tick_timers`], then
/// [`Self::spawn_time_done`] for each due link. Reordering could let a
/// just-activated link's dismiss timer start before its panel exists, or
/// dismiss a panel in the same tick that debounced it. Gesture-driven calls
/// ([`Self::middle_mouse_spawn`], [`Self::lock_tooltip`],
/// [`Self::hover_debounce`], [`Self::hover_despawn`]) arrive as the host
/// observes the events.
#[derive(Debug)]
pub struct TooltipSystem {
    /// Identifiers below this one are spoken for; fresh nodes take the
    /// next values.
    pub next_id: u64,
    pub config: TooltipConfiguration,
    /// The content map; see [`TooltipMap`].
    pub map: TooltipMap,
    /// Every live link span, host-registered or rendered inside a panel.
    pub links: Vec<LinkEntry>,
    /// Every live highlight source span.
    pub highlight_links: Vec<HighlightSourceEntry>,
    /// Every live highlight target node, with its current mark.
    pub highlight_nodes: Vec<HighlightTargetEntry>,
    /// The live panels, in spawn order: a nested panel always comes after
    /// its parent.
    pub panels: Vec<Tooltip>,
    /// The single tracked hover, owned by the hit-test step.
    pub hover: Option<HoverState>,
}

/// What a spawn attempt did.
#[derive(Debug)]
pub enum SpawnOutcome {
    /// The panel spawned: `panel` is its identifier, and `despawned` lists
    /// the panels a root spawn displaced, parents before descendants
    /// (empty for a nested spawn).
    Spawned { panel: u64, despawned: Vec<u64> },
    /// A live panel already has this source link: re-entrant activations
    /// are ignored so a link never bears two panels.
    AlreadyOpen,
    /// The id is not a live link: a stale reference, treated as a no-op.
    StaleLink,
    /// The link's key is absent from the content map: no panel, reported
    /// so the host can log a diagnostic.
    MissingContent,
    /// The identifier space is used up: no panel.
    OutOfIds,
}

/// The part a spawned panel renders at position `j`: the title container,
/// the title text, the body container, then one part per content segment.
pub open spec fn spec_part_kind(entry: ContentEntry, j: int) -> TooltipPartKind {
    if j == 0 {
        TooltipPartKind::TitleNode
    } else if j == 1 {
        TooltipPartKind::TitleText(entry.title)
    } else if j == 2 {
        TooltipPartKind::TextNode
    } else {
        match entry.content@[j - 3] {
            TooltipsContent::String(s) => TooltipPartKind::StringText(s),
            TooltipsContent::Term(s) => TooltipPartKind::TermText(s),
            TooltipsContent::Highlight(s) => TooltipPartKind::HighlightText(s),
        }
    }
}

/// The nested link records a spawn of panel `nid` creates from the first
/// `j` content segments, in order. The segment at position `m` renders as
/// the scene node `nid + 4 + m`, so the link shares that id.
pub open spec fn spec_spawned_links(
    content: Seq<TooltipsContent>,
    nid: u64,
    j: int,
) -> Seq<LinkEntry>
    decreases j,
{
    if j <= 0 {
        Seq::empty()
    } else {
        let prev = spec_spawned_links(content, nid, j - 1);
        match content[j - 1] {
            TooltipsContent::Term(s) => prev.push(
                LinkEntry {
                    id: (nid + 4 + j - 1) as u64,
                    kind: LinkKind::Nested(
                        TooltipTermLinkRecursive { parent_entity: nid, linked_string: s },
                    ),
                    timer: None,
                },
            ),
            _ => prev,
        }
    }
}

/// The highlight source records a spawn of panel `nid` creates from the
/// first `j` content segments, in order.
pub open spec fn spec_spawned_sources(
    content: Seq<TooltipsContent>,
    nid: u64,
    j: int,
) -> Seq<HighlightSourceEntry>
    decreases j,
{
    if j <= 0 {
        Seq::empty()
    } else {
        let prev = spec_spawned_sources(content, nid, j - 1);
        match content[j - 1] {
            TooltipsContent::Highlight(s) => prev.push(
                HighlightSourceEntry {
                    id: (nid + 4 + j - 1) as u64,
                    link: TooltipHighlightLink(s),
                    owner: Some(nid),
                },
            ),
            _ => prev,
        }
    }
}

/// Where a spawned panel goes: next to the pointer when there is one, at
/// the window's top-left corner otherwise.
pub open spec fn spec_placement(
    pointer: Option<(u32, u32)>,
    window: (u32, u32),
) -> TooltipPlacement {
    match pointer {
        Option::Some(c) => crate::geometry::spec_position(
            window.0 as int,
            window.1 as int,
            c.0 as int,
            c.1 as int,
        ),
        Option::None => TooltipPlacement {
            horizontal: crate::geometry::HorizontalAnchor::FromLeft(0),
            vertical: crate::geometry::VerticalAnchor::FromTop(0),
        },
    }
}

/// The stacking index of a nested panel: the base plus the count of live
/// panels at spawn time, saturated at `i32::MAX` steps.
pub open spec fn spec_nested_z(base: i32, count: int) -> i64 {
    ((base as int) + (if count > i32::MAX as int {
        i32::MAX as int
    } else {
        count
    })) as i64
}

/// A link's activation countdown after `delta` milliseconds: gone once it
/// runs out, otherwise reduced.
pub open spec fn link_tick_fn(delta: u64) -> spec_fn(LinkEntry) -> LinkEntry {
    |l: LinkEntry|
        match l.timer {
            Option::Some(t) => if t.timer <= delta {
                LinkEntry { timer: None, ..l }
            } else {
                LinkEntry { timer: Some(TooltipLinkTimer { timer: (t.timer - delta) as u64 }), ..l }
            },
            Option::None => l,
        }
}

/// The links whose countdown runs out within `delta` milliseconds.
pub open spec fn link_due_pred(delta: u64) -> spec_fn(LinkEntry) -> bool {
    |l: LinkEntry|
        match l.timer {
            Option::Some(t) => t.timer <= delta,
            Option::None => false,
        }
}

/// Projection from a link to its identifier.
pub open spec fn link_id_fn() -> spec_fn(LinkEntry) -> u64 {
    |l: LinkEntry| l.id
}

/// The panels whose dismiss timer expires within `delta` milliseconds
/// while the pointer is not resting in them.
pub open spec fn expired_pred(delta: u64, resting: Option<u64>) -> spec_fn(Tooltip) -> bool {
    |t: Tooltip| t.spec_expired(delta, resting)
}

/// The identifiers of the panels expiring this tick, in arena order.
pub open spec fn spec_expired_ids(
    panels: Seq<Tooltip>,
    delta: u64,
    resting: Option<u64>,
) -> Seq<u64> {
    panels.filter(expired_pred(delta, resting)).map_values(panel_id_fn())
}

/// A surviving panel's dismiss timer after `delta` milliseconds: reset to
/// the full delay while the pointer rests in the panel, frozen for a
/// locked or debounced panel, counting down otherwise.
pub open spec fn panel_tick_fn(
    delta: u64,
    resting: Option<u64>,
    full: u64,
) -> spec_fn(Tooltip) -> Tooltip {
    |t: Tooltip|
        match t.wait_for_hover {
            Option::Some(w) => if resting == Some(t.id) {
                Tooltip { wait_for_hover: Some(TooltipWaitForHover { timer: full }), ..t }
            } else {
                Tooltip {
                    wait_for_hover: Some(TooltipWaitForHover { timer: (w.timer - delta) as u64 }),
                    ..t
                }
            },
            Option::None => t,
        }
}

/// What one call of [`TooltipSystem::tick_timers`] reported.
#[derive(Debug)]
pub struct TickOutcome {
    /// The links whose activation countdown ran out this tick, in arena
    /// order. The caller raises the activation for each, normally through
    /// [`TooltipSystem::spawn_time_done`].
    pub due: Vec<u64>,
    /// The panels despawned by dismiss-timer expiry, parents before their
    /// descendants.
    pub despawned: Vec<u64>,
}

impl TooltipSystem {
    /// There is a live panel with this id.
    pub open spec fn spec_panel_live(self, id: u64) -> bool {
        exists|i: int| 0 <= i < self.panels@.len() && self.panels@[i].id == id
    }

    /// The position of the live panel with this id, meaningful only when
    /// `spec_panel_live` holds.
    pub open spec fn spec_panel_index(self, id: u64) -> int {
        choose|i: int| 0 <= i < self.panels@.len() && self.panels@[i].id == id
    }

    /// The live panel with this id, meaningful only when `spec_panel_live`
    /// holds.
    pub open spec fn spec_panel(self, id: u64) -> Tooltip {
        self.panels@[self.spec_panel_index(id)]
    }

    /// There is a live link with this id.
    pub open spec fn spec_link_live(self, id: u64) -> bool {
        exists|i: int| 0 <= i < self.links@.len() && self.links@[i].id == id
    }

    /// The position of the live link with this id, meaningful only when
    /// `spec_link_live` holds.
    pub open spec fn spec_link_index(self, id: u64) -> int {
        choose|i: int| 0 <= i < self.links@.len() && self.links@[i].id == id
    }

    /// The live link with this id, meaningful only when `spec_link_live`
    /// holds.
    pub open spec fn spec_link(self, id: u64) -> LinkEntry {
        self.links@[self.spec_link_index(id)]
    }

    /// There is a live highlight source with this id.
    pub open spec fn spec_source_live(self, id: u64) -> bool {
        exists|i: int| 0 <= i < self.highlight_links@.len() && self.highlight_links@[i].id == id
    }

    /// The position of the live highlight source with this id, meaningful
    /// only when `spec_source_live` holds.
    pub open spec fn spec_source_index(self, id: u64) -> int {
        choose|i: int|
            0 <= i < self.highlight_links@.len() && self.highlight_links@[i].id == id
    }

    /// The tag of the live highlight source with this id, meaningful only
    /// when `spec_source_live` holds.
    pub open spec fn spec_source_tag(self, id: u64) -> Seq<char> {
        self.highlight_links@[self.spec_source_index(id)].link.0@
    }

    /// The panel with id `id` has a live panel nested under it.
    pub open spec fn spec_has_nested(self, id: u64) -> bool {
        exists|i: int| 0 <= i < self.panels@.len() && self.panels@[i].parent == Some(id)
    }

    /// Panel identifiers are pairwise distinct.
    pub open spec fn panel_ids_unique(self) -> bool {
        seq_panel_ids_unique(self.panels@)
    }

    /// No two live panels share a source link.
    pub open spec fn panel_sources_unique(self) -> bool {
        seq_panel_sources_unique(self.panels@)
    }

    /// At most one live panel is a root panel.
    pub open spec fn single_root(self) -> bool {
        seq_single_root(self.panels@)
    }

    /// A nested panel's parent is live and stands earlier in spawn order,
    /// so the parent pointers form a forest with no cycles.
    pub open spec fn parents_linked(self) -> bool {
        seq_parents_linked(self.panels@)
    }

    /// A panel carries a dismiss timer exactly while it is neither
    /// debounced nor locked.
    pub open spec fn timers_shape(self) -> bool {
        forall|i: int|
            0 <= i < self.panels@.len() ==> (self.panels@[i].wait_for_hover is Some) == (
            !self.panels@[i].debounced && !self.panels@[i].locked)
    }

    /// Link identifiers are pairwise distinct.
    pub open spec fn link_ids_unique(self) -> bool {
        seq_link_ids_unique(self.links@)
    }

    /// A nested link sits in a live panel.
    pub open spec fn nested_links_owned(self) -> bool {
        forall|i: int| #![trigger self.links@[i].spec_parent_panel()]
            0 <= i < self.links@.len() ==> match self.links@[i].spec_parent_panel() {
                Option::None => true,
                Option::Some(p) => self.spec_panel_live(p),
            }
    }

    /// Highlight source identifiers are pairwise distinct.
    pub open spec fn source_ids_unique(self) -> bool {
        seq_source_ids_unique(self.highlight_links@)
    }

    /// Highlight target identifiers are pairwise distinct.
    pub open spec fn target_ids_unique(self) -> bool {
        forall|i: int, j: int|
            0 <= i < j < self.highlight_nodes@.len() ==> self.highlight_nodes@[i].id
                != self.highlight_nodes@[j].id
    }

    /// Every allocated identifier lies below `next_id`, so fresh ones can
    /// never collide.
    pub open spec fn ids_fresh(self) -> bool {
        &&& forall|i: int| 0 <= i < self.panels@.len() ==> self.panels@[i].id < self.next_id
        &&& forall|i: int| 0 <= i < self.links@.len() ==> self.links@[i].id < self.next_id
        &&& forall|i: int|
            0 <= i < self.highlight_links@.len() ==> self.highlight_links@[i].id < self.next_id
        &&& forall|i: int|
            0 <= i < self.highlight_nodes@.len() ==> self.highlight_nodes@[i].id < self.next_id
    }

    /// Well-formedness: every operation requires and preserves this.
    pub open spec fn wf(self) -> bool {
        &&& self.map.wf()
        &&& self.panel_ids_unique()
        &&& self.panel_sources_unique()
        &&& self.single_root()
        &&& self.parents_linked()
        &&& self.timers_shape()
        &&& self.link_ids_unique()
        &&& self.nested_links_owned()
        &&& self.source_ids_unique()
        &&& self.target_ids_unique()
        &&& self.ids_fresh()
    }

    /// All fields except the links are unchanged between two states.
    pub open spec fn same_but_links(pre: TooltipSystem, post: TooltipSystem) -> bool {
        &&& post.next_id == pre.next_id
        &&& post.config == pre.config
        &&& post.map == pre.map
        &&& post.highlight_links == pre.highlight_links
        &&& post.highlight_nodes == pre.highlight_nodes
        &&& post.panels == pre.panels
        &&& post.hover == pre.hover
    }

    /// All fields except the panels are unchanged between two states.
    pub open spec fn same_but_panels(pre: TooltipSystem, post: TooltipSystem) -> bool {
        &&& post.next_id == pre.next_id
        &&& post.config == pre.config
        &&& post.map == pre.map
        &&& post.links == pre.links
        &&& post.highlight_links == pre.highlight_links
        &&& post.highlight_nodes == pre.highlight_nodes
        &&& post.hover == pre.hover
    }

    /// All fields except the highlight target marks are unchanged between
    /// two states.
    pub open spec fn same_but_marks(pre: TooltipSystem, post: TooltipSystem) -> bool {
        &&& post.next_id == pre.next_id
        &&& post.config == pre.config
        &&& post.map == pre.map
        &&& post.links == pre.links
        &&& post.highlight_links == pre.highlight_links
        &&& post.panels == pre.panels
        &&& post.hover == pre.hover
    }

    /// A fresh state machine: default configuration, an empty content map,
    /// nothing registered, no panels, no hover.
    pub fn new() -> (r: TooltipSystem)
        ensures
            r.wf(),
            r.next_id == 1u64,
            r.config == (TooltipConfiguration {
                activation_method: ActivationMethod::Hover { time: 900u64 },
                interaction_wait_for_time: 500u64,
                starting_z_index: 3i32,
            }),
            r.map.map@.len() == 0,
            r.links@.len() == 0,
            r.highlight_links@.len() == 0,
            r.highlight_nodes@.len() == 0,
            r.panels@.len() == 0,
            r.hover is None,
    {
        TooltipSystem {
            next_id: 1,
            config: TooltipConfiguration::default(),
            map: TooltipMap::new(),
            links: Vec::new(),
            highlight_links: Vec::new(),
            highlight_nodes: Vec::new(),
            panels: Vec::new(),
            hover: None,
        }
    }

    /// The current configuration.
    pub fn configuration(&self) -> (r: &TooltipConfiguration)
        ensures
            *r == self.config,
    {
        &self.config
    }

    /// Stores a content entry under `key`; see [`TooltipMap::insert`].
    pub fn insert_content(&mut self, key: String, entry: ContentEntry)
        requires
            old(self).wf(),
        ensures
            final(self).wf(),
            final(self).map.contains_key(key@),
            final(self).map.spec_get(key@) == Some(entry),
            forall|k: Seq<char>|
                k != key@ ==> final(self).map.spec_get(k) == old(self).map.spec_get(k),
            final(self).next_id == old(self).next_id,
            final(self).config == old(self).config,
            final(self).links == old(self).links,
            final(self).highlight_links == old(self).highlight_links,
            final(self).highlight_nodes == old(self).highlight_nodes,
            final(self).panels == old(self).panels,
            final(self).hover == old(self).hover,
    {
        self.map.insert(key, entry);
    }

    /// Switches how links activate. Installing the new policy tears the
    /// old one's state down: every in-flight link countdown is cancelled,
    /// so a link mid-countdown never fires under the new policy.
    pub fn set_activation_method(&mut self, method: ActivationMethod)
        requires
            old(self).wf(),
        ensures
            final(self).wf(),
            final(self).config == (TooltipConfiguration {
                activation_method: method,
                ..old(self).config
            }),
            final(self).links@.len() == old(self).links@.len(),
            forall|i: int|
                0 <= i < old(self).links@.len() ==> final(self).links@[i] == (LinkEntry {
                    timer: None,
                    ..old(self).links@[i]
                }),
            final(self).next_id == old(self).next_id,
            final(self).map == old(self).map,
            final(self).highlight_links == old(self).highlight_links,
            final(self).highlight_nodes == old(self).highlight_nodes,
            final(self).panels == old(self).panels,
            final(self).hover == old(self).hover,
    {
        self.config.activation_method = method;
        let mut links: Vec<LinkEntry> = Vec::new();
        core::mem::swap(&mut links, &mut self.links);
        let ghost pre_links = links@;
        let n = links.len();
        let mut i: usize = 0;
        while i < n
            invariant
                n == links@.len(),
                n == pre_links.len(),
                0 <= i <= n,
                forall|j: int|
                    0 <= j < i ==> links@[j] == (LinkEntry { timer: None, ..pre_links[j] }),
                forall|j: int| i <= j < n ==> links@[j] == pre_links[j],
            decreases n - i,
        {
            let slot = vstd::std_specs::vec::vec_index_mut(&mut links, i);
            slot.timer = None;
            i = i + 1;
        }
        self.links = links;
        proof {
            assert(forall|j: int|
                0 <= j < self.links@.len() ==> self.links@[j].id == old(self).links@[j].id);
            assert(forall|j: int|
                0 <= j < self.links@.len() ==> #[trigger] self.links@[j].spec_parent_panel()
                    == old(self).links@[j].spec_parent_panel());
        }
    }

    /// Sets the dismiss delay used for panels spawned or unlocked from now
    /// on; panels already counting down keep their remaining time.
    pub fn set_interaction_wait_for_time(&mut self, time: u64)
        requires
            old(self).wf(),
        ensures
            final(self).wf(),
            *final(self) == (TooltipSystem {
                config: TooltipConfiguration {
                    interaction_wait_for_time: time,
                    ..old(self).config
                },
                ..*old(self)
            }),
    {
        self.config.interaction_wait_for_time = time;
    }

    /// Sets the stacking index that the next root panel will take.
    pub fn set_starting_z_index(&mut self, z: i32)
        requires
            old(self).wf(),
        ensures
            final(self).wf(),
            *final(self) == (TooltipSystem {
                config: TooltipConfiguration { starting_z_index: z, ..old(self).config },
                ..*old(self)
            }),
    {
        self.config.starting_z_index = z;
    }

    /// Finds the position of the live link with this id.
    pub(crate) fn find_link(&self, entity: u64) -> (r: Option<usize>)
        requires
            self.link_ids_unique(),
        ensures
            match r {
                Some(i) => self.spec_link_live(entity) && self.spec_link_index(entity) == i
                    && i < self.links@.len(),
                None => !self.spec_link_live(entity),
            },
    {
        let n = self.links.len();
        let mut i: usize = 0;
        while i < n
            invariant
                n == self.links@.len(),
                0 <= i <= n,
                self.link_ids_unique(),
                forall|j: int| 0 <= j < i ==> self.links@[j].id != entity,
            decreases n - i,
        {
            if self.links[i].id == entity {
                proof {
                    let w = self.spec_link_index(entity);
                    assert(self.links@[w].id == entity);
                    assert(w == i);
                }
                return Some(i);
            }
            i = i + 1;
        }
        None
    }

    /// Finds the position of the live panel with this id.
    pub(crate) fn find_panel(&self, entity: u64) -> (r: Option<usize>)
        requires
            self.panel_ids_unique(),
        ensures
            match r {
                Some(i) => self.spec_panel_live(entity) && self.spec_panel_index(entity) == i
                    && i < self.panels@.len(),
                None => !self.spec_panel_live(entity),
            },
    {
        let n = self.panels.len();
        let mut i: usize = 0;
        while i < n
            invariant
                n == self.panels@.len(),
                0 <= i <= n,
                self.panel_ids_unique(),
                forall|j: int| 0 <= j < i ==> self.panels@[j].id != entity,
            decreases n - i,
        {
            if self.panels[i].id == entity {
                proof {
                    let w = self.spec_panel_index(entity);
                    assert(self.panels@[w].id == entity);
                    assert(w == i);
                }
                return Some(i);
            }
            i = i + 1;
        }
        None
    }

    /// Finds the position of the live highlight source with this id.
    pub(crate) fn find_source(&self, entity: u64) -> (r: Option<usize>)
        requires
            self.source_ids_unique(),
        ensures
            match r {
                Some(i) => self.spec_source_live(entity) && self.spec_source_index(entity) == i
                    && i < self.highlight_links@.len(),
                None => !self.spec_source_live(entity),
            },
    {
        let n = self.highlight_links.len();
        let mut i: usize = 0;
        while i < n
            invariant
                n == self.highlight_links@.len(),
                0 <= i <= n,
                self.source_ids_unique(),
                forall|j: int| 0 <= j < i ==> self.highlight_links@[j].id != entity,
            decreases n - i,
        {
            if self.highlight_links[i].id == entity {
                proof {
                    let w = self.spec_source_index(entity);
                    assert(self.highlight_links@[w].id == entity);
                    assert(w == i);
                }
                return Some(i);
            }
            i = i + 1;
        }
        None
    }

    /// Takes the next fresh identifier, or `None` once the id space is
    /// used up.
    fn alloc_id(&mut self) -> (r: Option<u64>)
        ensures
            match r {
                Some(id) => id == old(self).next_id && final(self).next_id == old(self).next_id
                    + 1,
                None => old(self).next_id == u64::MAX && final(self).next_id
                    == old(self).next_id,
            },
            final(self).config == old(self).config,
            final(self).map == old(self).map,
            final(self).links == old(self).links,
            final(self).highlight_links == old(self).highlight_links,
            final(self).highlight_nodes == old(self).highlight_nodes,
            final(self).panels == old(self).panels,
            final(self).hover == old(self).hover,
    {
        if self.next_id == u64::MAX {
            return None;
        }
        let id = self.next_id;
        self.next_id = self.next_id + 1;
        Some(id)
    }

    /// Registers a host-owned, root-level link span that resolves
    /// `linked_string`. Returns the span's identifier, which the host
    /// attaches to its own scene node, or `None` once the id space is used
    /// up.
    pub fn register_link(&mut self, linked_string: String) -> (r: Option<u64>)
        requires
            old(self).wf(),
        ensures
            final(self).wf(),
            match r {
                Some(id) => {
                    &&& id == old(self).next_id
                    &&& final(self).next_id == old(self).next_id + 1
                    &&& final(self).links@ == old(self).links@.push(
                        LinkEntry {
                            id,
                            kind: LinkKind::Root(TooltipTermLink { linked_string }),
                            timer: None,
                        },
                    )
                },
                None => old(self).next_id == u64::MAX && final(self).links@ == old(self).links@ && final(self).next_id == old(self).next_id,
            },
            final(self).config == old(self).config,
            final(self).map == old(self).map,
            final(self).highlight_links == old(self).highlight_links,
            final(self).highlight_nodes == old(self).highlight_nodes,
            final(self).panels == old(self).panels,
            final(self).hover == old(self).hover,
    {
        let id_opt = self.alloc_id();
        match id_opt {
            None => None,
            Some(id) => {
                self.links.push(
                    LinkEntry {
                        id,
                        kind: LinkKind::Root(TooltipTermLink { linked_string }),
                        timer: None,
                    },
                );
                Some(id)
            },
        }
    }

    /// Registers a host node as a highlight target for `tag`. The node
    /// starts unmarked, even if a source with the same tag is currently
    /// hovered. Returns the node's identifier, or `None` once the id space
    /// is used up.
    pub fn register_highlight_target(&mut self, tag: String) -> (r: Option<u64>)
        requires
            old(self).wf(),
        ensures
            final(self).wf(),
            match r {
                Some(id) => {
                    &&& id == old(self).next_id
                    &&& final(self).next_id == old(self).next_id + 1
                    &&& final(self).highlight_nodes@ == old(self).highlight_nodes@.push(
                        HighlightTargetEntry {
                            id,
                            highlight: TooltipHighlight(tag),
                            highlighting: false,
                        },
                    )
                },
                None => old(self).next_id == u64::MAX && final(self).highlight_nodes@ == old(self).highlight_nodes@ && final(self).next_id == old(self).next_id,
            },
            final(self).config == old(self).config,
            final(self).map == old(self).map,
            final(self).links == old(self).links,
            final(self).highlight_links == old(self).highlight_links,
            final(self).panels == old(self).panels,
            final(self).hover == old(self).hover,
    {
        let id_opt = self.alloc_id();
        match id_opt {
            None => None,
            Some(id) => {
                self.highlight_nodes.push(
                    HighlightTargetEntry {
                        id,
                        highlight: TooltipHighlight(tag),
                        highlighting: false,
                    },
                );
                Some(id)
            },
        }
    }

    /// Registers a host-owned span as a highlight source for `tag`:
    /// hovering it marks every target sharing the tag. Returns the span's
    /// identifier, or `None` once the id space is used up.
    pub fn register_highlight_link(&mut self, tag: String) -> (r: Option<u64>)
        requires
            old(self).wf(),
        ensures
            final(self).wf(),
            match r {
                Some(id) => {
                    &&& id == old(self).next_id
                    &&& final(self).next_id == old(self).next_id + 1
                    &&& final(self).highlight_links@ == old(self).highlight_links@.push(
                        HighlightSourceEntry {
                            id,
                            link: TooltipHighlightLink(tag),
                            owner: None,
                        },
                    )
                },
                None => old(self).next_id == u64::MAX && final(self).highlight_links@ == old(self).highlight_links@ && final(self).next_id == old(self).next_id,
            },
            final(self).config == old(self).config,
            final(self).map == old(self).map,
            final(self).links == old(self).links,
            final(self).highlight_nodes == old(self).highlight_nodes,
            final(self).panels == old(self).panels,
            final(self).hover == old(self).hover,
    {
        let id_opt = self.alloc_id();
        match id_opt {
            None => None,
            Some(id) => {
                self.highlight_links.push(
                    HighlightSourceEntry { id, link: TooltipHighlightLink(tag), owner: None },
                );
                Some(id)
            },
        }
    }

    /// On hover-enter of a link span: under the hover policy, starts (or
    /// restarts) the link's activation countdown at the configured
    /// duration. Under the middle-mouse policy, or for a stale id, does
    /// nothing.
    pub fn hover_time_spawn(&mut self, entity: u64)
        requires
            old(self).wf(),
        ensures
            final(self).wf(),
            Self::same_but_links(*old(self), *final(self)),
            match old(self).config.activation_method {
                ActivationMethod::Hover { time } => {
                    &&& old(self).spec_link_live(entity) ==> final(self).links@ == old(self).links@.update(
                        old(self).spec_link_index(entity),
                        (LinkEntry {
                            timer: Some(TooltipLinkTimer { timer: time }),
                            ..old(self).spec_link(entity)
                        }),
                    )
                    &&& !old(self).spec_link_live(entity) ==> final(self).links@ == old(self).links@
                },
                ActivationMethod::MiddleMouse => final(self).links@ == old(self).links@,
            },
    {
        let time = match self.config.activation_method {
            ActivationMethod::Hover { time } => time,
            ActivationMethod::MiddleMouse => {
                return ;
            },
        };
        let found = self.find_link(entity);
        match found {
            None => {},
            Some(i) => {
                let slot = vstd::std_specs::vec::vec_index_mut(&mut self.links, i);
                slot.timer = Some(TooltipLinkTimer { timer: time });
                proof {
                    assert(forall|j: int|
                        0 <= j < self.links@.len() ==> self.links@[j].id == old(self).links@[j].id);
                    assert(forall|j: int|
                        0 <= j < self.links@.len() ==> #[trigger] self.links@[
                            j
                        ].spec_parent_panel() == old(self).links@[j].spec_parent_panel());
                }
            },
        }
    }

    /// On hover-exit of a link span: cancels the link's activation
    /// countdown, if one was running. A link whose countdown is cancelled
    /// before it runs out never activates from that hover.
    pub fn hover_cancel_spawn(&mut self, entity: u64)
        requires
            old(self).wf(),
        ensures
            final(self).wf(),
            Self::same_but_links(*old(self), *final(self)),
            old(self).spec_link_live(entity) ==> final(self).links@ == old(self).links@.update(
                old(self).spec_link_index(entity),
                (LinkEntry { timer: None, ..old(self).spec_link(entity) }),
            ),
            !old(self).spec_link_live(entity) ==> final(self).links@ == old(self).links@,
            final(self).spec_link_live(entity) ==> final(self).spec_link(entity).timer is None,
    {
        let found = self.find_link(entity);
        match found {
            None => {},
            Some(i) => {
                let slot = vstd::std_specs::vec::vec_index_mut(&mut self.links, i);
                slot.timer = None;
                proof {
                    assert(forall|j: int|
                        0 <= j < self.links@.len() ==> self.links@[j].id == old(self).links@[j].id);
                    assert(forall|j: int|
                        0 <= j < self.links@.len() ==> #[trigger] self.links@[
                            j
                        ].spec_parent_panel() == old(self).links@[j].spec_parent_panel());
                    let w = self.spec_link_index(entity);
                    assert(self.links@[w].id == entity);
                    assert(w == i);
                }
            },
        }
    }

    /// The middle-mouse press aimed at a panel itself (not at a link):
    /// toggles the panel's lock. Locking exempts the panel from its
    /// dismiss timer and from despawn on hover-exit; unlocking restores
    /// normal dismissal with a fresh, full dismiss delay (no credit for
    /// the time spent locked). Returns the new lock state, or `None` for a
    /// stale id.
    pub fn lock_tooltip(&mut self, entity: u64) -> (r: Option<bool>)
        requires
            old(self).wf(),
        ensures
            final(self).wf(),
            Self::same_but_panels(*old(self), *final(self)),
            match r {
                Some(locked_now) => {
                    &&& old(self).spec_panel_live(entity)
                    &&& locked_now == !old(self).spec_panel(entity).locked
                    &&& final(self).panels@ == old(self).panels@.update(
                        old(self).spec_panel_index(entity),
                        (Tooltip {
                            locked: locked_now,
                            wait_for_hover: if locked_now || old(self).spec_panel(
                                entity,
                            ).debounced {
                                None
                            } else {
                                Some(
                                    TooltipWaitForHover {
                                        timer: old(self).config.interaction_wait_for_time,
                                    },
                                )
                            },
                            ..old(self).spec_panel(entity)
                        }),
                    )
                },
                None => !old(self).spec_panel_live(entity) && final(self).panels@ == old(self).panels@,
            },
    {
        let found = self.find_panel(entity);
        match found {
            None => None,
            Some(i) => {
                let full = self.config.interaction_wait_for_time;
                let slot = vstd::std_specs::vec::vec_index_mut(&mut self.panels, i);
                let locked_now = !slot.locked;
                slot.locked = locked_now;
                slot.wait_for_hover = if locked_now || slot.debounced {
                    None
                } else {
                    Some(TooltipWaitForHover { timer: full })
                };
                proof {
                    assert(forall|j: int|
                        0 <= j < self.panels@.len() ==> (self.panels@[j].id == old(self).panels@[j].id && self.panels@[j].entity == old(self).panels@[j].entity
                            && self.panels@[j].parent == old(self).panels@[j].parent));
                }
                Some(locked_now)
            },
        }
    }

    /// On pointer motion inside a panel: once the position, normalized in
    /// thousandths of the panel's extent from its centre, settles within
    /// the debounce bounds on both axes, the panel is debounced: its
    /// dismiss timer is cancelled for good, and brief boundary crossings
    /// can no longer dismiss it. Returns whether this call debounced the
    /// panel.
    pub fn hover_debounce(&mut self, entity: u64, normalized: Option<(i64, i64)>) -> (r: bool)
        requires
            old(self).wf(),
        ensures
            final(self).wf(),
            Self::same_but_panels(*old(self), *final(self)),
            r == (old(self).spec_panel_live(entity) && !old(self).spec_panel(entity).debounced
                && match normalized {
                Some(n) => spec_debounce_inside(n.0 as int, n.1 as int),
                None => false,
            }),
            r ==> final(self).panels@ == old(self).panels@.update(
                old(self).spec_panel_index(entity),
                (Tooltip {
                    debounced: true,
                    wait_for_hover: None,
                    ..old(self).spec_panel(entity)
                }),
            ),
            !r ==> final(self).panels@ == old(self).panels@,
    {
        let found = self.find_panel(entity);
        match found {
            None => false,
            Some(i) => {
                if self.panels[i].debounced {
                    return false;
                }
                match normalized {
                    None => false,
                    Some((nx, ny)) => {
                        if debounce_inside(nx, ny) {
                            let slot = vstd::std_specs::vec::vec_index_mut(&mut self.panels, i);
                            slot.debounced = true;
                            slot.wait_for_hover = None;
                            proof {
                                assert(forall|j: int|
                                    0 <= j < self.panels@.len() ==> (self.panels@[j].id == old(self).panels@[j].id && self.panels@[j].entity == old(self).panels@[j].entity && self.panels@[j].parent == old(self).panels@[j].parent));
                            }
                            true
                        } else {
                            false
                        }
                    },
                }
            },
        }
    }

    /// On hover-enter of a highlight source span: marks every registered
    /// target sharing the source's tag, leaving every other target's mark
    /// alone. Returns whether the span was a live highlight source.
    pub fn highlight_activate(&mut self, entity: u64) -> (r: bool)
        requires
            old(self).wf(),
        ensures
            final(self).wf(),
            Self::same_but_marks(*old(self), *final(self)),
            r == old(self).spec_source_live(entity),
            r ==> final(self).highlight_nodes@ == marks_after_enter(
                old(self).highlight_nodes@,
                old(self).spec_source_tag(entity),
            ),
            !r ==> final(self).highlight_nodes@ == old(self).highlight_nodes@,
    {
        let found = self.find_source(entity);
        match found {
            None => false,
            Some(si) => {
                let tag = self.highlight_links[si].link.0.clone();
                let ghost tag_view = tag@;
                let mut nodes: Vec<HighlightTargetEntry> = Vec::new();
                core::mem::swap(&mut nodes, &mut self.highlight_nodes);
                let ghost pre_nodes = nodes@;
                let n = nodes.len();
                let mut i: usize = 0;
                while i < n
                    invariant
                        n == nodes@.len(),
                        n == pre_nodes.len(),
                        0 <= i <= n,
                        tag@ == tag_view,
                        forall|j: int|
                            0 <= j < i ==> nodes@[j] == (HighlightTargetEntry {
                                highlighting: pre_nodes[j].highlighting || pre_nodes[
                                    j
                                ].highlight.0@ == tag_view,
                                ..pre_nodes[j]
                            }),
                        forall|j: int| i <= j < n ==> nodes@[j] == pre_nodes[j],
                    decreases n - i,
                {
                    let matches_tag = {
                        let stored: &String = &nodes[i].highlight.0;
                        *stored == tag
                    };
                    if matches_tag {
                        let slot = vstd::std_specs::vec::vec_index_mut(&mut nodes, i);
                        slot.highlighting = true;
                    }
                    i = i + 1;
                }
                self.highlight_nodes = nodes;
                proof {
                    assert(final(self).highlight_nodes@ =~= marks_after_enter(
                        pre_nodes,
                        tag_view,
                    ));
                }
                true
            },
        }
    }

    /// On hover-exit of a highlight source span: unmarks every registered
    /// target sharing the source's tag, leaving every other target's mark
    /// alone, so no mark leaks onto unrelated tags. Returns whether the
    /// span was a live highlight source.
    pub fn highlight_deactivate(&mut self, entity: u64) -> (r: bool)
        requires
            old(self).wf(),
        ensures
            final(self).wf(),
            Self::same_but_marks(*old(self), *final(self)),
            r == old(self).spec_source_live(entity),
            r ==> final(self).highlight_nodes@ == marks_after_exit(
                old(self).highlight_nodes@,
                old(self).spec_source_tag(entity),
            ),
            !r ==> final(self).highlight_nodes@ == old(self).highlight_nodes@,
    {
        let found = self.find_source(entity);
        match found {
            None => false,
            Some(si) => {
                let tag = self.highlight_links[si].link.0.clone();
                let ghost tag_view = tag@;
                let mut nodes: Vec<HighlightTargetEntry> = Vec::new();
                core::mem::swap(&mut nodes, &mut self.highlight_nodes);
                let ghost pre_nodes = nodes@;
                let n = nodes.len();
                let mut i: usize = 0;
                while i < n
                    invariant
                        n == nodes@.len(),
                        n == pre_nodes.len(),
                        0 <= i <= n,
                        tag@ == tag_view,
                        forall|j: int|
                            0 <= j < i ==> nodes@[j] == (HighlightTargetEntry {
                                highlighting: pre_nodes[j].highlighting && pre_nodes[
                                    j
                                ].highlight.0@ != tag_view,
                                ..pre_nodes[j]
                            }),
                        forall|j: int| i <= j < n ==> nodes@[j] == pre_nodes[j],
                    decreases n - i,
                {
                    let matches_tag = {
                        let stored: &String = &nodes[i].highlight.0;
                        *stored == tag
                    };
                    if matches_tag {
                        let slot = vstd::std_specs::vec::vec_index_mut(&mut nodes, i);
                        slot.highlighting = false;
                    }
                    i = i + 1;
                }
                self.highlight_nodes = nodes;
                proof {
                    assert(final(self).highlight_nodes@ =~= marks_after_exit(
                        pre_nodes,
                        tag_view,
                    ));
                }
                true
            },
        }
    }

    /// The current hover refers to a node that the removal of these
    /// panels kills: its anchor is a removed panel, or the hovered span is
    /// a link or highlight source rendered by one.
    pub open spec fn spec_hover_dead(self, removed: Seq<u64>) -> bool {
        match self.hover {
            Option::None => false,
            Option::Some(h) => removed.contains(h.anchor_entity) || (self.spec_link_live(
                h.hovered_entity,
            ) && link_condemned(self.spec_link(h.hovered_entity), removed)) || (
            self.spec_source_live(h.hovered_entity) && source_condemned(
                self.highlight_links@[self.spec_source_index(h.hovered_entity)],
                removed,
            )),
        }
    }

    /// The hover after a removal: cleared exactly when it referred to
    /// removed nodes.
    pub open spec fn spec_hover_after_removal(self, removed: Seq<u64>) -> Option<HoverState> {
        if self.spec_hover_dead(removed) {
            None
        } else {
            self.hover
        }
    }

    /// The tag whose marks a removal clears: set when the hovered span is
    /// a highlight source rendered by a removed panel, since no hover-exit
    /// can reach that source once it is gone.
    pub open spec fn spec_dead_hover_tag(self, removed: Seq<u64>) -> Option<Seq<char>> {
        match self.hover {
            Option::None => None,
            Option::Some(h) => if self.spec_source_live(h.hovered_entity) && source_condemned(
                self.highlight_links@[self.spec_source_index(h.hovered_entity)],
                removed,
            ) {
                Some(self.spec_source_tag(h.hovered_entity))
            } else {
                None
            },
        }
    }

    /// Clears the mark of every target carrying `tag`.
    fn unmark_tag(&mut self, tag: &String)
        ensures
            final(self).highlight_nodes@ == marks_after_exit(old(self).highlight_nodes@, tag@),
            final(self).next_id == old(self).next_id,
            final(self).config == old(self).config,
            final(self).map == old(self).map,
            final(self).links == old(self).links,
            final(self).highlight_links == old(self).highlight_links,
            final(self).panels == old(self).panels,
            final(self).hover == old(self).hover,
    {
        let mut nodes: Vec<HighlightTargetEntry> = Vec::new();
        core::mem::swap(&mut nodes, &mut self.highlight_nodes);
        let ghost pre_nodes = nodes@;
        let n = nodes.len();
        let mut i: usize = 0;
        while i < n
            invariant
                n == nodes@.len(),
                n == pre_nodes.len(),
                0 <= i <= n,
                forall|j: int|
                    0 <= j < i ==> nodes@[j] == (HighlightTargetEntry {
                        highlighting: pre_nodes[j].highlighting && pre_nodes[j].highlight.0@
                            != tag@,
                        ..pre_nodes[j]
                    }),
                forall|j: int| i <= j < n ==> nodes@[j] == pre_nodes[j],
            decreases n - i,
        {
            let matches_tag = {
                let stored: &String = &nodes[i].highlight.0;
                *stored == *tag
            };
            if matches_tag {
                let slot = vstd::std_specs::vec::vec_index_mut(&mut nodes, i);
                slot.highlighting = false;
            }
            i = i + 1;
        }
        self.highlight_nodes = nodes;
        proof {
            assert(final(self).highlight_nodes@ =~= marks_after_exit(pre_nodes, tag@));
        }
    }

    /// Removes the panels named in `roots` together with every live
    /// descendant, and everything the removed panels own: their rendered
    /// links and highlight sources, any activation countdowns those links
    /// carried, the hover if it rested on removed nodes, and the marks of
    /// a removed, still-hovered highlight source.
    #[verifier::rlimit(100)]
    fn remove_condemned(&mut self, roots: &Vec<u64>) -> (removed: Vec<u64>)
        requires
            old(self).wf(),
        ensures
            final(self).wf(),
            final(self).panels@ == old(self).panels@.filter(
                keep_pred(old(self).panels@, roots@),
            ),
            removed@ == old(self).panels@.filter(
                condemned_pred(old(self).panels@, roots@),
            ).map_values(panel_id_fn()),
            forall|q: u64| removed@.contains(q) <==> spec_condemned_id(
                old(self).panels@,
                q,
                roots@,
            ),
            final(self).links@ == old(self).links@.filter(link_keep_pred(removed@)),
            final(self).highlight_links@ == old(self).highlight_links@.filter(
                source_keep_pred(removed@),
            ),
            final(self).highlight_nodes@ == (match old(self).spec_dead_hover_tag(removed@) {
                Option::Some(tag) => marks_after_exit(old(self).highlight_nodes@, tag),
                Option::None => old(self).highlight_nodes@,
            }),
            final(self).hover == old(self).spec_hover_after_removal(removed@),
            final(self).next_id == old(self).next_id,
            final(self).config == old(self).config,
            final(self).map == old(self).map,
    {
        let mut panels: Vec<Tooltip> = Vec::new();
        core::mem::swap(&mut panels, &mut self.panels);
        let (kept, removed) = filter_condemned_panels(panels, roots);
        self.panels = kept;

        let mut clear_hover = false;
        let mut dead_tag: Option<String> = None;
        match self.hover {
            Option::None => {},
            Option::Some(h) => {
                if contains_id(&removed, h.anchor_entity) {
                    clear_hover = true;
                }
                let li = self.find_link(h.hovered_entity);
                match li {
                    Option::None => {},
                    Option::Some(li) => {
                        let link_doomed = match &self.links[li].kind {
                            LinkKind::Root(_) => false,
                            LinkKind::Nested(r) => contains_id(&removed, r.parent_entity),
                        };
                        if link_doomed {
                            clear_hover = true;
                        }
                    },
                }
                let si = self.find_source(h.hovered_entity);
                match si {
                    Option::None => {},
                    Option::Some(si) => {
                        let source_doomed = match self.highlight_links[si].owner {
                            Option::None => false,
                            Option::Some(p) => contains_id(&removed, p),
                        };
                        if source_doomed {
                            clear_hover = true;
                            dead_tag = Some(self.highlight_links[si].link.0.clone());
                        }
                    },
                }
            },
        }
        proof {
            assert(clear_hover == old(self).spec_hover_dead(removed@));
            match old(self).spec_dead_hover_tag(removed@) {
                Option::Some(tag) => {
                    assert(dead_tag matches Some(t) && t@ == tag);
                },
                Option::None => {
                    assert(dead_tag is None);
                },
            }
        }

        let mut links: Vec<LinkEntry> = Vec::new();
        core::mem::swap(&mut links, &mut self.links);
        let links2 = filter_condemned_links(links, &removed);
        self.links = links2;

        let mut sources: Vec<HighlightSourceEntry> = Vec::new();
        core::mem::swap(&mut sources, &mut self.highlight_links);
        let sources2 = filter_condemned_sources(sources, &removed);
        self.highlight_links = sources2;

        match &dead_tag {
            Option::None => {},
            Option::Some(tag) => {
                self.unmark_tag(tag);
            },
        }
        if clear_hover {
            self.hover = None;
        }

        proof {
            let pre = *old(self);
            let post = *self;
            assert(post.map.wf());
            assert forall|i: int|
                0 <= i < post.panels@.len() implies post.panels@[i].id < post.next_id
                && (post.panels@[i].wait_for_hover is Some) == (!post.panels@[i].debounced
                && !post.panels@[i].locked) by {
                let j = choose|j: int| 0 <= j < pre.panels@.len() && post.panels@[i] == pre.panels@[j];
                assert(pre.panels@[j].id < pre.next_id);
            }
            assert forall|i: int|
                0 <= i < post.links@.len() implies post.links@[i].id < post.next_id by {
                let j = choose|j: int| 0 <= j < pre.links@.len() && post.links@[i] == pre.links@[j];
                assert(pre.links@[j].id < pre.next_id);
            }
            assert forall|i: int|
                0 <= i < post.highlight_links@.len() implies post.highlight_links@[i].id
                < post.next_id by {
                let j = choose|j: int|
                    0 <= j < pre.highlight_links@.len() && post.highlight_links@[i]
                        == pre.highlight_links@[j];
                assert(pre.highlight_links@[j].id < pre.next_id);
            }
            assert forall|i: int|
                0 <= i < post.highlight_nodes@.len() implies post.highlight_nodes@[i].id
                < post.next_id by {
                assert(post.highlight_nodes@[i].id == pre.highlight_nodes@[i].id);
            }
            assert(post.target_ids_unique()) by {
                assert forall|i: int, j: int|
                    0 <= i < j < post.highlight_nodes@.len() implies post.highlight_nodes@[i].id
                    != post.highlight_nodes@[j].id by {
                    assert(post.highlight_nodes@[i].id == pre.highlight_nodes@[i].id);
                    assert(post.highlight_nodes@[j].id == pre.highlight_nodes@[j].id);
                }
            }
            assert(post.nested_links_owned()) by {
                assert forall|a: int| #![trigger post.links@[a].spec_parent_panel()]
                    0 <= a < post.links@.len() implies match post.links@[a].spec_parent_panel() {
                    Option::None => true,
                    Option::Some(p) => post.spec_panel_live(p),
                } by {
                    pre.links@.lemma_filter_pred(link_keep_pred(removed@), a);
                    assert(!link_condemned(post.links@[a], removed@));
                    match post.links@[a].spec_parent_panel() {
                        Option::None => {},
                        Option::Some(p) => {
                            assert(!removed@.contains(p));
                            assert(!spec_condemned_id(pre.panels@, p, roots@));
                            let j = choose|j: int|
                                0 <= j < pre.links@.len() && post.links@[a] == pre.links@[j];
                            assert(pre.spec_panel_live(p));
                            let ip = choose|ip: int|
                                0 <= ip < pre.panels@.len() && pre.panels@[ip].id == p;
                            crate::cascade::lemma_condemned_id_index(pre.panels@, roots@, ip);
                            assert(!spec_condemned(pre.panels@, ip, roots@));
                            assert(post.panels@.contains(pre.panels@[ip]));
                            let a2 = choose|a2: int|
                                0 <= a2 < post.panels@.len() && post.panels@[a2]
                                    == pre.panels@[ip];
                            assert(post.panels@[a2].id == p);
                        },
                    }
                }
            }
        }
        removed
    }

    /// The block of facts that a live cascade removal rooted at `entity`
    /// establishes; shared by [`Self::despawn_panel`] and
    /// [`Self::hover_despawn`].
    pub open spec fn spec_despawn_effect(
        pre: TooltipSystem,
        post: TooltipSystem,
        entity: u64,
        despawned: Seq<u64>,
    ) -> bool {
        &&& post.panels@ == pre.panels@.filter(keep_pred(pre.panels@, seq![entity]))
        &&& despawned == pre.panels@.filter(condemned_pred(pre.panels@, seq![entity])).map_values(
            panel_id_fn(),
        )
        &&& forall|q: u64|
            despawned.contains(q) <==> spec_condemned_id(pre.panels@, q, seq![entity])
        &&& despawned.len() == 1 + spec_descendant_count(pre.panels@, entity)
        &&& post.links@ == pre.links@.filter(link_keep_pred(despawned))
        &&& post.highlight_links@ == pre.highlight_links@.filter(source_keep_pred(despawned))
        &&& post.highlight_nodes@ == (match pre.spec_dead_hover_tag(despawned) {
            Option::Some(tag) => marks_after_exit(pre.highlight_nodes@, tag),
            Option::None => pre.highlight_nodes@,
        })
        &&& post.hover == pre.spec_hover_after_removal(despawned)
        &&& post.next_id == pre.next_id
        &&& post.config == pre.config
        &&& post.map == pre.map
    }

    /// Destroys the panel with this id together with its whole descendant
    /// subtree: with N live descendants, exactly N + 1 panels go, and no
    /// orphaned descendant survives. A stale id is a no-op. Returns the
    /// removed panel ids, parents before their descendants.
    pub fn despawn_panel(&mut self, entity: u64) -> (despawned: Vec<u64>)
        requires
            old(self).wf(),
        ensures
            final(self).wf(),
            !old(self).spec_panel_live(entity) ==> *final(self) == *old(self) && despawned@.len()
                == 0,
            old(self).spec_panel_live(entity) ==> Self::spec_despawn_effect(
                *old(self),
                *final(self),
                entity,
                despawned@,
            ),
    {
        let found = self.find_panel(entity);
        match found {
            Option::None => Vec::new(),
            Option::Some(i) => {
                let roots = vec![entity];
                proof {
                    assert(roots@ =~= seq![entity]);
                }
                let removed = self.remove_condemned(&roots);
                proof {
                    crate::cascade::lemma_subtree_count(old(self).panels@, entity, i as int);
                }
                removed
            },
        }
    }

    /// Whether any live panel is nested under the panel with this id.
    pub fn has_nested(&self, entity: u64) -> (r: bool)
        ensures
            r == self.spec_has_nested(entity),
    {
        let n = self.panels.len();
        let mut i: usize = 0;
        while i < n
            invariant
                n == self.panels@.len(),
                0 <= i <= n,
                forall|j: int| 0 <= j < i ==> self.panels@[j].parent != Some(entity),
            decreases n - i,
        {
            let is_child = match self.panels[i].parent {
                Option::Some(p) => p == entity,
                Option::None => false,
            };
            if is_child {
                return true;
            }
            i = i + 1;
        }
        false
    }

    /// On the pointer leaving a panel's region: despawns the panel with
    /// its subtree, unless it still has live nested panels (despawns then
    /// happen at the nested level), is locked, was never debounced (an
    /// unsettled panel is only removed by its dismiss timer), or the
    /// pointer is in fact still over it. Returns the removed panel ids.
    pub fn hover_despawn(&mut self, entity: u64, cursor_over: bool) -> (despawned: Vec<u64>)
        requires
            old(self).wf(),
        ensures
            final(self).wf(),
            ({
                let fire = old(self).spec_panel_live(entity) && !old(self).spec_has_nested(entity)
                    && !old(self).spec_panel(entity).locked && old(self).spec_panel(
                    entity,
                ).debounced && !cursor_over;
                &&& !fire ==> *final(self) == *old(self) && despawned@.len() == 0
                &&& fire ==> Self::spec_despawn_effect(
                    *old(self),
                    *final(self),
                    entity,
                    despawned@,
                )
            }),
    {
        let found = self.find_panel(entity);
        match found {
            Option::None => Vec::new(),
            Option::Some(i) => {
                if self.has_nested(entity) || self.panels[i].locked || !self.panels[i].debounced {
                    return Vec::new();
                }
                if cursor_over {
                    return Vec::new();
                }
                self.despawn_panel(entity)
            },
        }
    }

    /// Unregisters a host-owned link span, for the host's own scene
    /// teardown. Any activation countdown on it dies with it, and a hover
    /// resting on it is cleared. Returns whether the id was a live link.
    pub fn remove_link(&mut self, entity: u64) -> (r: bool)
        requires
            old(self).wf(),
        ensures
            final(self).wf(),
            r == old(self).spec_link_live(entity),
            r ==> final(self).links@ == old(self).links@.remove(
                old(self).spec_link_index(entity),
            ),
            !r ==> final(self).links@ == old(self).links@,
            final(self).hover == (match old(self).hover {
                Option::Some(h) => if r && h.hovered_entity == entity {
                    None
                } else {
                    old(self).hover
                },
                Option::None => None,
            }),
            final(self).next_id == old(self).next_id,
            final(self).config == old(self).config,
            final(self).map == old(self).map,
            final(self).highlight_links == old(self).highlight_links,
            final(self).highlight_nodes == old(self).highlight_nodes,
            final(self).panels == old(self).panels,
    {
        let found = self.find_link(entity);
        match found {
            Option::None => false,
            Option::Some(i) => {
                self.links.remove(i);
                let hovered_here = match self.hover {
                    Option::Some(h) => h.hovered_entity == entity,
                    Option::None => false,
                };
                if hovered_here {
                    self.hover = None;
                }
                proof {
                    let pre = old(self).links@;
                    assert(self.links@ =~= pre.subrange(0, i as int) + pre.subrange(
                        i + 1,
                        pre.len() as int,
                    ));
                    assert(forall|a: int| 0 <= a < i ==> self.links@[a] == pre[a]);
                    assert(forall|a: int|
                        i <= a < self.links@.len() ==> self.links@[a] == pre[a + 1]);
                    assert forall|a: int| #![trigger self.links@[a].spec_parent_panel()]
                        0 <= a < self.links@.len() implies match self.links@[
                        a
                    ].spec_parent_panel() {
                        Option::None => true,
                        Option::Some(p) => self.spec_panel_live(p),
                    } by {
                        if a < i {
                            assert(self.links@[a] == pre[a]);
                        } else {
                            assert(self.links@[a] == pre[a + 1]);
                        }
                    }
                }
                true
            },
        }
    }

    /// Unregisters a highlight target node, for the host's own scene
    /// teardown. Returns whether the id was a live target.
    pub fn remove_highlight_target(&mut self, entity: u64) -> (r: bool)
        requires
            old(self).wf(),
        ensures
            final(self).wf(),
            ({
                let live = exists|i: int|
                    0 <= i < old(self).highlight_nodes@.len() && old(self).highlight_nodes@[i].id
                        == entity;
                &&& r == live
                &&& !live ==> final(self).highlight_nodes@ == old(self).highlight_nodes@
                &&& live ==> final(self).highlight_nodes@ == old(self).highlight_nodes@.remove(
                    choose|i: int|
                        0 <= i < old(self).highlight_nodes@.len() && old(self).highlight_nodes@[i].id == entity,
                )
            }),
            final(self).next_id == old(self).next_id,
            final(self).config == old(self).config,
            final(self).map == old(self).map,
            final(self).links == old(self).links,
            final(self).highlight_links == old(self).highlight_links,
            final(self).panels == old(self).panels,
            final(self).hover == old(self).hover,
    {
        let n = self.highlight_nodes.len();
        let mut i: usize = 0;
        while i < n
            invariant
                n == self.highlight_nodes@.len(),
                0 <= i <= n,
                *self == *old(self),
                old(self).wf(),
                forall|j: int| 0 <= j < i ==> self.highlight_nodes@[j].id != entity,
            decreases n - i,
        {
            if self.highlight_nodes[i].id == entity {
                self.highlight_nodes.remove(i);
                proof {
                    let pre = old(self).highlight_nodes@;
                    let w = choose|w: int| 0 <= w < pre.len() && pre[w].id == entity;
                    assert(w == i);
                    assert(forall|a: int|
                        0 <= a < self.highlight_nodes@.len() ==> self.highlight_nodes@[a] == (
                        if a < i {
                            pre[a]
                        } else {
                            pre[a + 1]
                        }));
                }
                return true;
            }
            i = i + 1;
        }
        false
    }

    /// Unregisters a host-owned highlight source span, for the host's own
    /// scene teardown. If the span is currently hovered, the marks its tag
    /// put up are cleared first and the hover is dropped, since no
    /// hover-exit can reach the span once it is gone. Returns whether the
    /// id was a live source.
    pub fn remove_highlight_link(&mut self, entity: u64) -> (r: bool)
        requires
            old(self).wf(),
        ensures
            final(self).wf(),
            r == old(self).spec_source_live(entity),
            r ==> final(self).highlight_links@ == old(self).highlight_links@.remove(
                old(self).spec_source_index(entity),
            ),
            !r ==> final(self).highlight_links@ == old(self).highlight_links@,
            ({
                let hovered_here = r && (match old(self).hover {
                    Option::Some(h) => h.hovered_entity == entity,
                    Option::None => false,
                });
                &&& final(self).highlight_nodes@ == (if hovered_here {
                    marks_after_exit(
                        old(self).highlight_nodes@,
                        old(self).spec_source_tag(entity),
                    )
                } else {
                    old(self).highlight_nodes@
                })
                &&& final(self).hover == (if hovered_here {
                    None
                } else {
                    old(self).hover
                })
            }),
            final(self).next_id == old(self).next_id,
            final(self).config == old(self).config,
            final(self).map == old(self).map,
            final(self).links == old(self).links,
            final(self).panels == old(self).panels,
    {
        let found = self.find_source(entity);
        match found {
            Option::None => false,
            Option::Some(i) => {
                let hovered_here = match self.hover {
                    Option::Some(h) => h.hovered_entity == entity,
                    Option::None => false,
                };
                if hovered_here {
                    let tag = self.highlight_links[i].link.0.clone();
                    self.unmark_tag(&tag);
                    self.hover = None;
                }
                self.highlight_links.remove(i);
                proof {
                    let pre = old(self).highlight_links@;
                    assert(forall|a: int|
                        0 <= a < self.highlight_links@.len() ==> self.highlight_links@[a] == (
                        if a < i {
                            pre[a]
                        } else {
                            pre[a + 1]
                        }));
                    assert forall|a: int|
                        0 <= a < self.highlight_nodes@.len() implies self.highlight_nodes@[a].id
                        == old(self).highlight_nodes@[a].id by {}
                }
                true
            },
        }
    }

    /// Whether some live panel was spawned by this source link.
    fn panel_open_for(&self, entity: u64) -> (r: bool)
        ensures
            r == exists|i: int|
                0 <= i < self.panels@.len() && self.panels@[i].entity == entity,
    {
        let n = self.panels.len();
        let mut i: usize = 0;
        while i < n
            invariant
                n == self.panels@.len(),
                0 <= i <= n,
                forall|j: int| 0 <= j < i ==> self.panels@[j].entity != entity,
            decreases n - i,
        {
            if self.panels[i].entity == entity {
                return true;
            }
            i = i + 1;
        }
        false
    }

    /// The freshly spawned panel: sourced at `entity`, nested under the
    /// link's parent, unlocked, not yet debounced, counting down a full
    /// dismiss delay, placed by the pointer, and rendering the entry's
    /// title and segments under sequential identifiers.
    pub open spec fn spec_spawned_panel(
        t: Tooltip,
        pre: TooltipSystem,
        entity: u64,
        z: i64,
        pointer: Option<(u32, u32)>,
        window: (u32, u32),
    ) -> bool {
        let entry = pre.map.spec_get(pre.spec_link(entity).spec_key())->0;
        &&& t.id == pre.next_id
        &&& t.entity == entity
        &&& t.parent == pre.spec_link(entity).spec_parent_panel()
        &&& t.z_index == z
        &&& !t.locked
        &&& !t.debounced
        &&& t.wait_for_hover == Some(
            TooltipWaitForHover { timer: pre.config.interaction_wait_for_time },
        )
        &&& t.placement == spec_placement(pointer, window)
        &&& t.title == entry.title
        &&& t.parts@.len() == 3 + entry.content@.len()
        &&& forall|j: int|
            0 <= j < t.parts@.len() ==> (#[trigger] t.parts@[j]).id == (pre.next_id + 1 + j) as u64
                && t.parts@[j].kind == spec_part_kind(entry, j)
    }

    /// Exactly what [`Self::spawn_tooltip`] does between two states: which
    /// of the five outcomes came back, and the full new state on a spawn.
    pub open spec fn spec_spawn_outcome(
        pre: TooltipSystem,
        post: TooltipSystem,
        out: SpawnOutcome,
        term_entity: u64,
        pointer: Option<(u32, u32)>,
        window: (u32, u32),
    ) -> bool {
        let already = exists|i: int|
            0 <= i < pre.panels@.len() && pre.panels@[i].entity == term_entity;
        let live = pre.spec_link_live(term_entity);
        let key = pre.spec_link(term_entity).spec_key();
        let entry = pre.map.spec_get(key)->0;
        let nid = pre.next_id;
        let fits = nid + 4 + entry.content@.len() <= u64::MAX;
        if already {
            out is AlreadyOpen && post == pre
        } else if !live {
            out is StaleLink && post == pre
        } else if !pre.map.contains_key(key) {
            out is MissingContent && post == pre
        } else if !fits {
            out is OutOfIds && post == pre
        } else {
            out matches SpawnOutcome::Spawned { panel, despawned } && panel == nid
                && post.next_id == nid + 4 + entry.content@.len() && post.config == pre.config && post.map == pre.map && (match pre.spec_link(
                term_entity,
            ).spec_parent_panel() {
                Option::None => {
                    &&& despawned@ == pre.panels@.map_values(panel_id_fn())
                    &&& post.panels@.len() == 1
                    &&& Self::spec_spawned_panel(
                        post.panels@[0],
                        pre,
                        term_entity,
                        pre.config.starting_z_index as i64,
                        pointer,
                        window,
                    )
                    &&& post.links@ == pre.links@.filter(
                        link_keep_pred(despawned@),
                    ) + spec_spawned_links(entry.content@, nid, entry.content@.len() as int)
                    &&& post.highlight_links@ == pre.highlight_links@.filter(
                        source_keep_pred(despawned@),
                    ) + spec_spawned_sources(
                        entry.content@,
                        nid,
                        entry.content@.len() as int,
                    )
                    &&& post.highlight_nodes@ == (match pre.spec_dead_hover_tag(
                        despawned@,
                    ) {
                        Option::Some(tag) => marks_after_exit(pre.highlight_nodes@, tag),
                        Option::None => pre.highlight_nodes@,
                    })
                    &&& post.hover == pre.spec_hover_after_removal(despawned@)
                },
                Option::Some(_) => {
                    &&& despawned@.len() == 0
                    &&& post.panels@.len() == pre.panels@.len() + 1
                    &&& forall|i: int|
                        0 <= i < pre.panels@.len() ==> post.panels@[i]
                            == pre.panels@[i]
                    &&& Self::spec_spawned_panel(
                        post.panels@[pre.panels@.len() as int],
                        pre,
                        term_entity,
                        spec_nested_z(
                            pre.config.starting_z_index,
                            pre.panels@.len() as int,
                        ),
                        pointer,
                        window,
                    )
                    &&& post.links@ == pre.links@ + spec_spawned_links(
                        entry.content@,
                        nid,
                        entry.content@.len() as int,
                    )
                    &&& post.highlight_links@ == pre.highlight_links@
                        + spec_spawned_sources(
                        entry.content@,
                        nid,
                        entry.content@.len() as int,
                    )
                    &&& post.highlight_nodes@ == pre.highlight_nodes@
                    &&& post.hover == pre.hover
                },
            })
        }
    }

    /// Spawns the panel for an activated link. Exactly one of five things
    /// happens, tested in this order: the activation is ignored because
    /// the link already bears a live panel; the id is no live link; the
    /// link's key is missing from the content map; the identifier space
    /// is exhausted; or the panel spawns. A root spawn first despawns
    /// every live panel, so exactly one root panel remains; a nested
    /// spawn stacks on top of everything live.
    #[verifier::rlimit(100)]
    pub fn spawn_tooltip(
        &mut self,
        term_entity: u64,
        pointer: Option<(u32, u32)>,
        window: (u32, u32),
    ) -> (out: SpawnOutcome)
        requires
            old(self).wf(),
        ensures
            final(self).wf(),
            Self::spec_spawn_outcome(*old(self), *final(self), out, term_entity, pointer, window),
    
    {
        if self.panel_open_for(term_entity) {
            return SpawnOutcome::AlreadyOpen;
        }
        let li = match self.find_link(term_entity) {
            Option::None => {
                return SpawnOutcome::StaleLink;
            },
            Option::Some(li) => li,
        };
        let (key, nested): (String, Option<u64>) = match &self.links[li].kind {
            LinkKind::Root(l) => (l.linked_string.clone(), None),
            LinkKind::Nested(l) => (l.linked_string.clone(), Some(l.parent_entity)),
        };
        let nid = self.next_id;
        let ghost pre = *old(self);
        let entry = match self.map.get(&key) {
            Option::None => {
                return SpawnOutcome::MissingContent;
            },
            Option::Some(e) => e,
        };
        let ghost entry_g = *entry;
        let seg_count = entry.content.len();
        if nid > u64::MAX - 4 || (seg_count as u64) > u64::MAX - 4 - nid {
            return SpawnOutcome::OutOfIds;
        }
        let title = entry.title.clone();

        let mut parts: Vec<TooltipPart> = Vec::new();
        parts.push(TooltipPart { id: nid + 1, kind: TooltipPartKind::TitleNode });
        parts.push(TooltipPart { id: nid + 2, kind: TooltipPartKind::TitleText(title.clone()) });
        parts.push(TooltipPart { id: nid + 3, kind: TooltipPartKind::TextNode });
        let mut new_links: Vec<LinkEntry> = Vec::new();
        let mut new_sources: Vec<HighlightSourceEntry> = Vec::new();
        let mut j: usize = 0;
        while j < seg_count
            invariant
                seg_count == entry_g.content@.len(),
                nid + 4 + seg_count <= u64::MAX,
                0 <= j <= seg_count,
                entry.content@ == entry_g.content@,
                entry.title == entry_g.title,
                title == entry_g.title,
                parts@.len() == 3 + j,
                forall|m: int|
                    0 <= m < parts@.len() ==> (#[trigger] parts@[m]).id == (nid + 1 + m) as u64
                        && parts@[m].kind == spec_part_kind(entry_g, m),
                new_links@ == spec_spawned_links(entry_g.content@, nid, j as int),
                new_sources@ == spec_spawned_sources(entry_g.content@, nid, j as int),
            decreases seg_count - j,
        {
            let id = nid + 4 + (j as u64);
            match &entry.content[j] {
                TooltipsContent::String(txt) => {
                    parts.push(TooltipPart { id, kind: TooltipPartKind::StringText(txt.clone()) });
                },
                TooltipsContent::Term(txt) => {
                    parts.push(TooltipPart { id, kind: TooltipPartKind::TermText(txt.clone()) });
                    new_links.push(
                        LinkEntry {
                            id,
                            kind: LinkKind::Nested(
                                TooltipTermLinkRecursive {
                                    parent_entity: nid,
                                    linked_string: txt.clone(),
                                },
                            ),
                            timer: None,
                        },
                    );
                },
                TooltipsContent::Highlight(txt) => {
                    parts.push(
                        TooltipPart { id, kind: TooltipPartKind::HighlightText(txt.clone()) },
                    );
                    new_sources.push(
                        HighlightSourceEntry {
                            id,
                            link: TooltipHighlightLink(txt.clone()),
                            owner: Some(nid),
                        },
                    );
                },
            }
            j = j + 1;
        }

        let placement = match pointer {
            Option::Some(c) => crate::geometry::position_tooltip(window.0, window.1, c.0, c.1),
            Option::None => TooltipPlacement {
                horizontal: crate::geometry::HorizontalAnchor::FromLeft(0),
                vertical: crate::geometry::VerticalAnchor::FromTop(0),
            },
        };
        let full_wait = self.config.interaction_wait_for_time;

        let (z, despawned): (i64, Vec<u64>) = match nested {
            Option::None => {
                let n = self.panels.len();
                let mut all_ids: Vec<u64> = Vec::new();
                let mut i: usize = 0;
                while i < n
                    invariant
                        n == self.panels@.len(),
                        0 <= i <= n,
                        *self == pre,
                        all_ids@ == self.panels@.take(i as int).map_values(panel_id_fn()),
                    decreases n - i,
                {
                    all_ids.push(self.panels[i].id);
                    proof {
                        assert(self.panels@.take(i + 1) =~= self.panels@.take(i as int).push(
                            self.panels@[i as int],
                        ));
                        assert(all_ids@ =~= self.panels@.take(i + 1).map_values(panel_id_fn()));
                    }
                    i = i + 1;
                }
                proof {
                    assert(self.panels@.take(n as int) =~= self.panels@);
                }
                let removed = self.remove_condemned(&all_ids);
                proof {
                    assert forall|jj: int|
                        0 <= jj < pre.panels@.len() implies spec_condemned(
                        pre.panels@,
                        jj,
                        all_ids@,
                    ) by {
                        assert(all_ids@[jj] == pre.panels@[jj].id);
                        assert(all_ids@.contains(pre.panels@[jj].id));
                    }
                    assert forall|jj: int|
                        0 <= jj < pre.panels@.len() implies !(keep_pred(pre.panels@, all_ids@)(
                        #[trigger] pre.panels@[jj],
                    )) && condemned_pred(pre.panels@, all_ids@)(pre.panels@[jj]) by {
                        crate::cascade::lemma_condemned_id_index(pre.panels@, all_ids@, jj);
                    }
                    crate::cascade::lemma_filter_none(
                        pre.panels@,
                        keep_pred(pre.panels@, all_ids@),
                    );
                    crate::cascade::lemma_filter_all(
                        pre.panels@,
                        condemned_pred(pre.panels@, all_ids@),
                    );
                    assert(self.panels@ =~= Seq::<Tooltip>::empty());
                    assert(removed@ == pre.panels@.map_values(panel_id_fn()));
                }
                (self.config.starting_z_index as i64, removed)
            },
            Option::Some(_) => {
                let count = self.panels.len();
                let capped: i64 = if count > (i32::MAX as usize) {
                    i32::MAX as i64
                } else {
                    count as i64
                };
                ((self.config.starting_z_index as i64) + capped, Vec::new())
            },
        };

        self.next_id = nid + 4 + (seg_count as u64);
        self.panels.push(
            Tooltip {
                id: nid,
                entity: term_entity,
                parent: nested,
                z_index: z,
                locked: false,
                debounced: false,
                wait_for_hover: Some(TooltipWaitForHover { timer: full_wait }),
                placement,
                title,
                parts,
            },
        );
        self.links.append(&mut new_links);
        self.highlight_links.append(&mut new_sources);
        proof {
            let post = *self;
            assert(pre.spec_link_index(term_entity) == li as int) by {
                let w = pre.spec_link_index(term_entity);
                assert(pre.links@[w].id == term_entity);
            }
            assert(entry_g == pre.map.spec_get(pre.spec_link(term_entity).spec_key())->0);
            let spawned_links = spec_spawned_links(entry_g.content@, nid, seg_count as int);
            let spawned_sources = spec_spawned_sources(entry_g.content@, nid, seg_count as int);
            assert forall|a: int|
                0 <= a < spawned_links.len() implies nid + 4 <= (#[trigger] spawned_links[a]).id
                < nid + 4 + seg_count && spawned_links[a].spec_parent_panel() == Some(nid)
                && spawned_links[a].timer is None by {
                lemma_spawned_links_ids(entry_g.content@, nid, seg_count as int, a);
            }
            assert forall|a: int, b: int|
                0 <= a < b < spawned_links.len() implies spawned_links[a].id != spawned_links[
                b
            ].id by {
                lemma_spawned_links_increasing(entry_g.content@, nid, seg_count as int, a, b);
            }
            assert forall|a: int|
                0 <= a < spawned_sources.len() implies nid + 4 <= (
                #[trigger] spawned_sources[a]).id < nid + 4 + seg_count && spawned_sources[
                a
            ].owner == Some(nid) by {
                lemma_spawned_sources_ids(entry_g.content@, nid, seg_count as int, a);
            }
            assert forall|a: int, b: int|
                0 <= a < b < spawned_sources.len() implies spawned_sources[a].id
                != spawned_sources[b].id by {
                lemma_spawned_sources_increasing(entry_g.content@, nid, seg_count as int, a, b);
            }
            let base_links: Seq<LinkEntry> = match nested {
                Option::None => pre.links@.filter(link_keep_pred(despawned@)),
                Option::Some(_) => pre.links@,
            };
            let base_sources: Seq<HighlightSourceEntry> = match nested {
                Option::None => pre.highlight_links@.filter(source_keep_pred(despawned@)),
                Option::Some(_) => pre.highlight_links@,
            };
            assert(post.links@ == base_links + spawned_links);
            assert(post.highlight_links@ == base_sources + spawned_sources);
            crate::cascade::lemma_filter_subset(pre.links@, link_keep_pred(despawned@));
            crate::cascade::lemma_filter_subset(pre.highlight_links@, source_keep_pred(despawned@));
            assert forall|a: int|
                0 <= a < base_links.len() implies (#[trigger] base_links[a]).id < nid && (match
            base_links[a].spec_parent_panel() {
                Option::None => true,
                Option::Some(p) => post.spec_panel_live(p),
            }) by {
                let w = choose|w: int| 0 <= w < pre.links@.len() && base_links[a] == pre.links@[w];
                assert(pre.links@[w].id < pre.next_id);
                match base_links[a].spec_parent_panel() {
                    Option::None => {},
                    Option::Some(p) => {
                        assert(pre.spec_panel_live(p));
                        match nested {
                            Option::None => {
                                pre.links@.lemma_filter_pred(link_keep_pred(despawned@), a);
                                assert(!link_condemned(base_links[a], despawned@));
                                assert(despawned@.contains(p)) by {
                                    let ip = choose|ip: int|
                                        0 <= ip < pre.panels@.len() && pre.panels@[ip].id == p;
                                    assert(despawned@[ip] == p);
                                }
                                assert(false);
                            },
                            Option::Some(_) => {
                                let ip = choose|ip: int|
                                    0 <= ip < pre.panels@.len() && pre.panels@[ip].id == p;
                                assert(post.panels@[ip].id == p);
                            },
                        }
                    },
                }
            }
            assert forall|a: int|
                0 <= a < base_sources.len() implies (#[trigger] base_sources[a]).id < nid by {
                let w = choose|w: int|
                    0 <= w < pre.highlight_links@.len() && base_sources[a]
                        == pre.highlight_links@[w];
                assert(pre.highlight_links@[w].id < pre.next_id);
            }
            assert(seq_link_ids_unique(base_links));
            assert(post.link_ids_unique()) by {
                assert forall|a: int, b: int|
                    0 <= a < b < post.links@.len() implies post.links@[a].id != post.links@[
                b].id by {
                    let nb = base_links.len();
                    if b < nb {
                        assert(post.links@[a] == base_links[a]);
                        assert(post.links@[b] == base_links[b]);
                    } else if a < nb {
                        assert(post.links@[a] == base_links[a]);
                        assert(post.links@[b] == spawned_links[b - nb]);
                    } else {
                        assert(post.links@[a] == spawned_links[a - nb]);
                        assert(post.links@[b] == spawned_links[b - nb]);
                    }
                }
            }
            assert(post.source_ids_unique()) by {
                assert forall|a: int, b: int|
                    0 <= a < b < post.highlight_links@.len() implies post.highlight_links@[a].id
                    != post.highlight_links@[b].id by {
                    let nb = base_sources.len();
                    if b < nb {
                        assert(post.highlight_links@[a] == base_sources[a]);
                        assert(post.highlight_links@[b] == base_sources[b]);
                    } else if a < nb {
                        assert(post.highlight_links@[a] == base_sources[a]);
                        assert(post.highlight_links@[b] == spawned_sources[b - nb]);
                    } else {
                        assert(post.highlight_links@[a] == spawned_sources[a - nb]);
                        assert(post.highlight_links@[b] == spawned_sources[b - nb]);
                    }
                }
            }
            assert(post.nested_links_owned()) by {
                assert forall|a: int| #![trigger post.links@[a].spec_parent_panel()]
                    0 <= a < post.links@.len() implies match post.links@[a].spec_parent_panel() {
                    Option::None => true,
                    Option::Some(p) => post.spec_panel_live(p),
                } by {
                    let nb = base_links.len();
                    if a < nb {
                        assert(post.links@[a] == base_links[a]);
                    } else {
                        assert(post.links@[a] == spawned_links[a - nb]);
                        assert(post.links@[a].spec_parent_panel() == Some(nid));
                        assert(post.panels@[post.panels@.len() - 1].id == nid);
                    }
                }
            }
            assert(post.panel_ids_unique() && post.panel_sources_unique() && post.single_root()
                && post.parents_linked() && post.timers_shape()) by {
                match nested {
                    Option::None => {
                        assert(post.panels@.len() == 1);
                    },
                    Option::Some(p) => {
                        let last = post.panels@.len() - 1;
                        assert(forall|i: int| 0 <= i < last ==> post.panels@[i] == pre.panels@[i]);
                        assert(post.panels@[last].id == nid);
                        assert forall|i: int| 0 <= i < last implies post.panels@[i].id != nid
                            && post.panels@[i].entity != term_entity by {
                            assert(pre.panels@[i].id < pre.next_id);
                        }
                        assert(pre.spec_panel_live(p));
                        let ip = choose|ip: int|
                            0 <= ip < pre.panels@.len() && pre.panels@[ip].id == p;
                        assert(post.panels@[ip].id == p);
                        assert(post.panels@[last].parent == Some(p));
                        assert forall|i: int| #![trigger post.panels@[i].parent]
                            0 <= i < post.panels@.len() implies match post.panels@[i].parent {
                            Option::None => true,
                            Option::Some(q) => exists|jj: int|
                                0 <= jj < i && post.panels@[jj].id == q,
                        } by {
                            if i < last {
                                match pre.panels@[i].parent {
                                    Option::None => {},
                                    Option::Some(q) => {
                                        let jj = choose|jj: int|
                                            0 <= jj < i && pre.panels@[jj].id == q;
                                        assert(post.panels@[jj].id == q);
                                    },
                                }
                            } else {
                                assert(post.panels@[ip].id == p && ip < last);
                            }
                        }
                    },
                }
            }
            assert(post.ids_fresh()) by {
                assert forall|i: int|
                    0 <= i < post.panels@.len() implies post.panels@[i].id < post.next_id by {
                    match nested {
                        Option::None => {},
                        Option::Some(_) => {
                            if i < post.panels@.len() - 1 {
                                assert(post.panels@[i] == pre.panels@[i]);
                                assert(pre.panels@[i].id < pre.next_id);
                            }
                        },
                    }
                }
                assert forall|i: int|
                    0 <= i < post.links@.len() implies post.links@[i].id < post.next_id by {
                    let nb = base_links.len();
                    if i < nb {
                        assert(post.links@[i] == base_links[i]);
                    } else {
                        assert(post.links@[i] == spawned_links[i - nb]);
                    }
                }
                assert forall|i: int|
                    0 <= i < post.highlight_links@.len() implies post.highlight_links@[i].id
                    < post.next_id by {
                    let nb = base_sources.len();
                    if i < nb {
                        assert(post.highlight_links@[i] == base_sources[i]);
                    } else {
                        assert(post.highlight_links@[i] == spawned_sources[i - nb]);
                    }
                }
                assert forall|i: int|
                    0 <= i < post.highlight_nodes@.len() implies post.highlight_nodes@[i].id
                    < post.next_id by {
                    assert(post.highlight_nodes@[i].id == pre.highlight_nodes@[i].id);
                }
            }
            assert(post.target_ids_unique()) by {
                assert forall|i: int, j: int|
                    0 <= i < j < post.highlight_nodes@.len() implies post.highlight_nodes@[i].id
                    != post.highlight_nodes@[j].id by {
                    assert(post.highlight_nodes@[i].id == pre.highlight_nodes@[i].id);
                    assert(post.highlight_nodes@[j].id == pre.highlight_nodes@[j].id);
                }
            }
        }
        SpawnOutcome::Spawned { panel: nid, despawned }
    }
    /// One hit-test pass, run first each tick: maps the pointer to the
    /// single topmost interactive span among the candidates, updates the
    /// tracked hover, and reports the enter and exit transitions exactly
    /// once per state change; see [`crate::hittest::spec_hit_outcome`].
    /// The caller feeds the transitions to the activation and highlight
    /// steps before ticking the timers.
    pub fn tooltip_links(
        &mut self,
        pointer: Option<(i64, i64)>,
        candidates: &Vec<HitCandidate>,
    ) -> (ev: HitEvents)
        requires
            old(self).wf(),
        ensures
            final(self).wf(),
            ({
                let r = crate::hittest::spec_hit_outcome(old(self).hover, pointer, candidates@);
                &&& *final(self) == (TooltipSystem { hover: r.hover, ..*old(self) })
                &&& ev == r.events
            }),
    {
        let r = crate::hittest::hit_test(self.hover, pointer, candidates);
        self.hover = r.hover;
        r.events
    }

    /// Raised when a link's hover countdown has elapsed: drops the
    /// tracked hover (the pointer is about to be covered by the new
    /// panel) and spawns the link's panel; see [`Self::spawn_tooltip`]
    /// for the outcomes.
    pub fn spawn_time_done(
        &mut self,
        term_entity: u64,
        pointer: Option<(u32, u32)>,
        window: (u32, u32),
    ) -> (out: SpawnOutcome)
        requires
            old(self).wf(),
        ensures
            final(self).wf(),
            Self::spec_spawn_outcome(
                (TooltipSystem { hover: None, ..*old(self) }),
                *final(self),
                out,
                term_entity,
                pointer,
                window,
            ),
    {
        self.hover = None;
        self.spawn_tooltip(term_entity, pointer, window)
    }

    /// A middle-mouse press on a link span: under the middle-mouse policy
    /// the link activates at once and its panel spawns; under the hover
    /// policy the press does nothing here. `Some` reports the spawn
    /// outcome and tells the caller the press was consumed, so it must
    /// not propagate to ancestor handlers (a panel's own lock gesture
    /// uses the same button).
    pub fn middle_mouse_spawn(
        &mut self,
        term_entity: u64,
        pointer: Option<(u32, u32)>,
        window: (u32, u32),
    ) -> (out: Option<SpawnOutcome>)
        requires
            old(self).wf(),
        ensures
            final(self).wf(),
            match old(self).config.activation_method {
                ActivationMethod::MiddleMouse => out matches Some(o) && Self::spec_spawn_outcome(
                    *old(self),
                    *final(self),
                    o,
                    term_entity,
                    pointer,
                    window,
                ),
                ActivationMethod::Hover { .. } => out is None && *final(self) == *old(self),
            },
    {
        match self.config.activation_method {
            ActivationMethod::MiddleMouse => Some(
                self.spawn_tooltip(term_entity, pointer, window),
            ),
            ActivationMethod::Hover { .. } => None,
        }
    }

    /// One tick of the clock: advances every link activation countdown
    /// and every panel dismiss countdown by `delta` milliseconds.
    /// `resting` names the panel the pointer currently rests in, if any:
    /// that panel's dismiss countdown is reset to the full delay instead
    /// of advancing, so continuous use never times out. Locked and
    /// debounced panels carry no countdown and are left alone. Expired
    /// panels despawn with their subtrees. A link with no countdown
    /// running is never due: a countdown cancelled before this tick
    /// cannot activate here.
    #[verifier::rlimit(100)]
    pub fn tick_timers(&mut self, delta: u64, resting: Option<u64>) -> (out: TickOutcome)
        requires
            old(self).wf(),
        ensures
            final(self).wf(),
            ({
                let pre = *old(self);
                let full = pre.config.interaction_wait_for_time;
                let expired = spec_expired_ids(pre.panels@, delta, resting);
                &&& out.due@ == pre.links@.filter(link_due_pred(delta)).map_values(link_id_fn())
                &&& out.despawned@ == pre.panels@.filter(
                    condemned_pred(pre.panels@, expired),
                ).map_values(panel_id_fn())
                &&& forall|q: u64|
                    out.despawned@.contains(q) <==> spec_condemned_id(pre.panels@, q, expired)
                &&& final(self).panels@ == pre.panels@.filter(
                    keep_pred(pre.panels@, expired),
                ).map_values(panel_tick_fn(delta, resting, full))
                &&& final(self).links@ == pre.links@.map_values(link_tick_fn(delta)).filter(
                    link_keep_pred(out.despawned@),
                )
                &&& final(self).highlight_links@ == pre.highlight_links@.filter(
                    source_keep_pred(out.despawned@),
                )
                &&& final(self).highlight_nodes@ == (match pre.spec_dead_hover_tag(
                    out.despawned@,
                ) {
                    Option::Some(tag) => marks_after_exit(pre.highlight_nodes@, tag),
                    Option::None => pre.highlight_nodes@,
                })
                &&& final(self).hover == pre.spec_hover_after_removal(out.despawned@)
                &&& final(self).next_id == pre.next_id
                &&& final(self).config == pre.config
                &&& final(self).map == pre.map
            }),
    {
        let ghost pre = *old(self);

        let mut links: Vec<LinkEntry> = Vec::new();
        core::mem::swap(&mut links, &mut self.links);
        let ghost pre_links = links@;
        let mut due: Vec<u64> = Vec::new();
        let n = links.len();
        let mut i: usize = 0;
        proof {
            assert(pre_links.take(0) =~= Seq::<LinkEntry>::empty());
            crate::cascade::lemma_filter_none(pre_links.take(0), link_due_pred(delta));
            assert(pre_links.take(0).filter(link_due_pred(delta)).map_values(link_id_fn())
                =~= Seq::<u64>::empty());
        }
        while i < n
            invariant
                n == links@.len(),
                n == pre_links.len(),
                0 <= i <= n,
                forall|j: int|
                    0 <= j < i ==> links@[j] == link_tick_fn(delta)(pre_links[j]),
                forall|j: int| i <= j < n ==> links@[j] == pre_links[j],
                due@ == pre_links.take(i as int).filter(link_due_pred(delta)).map_values(
                    link_id_fn(),
                ),
            decreases n - i,
        {
            proof {
                assert(pre_links.take(i + 1) =~= pre_links.take(i as int).push(
                    pre_links[i as int],
                ));
                crate::cascade::lemma_filter_push(
                    pre_links.take(i as int),
                    pre_links[i as int],
                    link_due_pred(delta),
                );
            }
            let is_due = match &links[i].timer {
                Option::Some(t) => t.timer <= delta,
                Option::None => false,
            };
            if is_due {
                due.push(links[i].id);
                let slot = vstd::std_specs::vec::vec_index_mut(&mut links, i);
                slot.timer = None;
            } else {
                let remaining = match &links[i].timer {
                    Option::Some(t) => Some(t.timer - delta),
                    Option::None => None,
                };
                match remaining {
                    Option::Some(r) => {
                        let slot = vstd::std_specs::vec::vec_index_mut(&mut links, i);
                        slot.timer = Some(TooltipLinkTimer { timer: r });
                    },
                    Option::None => {},
                }
            }
            proof {
                assert(due@ =~= pre_links.take(i + 1).filter(link_due_pred(delta)).map_values(
                    link_id_fn(),
                ));
            }
            i = i + 1;
        }
        self.links = links;
        proof {
            assert(pre_links.take(n as int) =~= pre_links);
            assert(self.links@ =~= pre_links.map_values(link_tick_fn(delta)));
            assert forall|j: int|
                0 <= j < self.links@.len() implies self.links@[j].id == pre.links@[j].id
                && #[trigger] self.links@[j].spec_parent_panel() == pre.links@[
                j
            ].spec_parent_panel() by {
                assert(self.links@[j] == link_tick_fn(delta)(pre.links@[j]));
            }
            assert(self.wf());
        }

        let mut expired: Vec<u64> = Vec::new();
        let np = self.panels.len();
        let mut i2: usize = 0;
        proof {
            assert(self.panels@.take(0) =~= Seq::<Tooltip>::empty());
            crate::cascade::lemma_filter_none(self.panels@.take(0), expired_pred(delta, resting));
            assert(self.panels@.take(0).filter(expired_pred(delta, resting)).map_values(
                panel_id_fn(),
            ) =~= Seq::<u64>::empty());
        }
        while i2 < np
            invariant
                np == self.panels@.len(),
                0 <= i2 <= np,
                *self == (TooltipSystem { links: self.links, ..pre }),
                self.panels@ == pre.panels@,
                expired@ == self.panels@.take(i2 as int).filter(
                    expired_pred(delta, resting),
                ).map_values(panel_id_fn()),
            decreases np - i2,
        {
            proof {
                assert(self.panels@.take(i2 + 1) =~= self.panels@.take(i2 as int).push(
                    self.panels@[i2 as int],
                ));
                crate::cascade::lemma_filter_push(
                    self.panels@.take(i2 as int),
                    self.panels@[i2 as int],
                    expired_pred(delta, resting),
                );
            }
            let is_expired = match &self.panels[i2].wait_for_hover {
                Option::Some(w) => {
                    let is_resting = match resting {
                        Option::Some(rid) => rid == self.panels[i2].id,
                        Option::None => false,
                    };
                    !is_resting && w.timer <= delta
                },
                Option::None => false,
            };
            if is_expired {
                expired.push(self.panels[i2].id);
            }
            proof {
                assert(expired@ =~= self.panels@.take(i2 + 1).filter(
                    expired_pred(delta, resting),
                ).map_values(panel_id_fn()));
            }
            i2 = i2 + 1;
        }
        proof {
            assert(self.panels@.take(np as int) =~= self.panels@);
            assert(expired@ == spec_expired_ids(pre.panels@, delta, resting));
        }

        let ghost pre1 = *self;
        let despawned = self.remove_condemned(&expired);

        let ghost mid = *self;
        proof {
            lemma_survivors_not_expired(pre.panels@, self.panels@, expired@, delta, resting);
            assert(pre1.panels@ == pre.panels@);
            assert(pre1.highlight_links@ == pre.highlight_links@);
            assert(pre1.hover == pre.hover);
            assert forall|h: u64| true implies #[trigger] pre1.spec_link_live(h)
                == pre.spec_link_live(h) by {
                if pre1.spec_link_live(h) {
                    let w = choose|w: int|
                        0 <= w < pre1.links@.len() && pre1.links@[w].id == h;
                    assert(pre.links@[w].id == h);
                }
                if pre.spec_link_live(h) {
                    let w = choose|w: int| 0 <= w < pre.links@.len() && pre.links@[w].id == h;
                    assert(pre1.links@[w].id == h);
                }
            }
            assert(pre1.spec_hover_dead(despawned@) == pre.spec_hover_dead(despawned@)) by {
                match pre.hover {
                    Option::None => {},
                    Option::Some(h) => {
                        if pre.spec_link_live(h.hovered_entity) {
                            let w1 = pre1.spec_link_index(h.hovered_entity);
                            let w2 = pre.spec_link_index(h.hovered_entity);
                            assert(pre1.links@[w1].id == h.hovered_entity);
                            assert(pre.links@[w2].id == h.hovered_entity);
                            assert(pre1.links@[w2].id == h.hovered_entity);
                            assert(w1 == w2);
                            assert(pre1.spec_link(h.hovered_entity).spec_parent_panel()
                                == pre.spec_link(h.hovered_entity).spec_parent_panel());
                        }
                    },
                }
            }
            assert(pre1.spec_dead_hover_tag(despawned@) == pre.spec_dead_hover_tag(despawned@));
            assert(pre1.spec_hover_after_removal(despawned@) == pre.spec_hover_after_removal(
                despawned@,
            ));
        }

        let mut panels: Vec<Tooltip> = Vec::new();
        core::mem::swap(&mut panels, &mut self.panels);
        let ghost mid_panels = panels@;
        let full = self.config.interaction_wait_for_time;
        let n3 = panels.len();
        let mut i3: usize = 0;
        while i3 < n3
            invariant
                n3 == panels@.len(),
                n3 == mid_panels.len(),
                0 <= i3 <= n3,
                full == pre.config.interaction_wait_for_time,
                forall|j: int|
                    0 <= j < n3 ==> !(#[trigger] mid_panels[j]).spec_expired(delta, resting),
                forall|j: int|
                    0 <= j < i3 ==> panels@[j] == panel_tick_fn(delta, resting, full)(
                        mid_panels[j],
                    ),
                forall|j: int| i3 <= j < n3 ==> panels@[j] == mid_panels[j],
            decreases n3 - i3,
        {
            let is_resting = match resting {
                Option::Some(rid) => rid == panels[i3].id,
                Option::None => false,
            };
            match &panels[i3].wait_for_hover {
                Option::Some(w) => {
                    if is_resting {
                        let slot = vstd::std_specs::vec::vec_index_mut(&mut panels, i3);
                        slot.wait_for_hover = Some(TooltipWaitForHover { timer: full });
                    } else {
                        proof {
                            assert(!mid_panels[i3 as int].spec_expired(delta, resting));
                        }
                        let r = w.timer - delta;
                        let slot = vstd::std_specs::vec::vec_index_mut(&mut panels, i3);
                        slot.wait_for_hover = Some(TooltipWaitForHover { timer: r });
                    }
                },
                Option::None => {},
            }
            i3 = i3 + 1;
        }
        self.panels = panels;
        proof {
            assert(self.panels@ =~= mid_panels.map_values(panel_tick_fn(delta, resting, full)));
            assert forall|j: int|
                0 <= j < self.panels@.len() implies (#[trigger] self.panels@[j]).id
                == mid_panels[j].id && self.panels@[j].entity == mid_panels[j].entity
                && self.panels@[j].parent == mid_panels[j].parent && self.panels@[j].locked
                == mid_panels[j].locked && self.panels@[j].debounced == mid_panels[j].debounced
                && (self.panels@[j].wait_for_hover is Some) == (mid_panels[j].wait_for_hover
                is Some) by {
                assert(self.panels@[j] == panel_tick_fn(delta, resting, full)(mid_panels[j]));
            }
            lemma_tick_panels_wf(mid, *self, delta, resting, full);
        }
        TickOutcome { due, despawned }
    }
}

/// The panels surviving this tick's expiry removal are themselves not
/// expired: an expired panel is named in the expiry roots and condemned.
proof fn lemma_survivors_not_expired(
    pre_panels: Seq<Tooltip>,
    kept: Seq<Tooltip>,
    expired: Seq<u64>,
    delta: u64,
    resting: Option<u64>,
)
    requires
        seq_panel_ids_unique(pre_panels),
        expired == spec_expired_ids(pre_panels, delta, resting),
        kept == pre_panels.filter(keep_pred(pre_panels, expired)),
    ensures
        forall|a: int|
            0 <= a < kept.len() ==> !(#[trigger] kept[a]).spec_expired(delta, resting),
{
    crate::cascade::lemma_filter_subset(pre_panels, keep_pred(pre_panels, expired));
    assert forall|a: int|
        0 <= a < kept.len() implies !(#[trigger] kept[a]).spec_expired(delta, resting) by {
        pre_panels.lemma_filter_pred(keep_pred(pre_panels, expired), a);
        let t = kept[a];
        assert(!spec_condemned_id(pre_panels, t.id, expired));
        let w = choose|w: int| 0 <= w < pre_panels.len() && kept[a] == pre_panels[w];
        if t.spec_expired(delta, resting) {
            assert(expired_pred(delta, resting)(pre_panels[w]));
            pre_panels.lemma_filter_contains(expired_pred(delta, resting), w);
            let f = pre_panels.filter(expired_pred(delta, resting));
            let fa = choose|fa: int| 0 <= fa < f.len() && f[fa] == pre_panels[w];
            assert(expired[fa] == t.id);
            assert(expired.contains(t.id));
            crate::cascade::lemma_condemned_id_index(pre_panels, expired, w);
            assert(false);
        }
    }
}

/// Advancing the survivors' dismiss timers preserves well-formedness:
/// ids, sources, parents, locks and debounce flags are untouched, and a
/// timer stays present exactly where it was.
proof fn lemma_tick_panels_wf(
    mid: TooltipSystem,
    post: TooltipSystem,
    delta: u64,
    resting: Option<u64>,
    full: u64,
)
    requires
        mid.wf(),
        post.panels@ == mid.panels@.map_values(panel_tick_fn(delta, resting, full)),
        post.next_id == mid.next_id,
        post.map == mid.map,
        post.links == mid.links,
        post.highlight_links == mid.highlight_links,
        post.highlight_nodes == mid.highlight_nodes,
    ensures
        post.wf(),
{
    let mid_panels = mid.panels@;
    assert forall|j: int|
        0 <= j < post.panels@.len() implies (#[trigger] post.panels@[j]).id == mid_panels[j].id
        && post.panels@[j].entity == mid_panels[j].entity && post.panels@[j].parent
        == mid_panels[j].parent && post.panels@[j].locked == mid_panels[j].locked
        && post.panels@[j].debounced == mid_panels[j].debounced && (post.panels@[j].wait_for_hover
        is Some) == (mid_panels[j].wait_for_hover is Some) by {
        assert(post.panels@[j] == panel_tick_fn(delta, resting, full)(mid_panels[j]));
    }
    assert forall|a: int| #![trigger post.panels@[a].parent]
        0 <= a < post.panels@.len() implies match post.panels@[a].parent {
        Option::None => true,
        Option::Some(p) => exists|b: int| 0 <= b < a && post.panels@[b].id == p,
    } by {
        match mid_panels[a].parent {
            Option::None => {},
            Option::Some(p) => {
                let b = choose|b: int| 0 <= b < a && mid_panels[b].id == p;
                assert(post.panels@[b].id == p);
            },
        }
    }
    assert forall|i: int| #![trigger post.links@[i].spec_parent_panel()]
        0 <= i < post.links@.len() implies match post.links@[i].spec_parent_panel() {
        Option::None => true,
        Option::Some(p) => post.spec_panel_live(p),
    } by {
        match post.links@[i].spec_parent_panel() {
            Option::None => {},
            Option::Some(p) => {
                assert(mid.spec_panel_live(p));
                let b = choose|b: int| 0 <= b < mid_panels.len() && mid_panels[b].id == p;
                assert(post.panels@[b].id == p);
            },
        }
    }
}

/// Every link a spawn creates carries a fresh id in the panel's segment
/// range, points back to the new panel, and starts with no countdown.
proof fn lemma_spawned_links_ids(content: Seq<TooltipsContent>, nid: u64, j: int, a: int)
    requires
        j <= content.len(),
        nid + 4 + content.len() <= u64::MAX,
        0 <= a < spec_spawned_links(content, nid, j).len(),
    ensures
        ({
            let l = spec_spawned_links(content, nid, j)[a];
            &&& nid + 4 <= l.id < nid + 4 + j
            &&& l.spec_parent_panel() == Some(nid)
            &&& l.timer is None
        }),
    decreases j,
{
    let s = spec_spawned_links(content, nid, j);
    let prev = spec_spawned_links(content, nid, j - 1);
    if a < prev.len() {
        lemma_spawned_links_ids(content, nid, j - 1, a);
    }
}

/// The ids of the links a spawn creates are strictly increasing.
proof fn lemma_spawned_links_increasing(
    content: Seq<TooltipsContent>,
    nid: u64,
    j: int,
    a: int,
    b: int,
)
    requires
        j <= content.len(),
        nid + 4 + content.len() <= u64::MAX,
        0 <= a < b < spec_spawned_links(content, nid, j).len(),
    ensures
        spec_spawned_links(content, nid, j)[a].id < spec_spawned_links(content, nid, j)[b].id,
    decreases j,
{
    let s = spec_spawned_links(content, nid, j);
    let prev = spec_spawned_links(content, nid, j - 1);
    if b < prev.len() {
        lemma_spawned_links_increasing(content, nid, j - 1, a, b);
    } else {
        lemma_spawned_links_ids(content, nid, j - 1, a);
    }
}

/// Every highlight source a spawn creates carries a fresh id in the
/// panel's segment range and is owned by the new panel.
proof fn lemma_spawned_sources_ids(content: Seq<TooltipsContent>, nid: u64, j: int, a: int)
    requires
        j <= content.len(),
        nid + 4 + content.len() <= u64::MAX,
        0 <= a < spec_spawned_sources(content, nid, j).len(),
    ensures
        ({
            let src = spec_spawned_sources(content, nid, j)[a];
            &&& nid + 4 <= src.id < nid + 4 + j
            &&& src.owner == Some(nid)
        }),
    decreases j,
{
    let prev = spec_spawned_sources(content, nid, j - 1);
    if a < prev.len() {
        lemma_spawned_sources_ids(content, nid, j - 1, a);
    }
}

/// The ids of the highlight sources a spawn creates are strictly
/// increasing.
proof fn lemma_spawned_sources_increasing(
    content: Seq<TooltipsContent>,
    nid: u64,
    j: int,
    a: int,
    b: int,
)
    requires
        j <= content.len(),
        nid + 4 + content.len() <= u64::MAX,
        0 <= a < b < spec_spawned_sources(content, nid, j).len(),
    ensures
        spec_spawned_sources(content, nid, j)[a].id < spec_spawned_sources(content, nid, j)[b].id,
    decreases j,
{
    let prev = spec_spawned_sources(content, nid, j - 1);
    if b < prev.len() {
        lemma_spawned_sources_increasing(content, nid, j - 1, a, b);
    } else {
        lemma_spawned_sources_ids(content, nid, j - 1, a);
    }

}

} // verus!
