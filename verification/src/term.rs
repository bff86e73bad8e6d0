//! Terms are how tooltips find out what to display given a word to link:
//! link records tie an interactive span to a content key, and carry the
//! per-link activation countdown while the span is hovered.

use vstd::prelude::*;

verus! {

/// A root-level link: the host places one on a node or text span of its own
/// to make hovering or middle-clicking there open a tooltip panel.
#[derive(Debug)]
pub struct TooltipTermLink {
    pub linked_string: String,
}

impl TooltipTermLink {
    /// A link that resolves `linked_string` in the content map.
    pub fn new(linked_string: String) -> (r: TooltipTermLink)
        ensures
            r.linked_string == linked_string,
    {
        TooltipTermLink { linked_string }
    }

    /// The string used to look the term up.
    pub fn linked_string(&self) -> (r: &str)
        ensures
            r@ == self.linked_string@,
    {
        self.linked_string.as_str()
    }
}

/// A link rendered inside a panel's own content. Created by the panel
/// spawner, not by the host, but safe for the host to read.
#[derive(Debug)]
pub struct TooltipTermLinkRecursive {
    pub parent_entity: u64,
    pub linked_string: String,
}

impl TooltipTermLinkRecursive {
    /// A link that resolves `linked_string` and spawns its panel nested
    /// under the panel `parent_entity`.
    pub fn new(parent_entity: u64, linked_string: String) -> (r: TooltipTermLinkRecursive)
        ensures
            r.parent_entity == parent_entity,
            r.linked_string == linked_string,
    {
        TooltipTermLinkRecursive { parent_entity, linked_string }
    }

    /// The string used to look the term up.
    pub fn linked_string(&self) -> (r: &str)
        ensures
            r@ == self.linked_string@,
    {
        self.linked_string.as_str()
    }

    /// The panel that holds this link.
    pub fn parent_entity(&self) -> (r: u64)
        ensures
            r == self.parent_entity,
    {
        self.parent_entity
    }
}

/// The countdown placed on a link when hovering begins under the hover
/// activation policy. Unless the pointer leaves first, the link's panel
/// spawns when the remaining time runs out.
#[derive(Clone, Copy, Debug, PartialEq, Eq, Structural)]
pub struct TooltipLinkTimer {
    /// Remaining time in milliseconds.
    pub timer: u64,
}

/// What kind of link a live link record is.
#[derive(Debug)]
pub enum LinkKind {
    /// A host-owned, root-level link.
    Root(TooltipTermLink),
    /// A link rendered inside a panel.
    Nested(TooltipTermLinkRecursive),
}

/// A live link: an interactive span that can open a tooltip panel.
#[derive(Debug)]
pub struct LinkEntry {
    /// The span's identifier, shared with the scene node that renders it.
    pub id: u64,
    pub kind: LinkKind,
    /// The activation countdown, present only while the span is hovered
    /// under the hover policy and its panel has not spawned yet.
    pub timer: Option<TooltipLinkTimer>,
}

impl LinkEntry {
    /// The content key this link resolves.
    pub open spec fn spec_key(self) -> Seq<char> {
        match self.kind {
            LinkKind::Root(l) => l.linked_string@,
            LinkKind::Nested(l) => l.linked_string@,
        }
    }

    /// The panel this link sits in, if it is a nested link.
    pub open spec fn spec_parent_panel(self) -> Option<u64> {
        match self.kind {
            LinkKind::Root(_) => None,
            LinkKind::Nested(l) => Some(l.parent_entity),
        }
    }

    pub open spec fn is_nested(self) -> bool {
        self.kind is Nested
    }
}

} // verus!
