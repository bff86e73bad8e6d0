//! The parts a spawned panel is built from, and markers naming each part's
//! role. The host mirrors every [`TooltipPart`] as a scene node and can use
//! the role markers to restyle individual parts when it observes a
//! [`crate::events::TooltipSpawned`] notification.

use vstd::prelude::*;

verus! {

/// Marker for the node that holds a panel's title line.
#[derive(Clone, Copy, Debug, PartialEq, Eq, Structural)]
pub struct TooltipTitleNode;

/// Marker for the title text itself, placed inside the title node.
#[derive(Clone, Copy, Debug, PartialEq, Eq, Structural)]
pub struct TooltipTitleText;

/// Marker for the node that holds all of a panel's non-title text.
#[derive(Clone, Copy, Debug, PartialEq, Eq, Structural)]
pub struct TooltipTextNode;

/// Marker for a panel text span with no behaviour of its own.
#[derive(Clone, Copy, Debug, PartialEq, Eq, Structural)]
pub struct TooltipStringText;

/// The role one rendered part of a panel plays, with the text it shows
/// where it shows any.
#[derive(Debug)]
pub enum TooltipPartKind {
    /// The container of the title line; see [`TooltipTitleNode`].
    TitleNode,
    /// The title text; see [`TooltipTitleText`].
    TitleText(String),
    /// The container of the body text; see [`TooltipTextNode`].
    TextNode,
    /// A plain body span; see [`TooltipStringText`].
    StringText(String),
    /// A body span that links to the named content key and can open a
    /// nested panel; a matching link record exists under the same id.
    TermText(String),
    /// A body span that highlights targets carrying the named tag; a
    /// matching highlight link record exists under the same id.
    HighlightText(String),
}

impl TooltipPartKind {
    pub open spec fn is_string_text(self) -> bool {
        self is StringText
    }

    pub open spec fn is_term_text(self) -> bool {
        self is TermText
    }

    pub open spec fn is_highlight_text(self) -> bool {
        self is HighlightText
    }
}

/// One rendered part of a panel: a scene node the host creates when the
/// panel spawns and destroys when it despawns.
#[derive(Debug)]
pub struct TooltipPart {
    pub id: u64,
    pub kind: TooltipPartKind,
}

} // verus!
