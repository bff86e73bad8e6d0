//! Highlighting: hovering a highlight-tagged span marks every scene node
//! registered as a target of the same tag, and unmarks them on hover-exit.
//! What a highlight looks like is up to the host; this module only keeps
//! the marks exact.

use vstd::prelude::*;

verus! {

/// The tag on a hovering span (the source side of a highlight). While the
/// span is hovered, every [`TooltipHighlight`] target sharing the string is
/// marked as highlighted.
#[derive(Debug)]
pub struct TooltipHighlightLink(pub String);

/// The tag on a host scene node (the target side of a highlight). When a
/// [`TooltipHighlightLink`] with the same string is hovered, this node is
/// marked as highlighted.
#[derive(Debug)]
pub struct TooltipHighlight(pub String);

/// A live highlight source: a span whose hover drives highlighting.
#[derive(Debug)]
pub struct HighlightSourceEntry {
    /// The span's identifier, shared with the scene node that renders it.
    pub id: u64,
    pub link: TooltipHighlightLink,
    /// The panel whose content renders this span, or `None` for a source
    /// the host registered on a node of its own.
    pub owner: Option<u64>,
}

/// A live highlight target: a host node that lights up when its tag is
/// hovered. While `highlighting` holds, the host should show the
/// [`crate::events::TooltipHighlighting`] styling on the node.
#[derive(Debug)]
pub struct HighlightTargetEntry {
    pub id: u64,
    pub highlight: TooltipHighlight,
    pub highlighting: bool,
}

/// The targets after a hover-enter of tag `tag`: every target sharing the
/// tag is marked, every other target keeps its mark.
pub open spec fn marks_after_enter(
    targets: Seq<HighlightTargetEntry>,
    tag: Seq<char>,
) -> Seq<HighlightTargetEntry> {
    targets.map(
        |i: int, t: HighlightTargetEntry|
            HighlightTargetEntry {
                highlighting: t.highlighting || t.highlight.0@ == tag,
                ..t
            },
    )
}

/// The targets after a hover-exit of tag `tag`: every target sharing the
/// tag is unmarked, every other target keeps its mark.
pub open spec fn marks_after_exit(
    targets: Seq<HighlightTargetEntry>,
    tag: Seq<char>,
) -> Seq<HighlightTargetEntry> {
    targets.map(
        |i: int, t: HighlightTargetEntry|
            HighlightTargetEntry {
                highlighting: t.highlighting && t.highlight.0@ != tag,
                ..t
            },
    )
}

/// Highlight symmetry: entering tag `tag` marks all and only the targets
/// carrying that tag, on top of whatever was marked before; leaving it
/// again restores exactly the prior marks, so marks on unrelated tags are
/// never touched, and no mark leaks once the tag's marks were clear before
/// the hover.
pub proof fn lemma_highlight_symmetry(targets: Seq<HighlightTargetEntry>, tag: Seq<char>)
    requires
        forall|i: int|
            0 <= i < targets.len() && targets[i].highlight.0@ == tag ==> !targets[i].highlighting,
    ensures
        forall|i: int|
            0 <= i < targets.len() ==> #[trigger] marks_after_enter(targets, tag)[i].highlighting
                == (targets[i].highlighting || targets[i].highlight.0@ == tag),
        marks_after_exit(marks_after_enter(targets, tag), tag) =~= targets,
{
    let entered = marks_after_enter(targets, tag);
    let back = marks_after_exit(entered, tag);
    assert forall|i: int| 0 <= i < targets.len() implies back[i] == targets[i] by {
        assert(entered[i].highlighting == (targets[i].highlighting || targets[i].highlight.0@
            == tag));
        assert(back[i].highlighting == (entered[i].highlighting && entered[i].highlight.0@ != tag));
    }
}

} // verus!
