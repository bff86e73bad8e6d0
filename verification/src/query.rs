//! Convenience lookup of the entities that make up a single panel,
//! grouped by the part they play, for hosts that want to restyle
//! individual pieces of a panel.

use vstd::prelude::*;

use crate::layout::{TooltipPart, TooltipPartKind};
use crate::system::TooltipSystem;

verus! {

/// For a live panel, the descendant entities that make it up, grouped by
/// role.
#[derive(Debug)]
pub struct TooltipEntites {
    /// The node holding the title text; a panel has exactly one.
    pub title_node: u64,
    /// The title text itself; a panel has exactly one.
    pub title_text: u64,
    /// The node holding the combined non-title text; a panel has exactly
    /// one.
    pub tooltip_text_node: u64,
    /// All plain text spans with no effects, in render order.
    pub string_texts: Vec<u64>,
    /// All spans that link to another tooltip, in render order.
    pub term_texts: Vec<u64>,
    /// All spans that highlight nodes, in render order.
    pub highlight_texts: Vec<u64>,
}

/// Selects the title container part.
pub open spec fn title_node_pred() -> spec_fn(TooltipPartKind) -> bool {
    |k: TooltipPartKind| k is TitleNode
}

/// Selects the title text part.
pub open spec fn title_text_pred() -> spec_fn(TooltipPartKind) -> bool {
    |k: TooltipPartKind| k is TitleText
}

/// Selects the body container part.
pub open spec fn text_node_pred() -> spec_fn(TooltipPartKind) -> bool {
    |k: TooltipPartKind| k is TextNode
}

/// Selects the plain text spans.
pub open spec fn string_text_pred() -> spec_fn(TooltipPartKind) -> bool {
    |k: TooltipPartKind| k is StringText
}

/// Selects the spans linking to another tooltip.
pub open spec fn term_text_pred() -> spec_fn(TooltipPartKind) -> bool {
    |k: TooltipPartKind| k is TermText
}

/// Selects the highlighting spans.
pub open spec fn highlight_text_pred() -> spec_fn(TooltipPartKind) -> bool {
    |k: TooltipPartKind| k is HighlightText
}

/// The id of the first part whose kind the predicate selects.
pub open spec fn spec_first_part(parts: Seq<TooltipPart>, p: spec_fn(TooltipPartKind) -> bool) -> Option<u64>
    decreases parts.len(),
{
    if parts.len() == 0 {
        None
    } else if p(parts[0].kind) {
        Some(parts[0].id)
    } else {
        spec_first_part(parts.drop_first(), p)
    }
}

/// The ids of every part whose kind the predicate selects, in render
/// order.
pub open spec fn spec_part_ids(parts: Seq<TooltipPart>, p: spec_fn(TooltipPartKind) -> bool) -> Seq<u64>
    decreases parts.len(),
{
    if parts.len() == 0 {
        Seq::empty()
    } else {
        let rest = spec_part_ids(parts.drop_first(), p);
        if p(parts[0].kind) {
            seq![parts[0].id] + rest
        } else {
            rest
        }
    }
}

impl TooltipSystem {
    /// For a live panel's id, gathers the child entities per role into a
    /// [`TooltipEntites`]. `None` for a stale id, or for a panel missing
    /// one of its three singleton parts.
    pub fn tooltip_child_entities(&self, entity: u64) -> (r: Option<TooltipEntites>)
        requires
            self.wf(),
        ensures
            ({
                let live = self.spec_panel_live(entity);
                let parts = self.spec_panel(entity).parts@;
                match r {
                    Option::None => !live || spec_first_part(parts, title_node_pred()) is None
                        || spec_first_part(parts, title_text_pred()) is None || spec_first_part(
                        parts,
                        text_node_pred(),
                    ) is None,
                    Option::Some(e) => live && {
                        &&& Some(e.title_node) == spec_first_part(parts, title_node_pred())
                        &&& Some(e.title_text) == spec_first_part(parts, title_text_pred())
                        &&& Some(e.tooltip_text_node) == spec_first_part(parts, text_node_pred())
                        &&& e.string_texts@ == spec_part_ids(parts, string_text_pred())
                        &&& e.term_texts@ == spec_part_ids(parts, term_text_pred())
                        &&& e.highlight_texts@ == spec_part_ids(parts, highlight_text_pred())
                    },
                }
            }),
    {
        let pi = match self.find_panel(entity) {
            Option::None => {
                return None;
            },
            Option::Some(pi) => pi,
        };
        let parts: &Vec<TooltipPart> = &self.panels[pi].parts;
        let mut title_node: Option<u64> = None;
        let mut title_text: Option<u64> = None;
        let mut text_node: Option<u64> = None;
        let mut string_texts: Vec<u64> = Vec::new();
        let mut term_texts: Vec<u64> = Vec::new();
        let mut highlight_texts: Vec<u64> = Vec::new();
        let n = parts.len();
        let mut i: usize = 0;
        proof {
            assert(parts@.skip(0) =~= parts@);
        }
        while i < n
            invariant
                n == parts@.len(),
                0 <= i <= n,
                ({
                    let done = parts@.take(i as int);
                    let todo = parts@.skip(i as int);
                    &&& title_node == spec_first_part(done, title_node_pred())
                    &&& title_text == spec_first_part(done, title_text_pred())
                    &&& text_node == spec_first_part(done, text_node_pred())
                    &&& spec_first_part(parts@, title_node_pred()) == (match title_node {
                        Option::Some(v) => Some(v),
                        Option::None => spec_first_part(todo, title_node_pred()),
                    })
                    &&& spec_first_part(parts@, title_text_pred()) == (match title_text {
                        Option::Some(v) => Some(v),
                        Option::None => spec_first_part(todo, title_text_pred()),
                    })
                    &&& spec_first_part(parts@, text_node_pred()) == (match text_node {
                        Option::Some(v) => Some(v),
                        Option::None => spec_first_part(todo, text_node_pred()),
                    })
                    &&& spec_part_ids(parts@, string_text_pred()) == string_texts@ + spec_part_ids(
                        todo,
                        string_text_pred(),
                    )
                    &&& spec_part_ids(parts@, term_text_pred()) == term_texts@ + spec_part_ids(
                        todo,
                        term_text_pred(),
                    )
                    &&& spec_part_ids(parts@, highlight_text_pred()) == highlight_texts@
                        + spec_part_ids(todo, highlight_text_pred())
                }),
            decreases n - i,
        {
            proof {
                assert(parts@.skip(i as int)[0] == parts@[i as int]);
                assert(parts@.skip(i as int).drop_first() =~= parts@.skip(i + 1));
                assert(parts@.take(i + 1) =~= parts@.take(i as int).push(parts@[i as int]));
                lemma_first_part_take_push(parts@, i as int, title_node_pred());
                lemma_first_part_take_push(parts@, i as int, title_text_pred());
                lemma_first_part_take_push(parts@, i as int, text_node_pred());
            }
            let ghost st_pre = string_texts@;
            let ghost tm_pre = term_texts@;
            let ghost hl_pre = highlight_texts@;
            match &parts[i].kind {
                TooltipPartKind::TitleNode => {
                    if title_node.is_none() {
                        title_node = Some(parts[i].id);
                    }
                },
                TooltipPartKind::TitleText(_) => {
                    if title_text.is_none() {
                        title_text = Some(parts[i].id);
                    }
                },
                TooltipPartKind::TextNode => {
                    if text_node.is_none() {
                        text_node = Some(parts[i].id);
                    }
                },
                TooltipPartKind::StringText(_) => {
                    string_texts.push(parts[i].id);
                },
                TooltipPartKind::TermText(_) => {
                    term_texts.push(parts[i].id);
                },
                TooltipPartKind::HighlightText(_) => {
                    highlight_texts.push(parts[i].id);
                },
            }
            proof {
                let cur = parts@[i as int];
                let todo2 = parts@.skip(i + 1);
                if cur.kind is StringText {
                    assert(string_texts@ =~= st_pre + seq![cur.id]);
                    assert((st_pre + seq![cur.id]) + spec_part_ids(todo2, string_text_pred())
                        =~= st_pre + (seq![cur.id] + spec_part_ids(todo2, string_text_pred())));
                }
                if cur.kind is TermText {
                    assert(term_texts@ =~= tm_pre + seq![cur.id]);
                    assert((tm_pre + seq![cur.id]) + spec_part_ids(todo2, term_text_pred())
                        =~= tm_pre + (seq![cur.id] + spec_part_ids(todo2, term_text_pred())));
                }
                if cur.kind is HighlightText {
                    assert(highlight_texts@ =~= hl_pre + seq![cur.id]);
                    assert((hl_pre + seq![cur.id]) + spec_part_ids(todo2, highlight_text_pred())
                        =~= hl_pre + (seq![cur.id] + spec_part_ids(todo2, highlight_text_pred())));
                }
            }
            i = i + 1;
        }
        proof {
            assert(parts@.skip(n as int).len() == 0);
            assert(parts@.take(n as int) =~= parts@);
        }
        let tn = match title_node {
            Option::Some(v) => v,
            Option::None => {
                return None;
            },
        };
        let tt = match title_text {
            Option::Some(v) => v,
            Option::None => {
                return None;
            },
        };
        let xn = match text_node {
            Option::Some(v) => v,
            Option::None => {
                return None;
            },
        };
        Some(
            TooltipEntites {
                title_node: tn,
                title_text: tt,
                tooltip_text_node: xn,
                string_texts,
                term_texts,
                highlight_texts,
            },
        )
    }
}

/// Scanning one more part: the first match among the first `i + 1` parts
/// is the earlier match if there was one, else the new part if it
/// matches.
proof fn lemma_first_part_take_push(
    parts: Seq<TooltipPart>,
    i: int,
    p: spec_fn(TooltipPartKind) -> bool,
)
    requires
        0 <= i < parts.len(),
    ensures
        spec_first_part(parts.take(i + 1), p) == (match spec_first_part(parts.take(i), p) {
            Option::Some(v) => Some(v),
            Option::None => if p(parts[i].kind) {
                Some(parts[i].id)
            } else {
                None
            },
        }),
    decreases i,
{
    assert(parts.take(i + 1).len() == i + 1);
    assert(parts.take(i + 1)[0] == parts[0]);
    if i > 0 {
        assert(parts.take(i).len() == i);
        assert(parts.take(i)[0] == parts[0]);
        assert(parts.take(i + 1).drop_first() =~= parts.skip(1).take(i));
        assert(parts.take(i).drop_first() =~= parts.skip(1).take(i - 1));
        lemma_first_part_take_push(parts.skip(1), i - 1, p);
        assert(parts.skip(1)[i - 1] == parts[i]);
        assert(spec_first_part(parts.take(i + 1), p) == (if p(parts[0].kind) {
            Some(parts[0].id)
        } else {
            spec_first_part(parts.skip(1).take(i), p)
        }));
        assert(spec_first_part(parts.take(i), p) == (if p(parts[0].kind) {
            Some(parts[0].id)
        } else {
            spec_first_part(parts.skip(1).take(i - 1), p)
        }));
    } else {
        assert(parts.take(0).len() == 0);
        assert(parts.take(1).drop_first().len() == 0);
    }
}

} // verus!
