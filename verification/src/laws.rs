//! The library's standing guarantees, stated on their own so a reader
//! need not reassemble them from the operation contracts.

use vstd::prelude::*;

use crate::system::{expired_pred, link_due_pred, link_id_fn, spec_expired_ids, TooltipSystem};

verus! {

/// At most one panel per link: in every well-formed state, no two live
/// panels share the same source link. Spawning checks for an open panel
/// first, so re-entrant activations of one link never stack panels.
pub proof fn lemma_at_most_one_panel_per_link(s: TooltipSystem)
    requires
        s.wf(),
    ensures
        forall|i: int, j: int|
            0 <= i < j < s.panels@.len() ==> s.panels@[i].entity != s.panels@[j].entity,
{
}

/// Root exclusivity, standing form: in every well-formed state at most
/// one live panel is a root panel. Together with the spawn contract --
/// activating a root link leaves exactly the one new panel live -- a root
/// activation always results in exactly one live root panel.
pub proof fn lemma_single_root(s: TooltipSystem)
    requires
        s.wf(),
    ensures
        forall|i: int, j: int|
            0 <= i < s.panels@.len() && 0 <= j < s.panels@.len() && s.panels@[i].parent is None
                && s.panels@[j].parent is None ==> i == j,
{
}

/// Debounce idempotence: once a panel is debounced its dismiss timer is
/// gone for good, so no tick can expire it, for any elapsed time and any
/// pointer rest. Pointer motion inside the panel only ever sets the flag;
/// after debounce, only hover-exit of the whole panel or a cascade from
/// an ancestor removes it.
pub proof fn lemma_debounce_idempotence(s: TooltipSystem, id: u64, delta: u64, resting: Option<
    u64,
>)
    requires
        s.wf(),
        s.spec_panel_live(id),
        s.spec_panel(id).debounced,
    ensures
        !s.spec_panel(id).spec_expired(delta, resting),
        !spec_expired_ids(s.panels@, delta, resting).contains(id),
{
    let panels = s.panels@;
    let w = s.spec_panel_index(id);
    assert(panels[w].wait_for_hover is None);
    if spec_expired_ids(panels, delta, resting).contains(id) {
        let f = panels.filter(expired_pred(delta, resting));
        let ids = spec_expired_ids(panels, delta, resting);
        let a = choose|a: int| 0 <= a < ids.len() && ids[a] == id;
        assert(f[a].id == id);
        crate::cascade::lemma_filter_subset(panels, expired_pred(delta, resting));
        let j = choose|j: int| 0 <= j < panels.len() && f[a] == panels[j];
        assert(j == w);
        panels.lemma_filter_pred(expired_pred(delta, resting), a);
        assert(false);
    }
}

/// Timer cancellation: a link whose activation countdown is gone -- as
/// hover-exit, a policy switch, or its own firing leaves it -- is never
/// due on the next tick, however much time elapses. Cancelling hover
/// before a hover-policy countdown runs out therefore never activates
/// the link.
pub proof fn lemma_timer_cancellation(s: TooltipSystem, id: u64, delta: u64)
    requires
        s.wf(),
        s.spec_link_live(id),
        s.spec_link(id).timer is None,
    ensures
        !s.links@.filter(link_due_pred(delta)).map_values(link_id_fn()).contains(id),
{
    let links = s.links@;
    let w = s.spec_link_index(id);
    if links.filter(link_due_pred(delta)).map_values(link_id_fn()).contains(id) {
        let f = links.filter(link_due_pred(delta));
        let ids = f.map_values(link_id_fn());
        let a = choose|a: int| 0 <= a < ids.len() && ids[a] == id;
        assert(f[a].id == id);
        crate::cascade::lemma_filter_subset(links, link_due_pred(delta));
        let j = choose|j: int| 0 <= j < links.len() && f[a] == links[j];
        assert(j == w);
        links.lemma_filter_pred(link_due_pred(delta), a);
        assert(false);
    }
}

} // verus!
