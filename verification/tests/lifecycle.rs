use nested_tooltips::content::{ContentEntry, TooltipsContent};
use nested_tooltips::system::{ActivationMethod, SpawnOutcome, TooltipSystem};
use nested_tooltips::term::LinkKind;

const W: (u32, u32) = (800, 600);
const PTR: Option<(u32, u32)> = Some((100, 100));

fn entry_of(title: &str, segments: Vec<TooltipsContent>) -> ContentEntry {
    ContentEntry { title: title.to_string(), content: segments }
}

/// A system holding one root link whose key resolves to plain text.
fn system_with_link(key: &str) -> (TooltipSystem, u64) {
    let mut sys = TooltipSystem::new();
    sys.insert_content(
        key.to_string(),
        entry_of("Title", vec![TooltipsContent::String("body".to_string())]),
    );
    let link = sys.register_link(key.to_string()).expect("fresh ids available");
    (sys, link)
}

fn spawned(out: SpawnOutcome) -> (u64, Vec<u64>) {
    match out {
        SpawnOutcome::Spawned { panel, despawned } => (panel, despawned),
        other => panic!("expected a spawn, got {:?}", other),
    }
}

#[test]
fn spawn_creates_one_panel_with_timer_and_parts() {
    let (mut sys, link) = system_with_link("k");
    let (panel, despawned) = spawned(sys.spawn_tooltip(link, PTR, W));
    assert!(despawned.is_empty());
    assert_eq!(sys.panels.len(), 1);
    let t = &sys.panels[0];
    assert_eq!(t.id, panel);
    assert_eq!(t.entity(), link);
    assert_eq!(t.parent, None);
    assert!(!t.locked);
    assert!(!t.debounced);
    assert_eq!(t.wait_for_hover.map(|w| w.timer), Some(500));
    assert_eq!(t.title, "Title");
    // title node, title text, text node, one segment
    assert_eq!(t.parts.len(), 4);
    assert_eq!(t.parts[0].id, panel + 1);
    assert_eq!(t.parts[3].id, panel + 4);
}

#[test]
fn spawn_is_idempotent_per_link() {
    let (mut sys, link) = system_with_link("k");
    spawned(sys.spawn_tooltip(link, PTR, W));
    assert!(matches!(sys.spawn_tooltip(link, PTR, W), SpawnOutcome::AlreadyOpen));
    assert_eq!(sys.panels.len(), 1);
}

#[test]
fn spawn_on_stale_id_is_a_no_op() {
    let (mut sys, link) = system_with_link("k");
    assert!(matches!(sys.spawn_tooltip(link + 77, PTR, W), SpawnOutcome::StaleLink));
    assert!(sys.panels.is_empty());
}

#[test]
fn spawn_with_missing_key_reports_and_does_nothing() {
    let mut sys = TooltipSystem::new();
    let link = sys.register_link("absent".to_string()).unwrap();
    assert!(matches!(sys.spawn_tooltip(link, PTR, W), SpawnOutcome::MissingContent));
    assert!(sys.panels.is_empty());
}

#[test]
fn spawn_without_id_headroom_reports_out_of_ids() {
    let (mut sys, link) = system_with_link("k");
    sys.next_id = u64::MAX - 3;
    assert!(matches!(sys.spawn_tooltip(link, PTR, W), SpawnOutcome::OutOfIds));
    assert!(sys.panels.is_empty());
}

#[test]
fn root_spawn_displaces_every_live_panel() {
    let (mut sys, link_a) = system_with_link("k");
    sys.insert_content(
        "other".to_string(),
        entry_of("Other", vec![TooltipsContent::String("text".to_string())]),
    );
    let link_b = sys.register_link("other".to_string()).unwrap();
    let (panel_a, _) = spawned(sys.spawn_tooltip(link_a, PTR, W));
    let (panel_b, despawned) = spawned(sys.spawn_tooltip(link_b, PTR, W));
    assert_eq!(despawned, vec![panel_a]);
    assert_eq!(sys.panels.len(), 1);
    assert_eq!(sys.panels[0].id, panel_b);
    assert_eq!(sys.panels[0].parent, None);
}

/// A root panel with a term segment, its nested panel, and that panel's
/// own nested panel: a three-deep chain.
fn chain_of_three() -> (TooltipSystem, u64, u64, u64) {
    let mut sys = TooltipSystem::new();
    sys.insert_content(
        "a".to_string(),
        entry_of("A", vec![TooltipsContent::Term("b".to_string())]),
    );
    sys.insert_content(
        "b".to_string(),
        entry_of("B", vec![TooltipsContent::Term("c".to_string())]),
    );
    sys.insert_content(
        "c".to_string(),
        entry_of("C", vec![TooltipsContent::String("leaf".to_string())]),
    );
    let root_link = sys.register_link("a".to_string()).unwrap();
    let (p1, _) = spawned(sys.spawn_tooltip(root_link, PTR, W));
    let nested_link_1 = sys.links[1].id;
    let (p2, d2) = spawned(sys.spawn_tooltip(nested_link_1, PTR, W));
    assert!(d2.is_empty());
    let nested_link_2 = sys.links[2].id;
    let (p3, d3) = spawned(sys.spawn_tooltip(nested_link_2, PTR, W));
    assert!(d3.is_empty());
    assert_eq!(sys.panels.len(), 3);
    assert_eq!(sys.panels[1].parent, Some(p1));
    assert_eq!(sys.panels[2].parent, Some(p2));
    (sys, p1, p2, p3)
}

#[test]
fn nested_panels_stack_upward() {
    let (sys, _, _, _) = chain_of_three();
    assert_eq!(sys.panels[0].z_index, 3);
    assert_eq!(sys.panels[1].z_index, 3 + 1);
    assert_eq!(sys.panels[2].z_index, 3 + 2);
}

#[test]
fn cascade_destroys_exactly_the_subtree() {
    let (mut sys, p1, p2, p3) = chain_of_three();
    // destroying the middle panel takes its one descendant with it: N + 1 = 2
    let removed = sys.despawn_panel(p2);
    assert_eq!(removed, vec![p2, p3]);
    assert_eq!(sys.panels.len(), 1);
    assert_eq!(sys.panels[0].id, p1);
    // the nested links rendered by the removed panels are gone too
    assert_eq!(sys.links.len(), 2);
}

#[test]
fn cascade_from_the_root_destroys_all() {
    let (mut sys, p1, p2, p3) = chain_of_three();
    let removed = sys.despawn_panel(p1);
    assert_eq!(removed, vec![p1, p2, p3]);
    assert!(sys.panels.is_empty());
    // only the host's own root link survives
    assert_eq!(sys.links.len(), 1);
}

#[test]
fn despawn_of_a_stale_panel_is_a_no_op() {
    let (mut sys, _, _, _) = chain_of_three();
    let removed = sys.despawn_panel(424242);
    assert!(removed.is_empty());
    assert_eq!(sys.panels.len(), 3);
}

#[test]
fn hover_timer_counts_down_and_fires_once() {
    let (mut sys, link) = system_with_link("k");
    sys.hover_time_spawn(link);
    assert_eq!(sys.links[0].timer.map(|t| t.timer), Some(900));
    let out = sys.tick_timers(400, None);
    assert!(out.due.is_empty());
    assert_eq!(sys.links[0].timer.map(|t| t.timer), Some(500));
    let out = sys.tick_timers(500, None);
    assert_eq!(out.due, vec![link]);
    assert_eq!(sys.links[0].timer, None);
    let out = sys.tick_timers(1000, None);
    assert!(out.due.is_empty());
}

#[test]
fn hover_exit_cancels_the_countdown() {
    let (mut sys, link) = system_with_link("k");
    sys.hover_time_spawn(link);
    sys.hover_cancel_spawn(link);
    assert_eq!(sys.links[0].timer, None);
    let out = sys.tick_timers(10_000, None);
    assert!(out.due.is_empty());
    assert!(sys.panels.is_empty());
}

#[test]
fn middle_mouse_policy_starts_no_countdown() {
    let (mut sys, link) = system_with_link("k");
    sys.set_activation_method(ActivationMethod::MiddleMouse);
    sys.hover_time_spawn(link);
    assert_eq!(sys.links[0].timer, None);
}

#[test]
fn middle_press_spawns_only_under_middle_mouse_policy() {
    let (mut sys, link) = system_with_link("k");
    assert!(sys.middle_mouse_spawn(link, PTR, W).is_none());
    assert!(sys.panels.is_empty());
    sys.set_activation_method(ActivationMethod::MiddleMouse);
    let out = sys.middle_mouse_spawn(link, PTR, W).expect("press consumed");
    spawned(out);
    assert_eq!(sys.panels.len(), 1);
}

#[test]
fn dismiss_timer_expires_without_interaction() {
    let (mut sys, link) = system_with_link("k");
    let (panel, _) = spawned(sys.spawn_tooltip(link, PTR, W));
    let out = sys.tick_timers(499, None);
    assert!(out.despawned.is_empty());
    let out = sys.tick_timers(1, None);
    assert_eq!(out.despawned, vec![panel]);
    assert!(sys.panels.is_empty());
}

#[test]
fn resting_in_the_panel_resets_the_dismiss_timer() {
    let (mut sys, link) = system_with_link("k");
    let (panel, _) = spawned(sys.spawn_tooltip(link, PTR, W));
    sys.tick_timers(499, None);
    let out = sys.tick_timers(10_000, Some(panel));
    assert!(out.despawned.is_empty());
    assert_eq!(sys.panels[0].wait_for_hover.map(|w| w.timer), Some(500));
}

#[test]
fn debounce_cancels_the_dismiss_timer_for_good() {
    let (mut sys, link) = system_with_link("k");
    let (panel, _) = spawned(sys.spawn_tooltip(link, PTR, W));
    assert!(!sys.hover_debounce(panel, Some((481, 0))));
    assert!(!sys.panels[0].debounced);
    assert!(sys.hover_debounce(panel, Some((100, -200))));
    assert!(sys.panels[0].debounced);
    assert_eq!(sys.panels[0].wait_for_hover, None);
    // repeated motion near the border changes nothing and dismisses nothing
    assert!(!sys.hover_debounce(panel, Some((499, 499))));
    assert!(!sys.hover_debounce(panel, None));
    assert!(sys.panels[0].debounced);
    let out = sys.tick_timers(100_000, None);
    assert!(out.despawned.is_empty());
    assert_eq!(sys.panels.len(), 1);
}

#[test]
fn hover_despawn_needs_a_settled_unlocked_leaf() {
    let (mut sys, link) = system_with_link("k");
    let (panel, _) = spawned(sys.spawn_tooltip(link, PTR, W));
    // not yet debounced: leaving does nothing
    assert!(sys.hover_despawn(panel, false).is_empty());
    sys.hover_debounce(panel, Some((0, 0)));
    // pointer still over it: nothing
    assert!(sys.hover_despawn(panel, true).is_empty());
    // locked: nothing
    sys.lock_tooltip(panel);
    assert!(sys.hover_despawn(panel, false).is_empty());
    sys.lock_tooltip(panel);
    // settled, unlocked, pointer away: the panel goes
    assert_eq!(sys.hover_despawn(panel, false), vec![panel]);
    assert!(sys.panels.is_empty());
}

#[test]
fn hover_despawn_spares_panels_with_nested_children() {
    let (mut sys, p1, p2, p3) = chain_of_three();
    sys.hover_debounce(p1, Some((0, 0)));
    assert!(sys.hover_despawn(p1, false).is_empty());
    assert_eq!(sys.panels.len(), 3);
    // the leaf panel has no children and can go once settled
    sys.hover_debounce(p3, Some((0, 0)));
    assert_eq!(sys.hover_despawn(p3, false), vec![p3]);
    assert_eq!(sys.panels.len(), 2);
    let _ = p2;
}

#[test]
fn lock_toggles_and_reports_the_new_state() {
    let (mut sys, link) = system_with_link("k");
    let (panel, _) = spawned(sys.spawn_tooltip(link, PTR, W));
    assert_eq!(sys.lock_tooltip(panel), Some(true));
    assert!(sys.panels[0].locked);
    assert_eq!(sys.panels[0].wait_for_hover, None);
    assert_eq!(sys.lock_tooltip(panel), Some(false));
    assert!(!sys.panels[0].locked);
    assert_eq!(sys.panels[0].wait_for_hover.map(|w| w.timer), Some(500));
    assert_eq!(sys.lock_tooltip(987654), None);
}

#[test]
fn highlight_marks_all_and_only_the_tag() {
    let mut sys = TooltipSystem::new();
    let red_1 = sys.register_highlight_target("red".to_string()).unwrap();
    let blue = sys.register_highlight_target("blue".to_string()).unwrap();
    let red_2 = sys.register_highlight_target("red".to_string()).unwrap();
    let source = sys.register_highlight_link("red".to_string()).unwrap();
    assert!(sys.highlight_activate(source));
    let marks: Vec<(u64, bool)> =
        sys.highlight_nodes.iter().map(|t| (t.id, t.highlighting)).collect();
    assert_eq!(marks, vec![(red_1, true), (blue, false), (red_2, true)]);
    assert!(sys.highlight_deactivate(source));
    assert!(sys.highlight_nodes.iter().all(|t| !t.highlighting));
    // stale source ids change nothing
    assert!(!sys.highlight_activate(31337));
}

#[test]
fn highlight_exit_leaves_other_tags_alone() {
    let mut sys = TooltipSystem::new();
    let _red = sys.register_highlight_target("red".to_string()).unwrap();
    let _blue = sys.register_highlight_target("blue".to_string()).unwrap();
    let red_src = sys.register_highlight_link("red".to_string()).unwrap();
    let blue_src = sys.register_highlight_link("blue".to_string()).unwrap();
    sys.highlight_activate(red_src);
    sys.highlight_activate(blue_src);
    sys.highlight_deactivate(red_src);
    let marks: Vec<bool> = sys.highlight_nodes.iter().map(|t| t.highlighting).collect();
    assert_eq!(marks, vec![false, true]);
}

#[test]
fn registration_runs_out_with_the_id_space() {
    let mut sys = TooltipSystem::new();
    sys.next_id = u64::MAX;
    assert_eq!(sys.register_link("k".to_string()), None);
    assert_eq!(sys.register_highlight_target("t".to_string()), None);
    assert_eq!(sys.register_highlight_link("t".to_string()), None);
}

#[test]
fn removing_a_link_purges_its_countdown() {
    let (mut sys, link) = system_with_link("k");
    sys.hover_time_spawn(link);
    assert!(sys.remove_link(link));
    assert!(sys.links.is_empty());
    assert!(!sys.remove_link(link));
    let out = sys.tick_timers(10_000, None);
    assert!(out.due.is_empty());
}

#[test]
fn removing_a_highlight_target_forgets_it() {
    let mut sys = TooltipSystem::new();
    let t = sys.register_highlight_target("red".to_string()).unwrap();
    assert!(sys.remove_highlight_target(t));
    assert!(sys.highlight_nodes.is_empty());
    assert!(!sys.remove_highlight_target(t));
}

#[test]
fn spawned_panel_renders_each_segment_kind() {
    let mut sys = TooltipSystem::new();
    sys.insert_content(
        "k".to_string(),
        entry_of(
            "Title",
            vec![
                TooltipsContent::String("plain".to_string()),
                TooltipsContent::Term("child".to_string()),
                TooltipsContent::Highlight("red".to_string()),
            ],
        ),
    );
    let link = sys.register_link("k".to_string()).unwrap();
    let (panel, _) = spawned(sys.spawn_tooltip(link, PTR, W));
    assert_eq!(sys.panels[0].parts.len(), 6);
    // the term segment doubles as a live nested link under the same id
    assert_eq!(sys.links.len(), 2);
    match &sys.links[1].kind {
        LinkKind::Nested(r) => {
            assert_eq!(r.linked_string(), "child");
            assert_eq!(r.parent_entity(), panel);
        }
        other => panic!("expected a nested link, got {:?}", other),
    }
    assert_eq!(sys.links[1].id, sys.panels[0].parts[4].id);
    // the highlight segment doubles as a highlight source owned by the panel
    assert_eq!(sys.highlight_links.len(), 1);
    assert_eq!(sys.highlight_links[0].link.0, "red");
    assert_eq!(sys.highlight_links[0].owner, Some(panel));
    assert_eq!(sys.highlight_links[0].id, sys.panels[0].parts[5].id);
}

#[test]
fn child_entities_group_the_parts_by_role() {
    let mut sys = TooltipSystem::new();
    sys.insert_content(
        "k".to_string(),
        entry_of(
            "Title",
            vec![
                TooltipsContent::String("one".to_string()),
                TooltipsContent::Term("two".to_string()),
                TooltipsContent::String("three".to_string()),
                TooltipsContent::Highlight("red".to_string()),
            ],
        ),
    );
    let link = sys.register_link("k".to_string()).unwrap();
    let (panel, _) = spawned(sys.spawn_tooltip(link, PTR, W));
    let e = sys.tooltip_child_entities(panel).expect("live panel");
    assert_eq!(e.title_node, panel + 1);
    assert_eq!(e.title_text, panel + 2);
    assert_eq!(e.tooltip_text_node, panel + 3);
    assert_eq!(e.string_texts, vec![panel + 4, panel + 6]);
    assert_eq!(e.term_texts, vec![panel + 5]);
    assert_eq!(e.highlight_texts, vec![panel + 7]);
    assert!(sys.tooltip_child_entities(panel + 999).is_none());
}
