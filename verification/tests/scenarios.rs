//! End-to-end walks through whole interactions: hover-to-spawn with a
//! nested panel, a live activation-policy switch, and locking.

use nested_tooltips::content::{ContentEntry, TooltipsContent};
use nested_tooltips::system::{ActivationMethod, SpawnOutcome, TooltipSystem};
use nested_tooltips::term::LinkKind;

const W: (u32, u32) = (800, 600);

fn expect_spawned(out: SpawnOutcome) -> (u64, Vec<u64>) {
    match out {
        SpawnOutcome::Spawned { panel, despawned } => (panel, despawned),
        other => panic!("expected a spawn, got {:?}", other),
    }
}

#[test]
fn hovering_a_term_spawns_nested_panels_and_both_dismiss() {
    let mut sys = TooltipSystem::new();
    sys.insert_content(
        "tooltip".to_string(),
        ContentEntry {
            title: "ToolTip".to_string(),
            content: vec![
                TooltipsContent::String("A way to show extra info".to_string()),
                TooltipsContent::Term("recursive".to_string()),
            ],
        },
    );
    sys.insert_content(
        "recursive".to_string(),
        ContentEntry {
            title: "Recursive".to_string(),
            content: vec![TooltipsContent::String("It nests".to_string())],
        },
    );
    let root_link = sys.register_link("tooltip".to_string()).unwrap();

    // Hover the root link for the configured duration (900 ms by default).
    sys.hover_time_spawn(root_link);
    let out = sys.tick_timers(899, None);
    assert!(out.due.is_empty());
    let out = sys.tick_timers(1, None);
    assert_eq!(out.due, vec![root_link]);
    let (root_panel, displaced) = expect_spawned(sys.spawn_time_done(root_link, Some((100, 100)), W));
    assert!(displaced.is_empty());

    // Exactly one root panel, whose child link carries the key "recursive".
    assert_eq!(sys.panels.len(), 1);
    assert_eq!(sys.panels[0].parent, None);
    assert_eq!(sys.panels[0].title, "ToolTip");
    assert_eq!(sys.links.len(), 2);
    let nested_link = sys.links[1].id;
    match &sys.links[1].kind {
        LinkKind::Nested(r) => {
            assert_eq!(r.linked_string(), "recursive");
            assert_eq!(r.parent_entity(), root_panel);
        }
        other => panic!("expected a nested link, got {:?}", other),
    }

    // Hover the nested link as long; the pointer rests in the root panel
    // meanwhile, so the root panel's dismiss timer keeps resetting.
    sys.hover_time_spawn(nested_link);
    let out = sys.tick_timers(900, Some(root_panel));
    assert_eq!(out.due, vec![nested_link]);
    assert!(out.despawned.is_empty());
    let (nested_panel, displaced) = expect_spawned(sys.spawn_time_done(nested_link, Some((120, 120)), W));
    assert!(displaced.is_empty());
    assert_eq!(sys.panels.len(), 2);
    assert_eq!(sys.panels[1].parent, Some(root_panel));
    assert_eq!(sys.panels[1].title, "Recursive");

    // Mouse fully away from both: past the dismiss delay (500 ms), with
    // neither panel locked, both are gone.
    let out = sys.tick_timers(500, None);
    assert_eq!(out.despawned, vec![root_panel, nested_panel]);
    assert!(sys.panels.is_empty());
    // the nested panel's rendered link went with it
    assert_eq!(sys.links.len(), 1);
}

#[test]
fn switching_policy_mid_countdown_cancels_it_cleanly() {
    let mut sys = TooltipSystem::new();
    sys.insert_content(
        "k".to_string(),
        ContentEntry {
            title: "K".to_string(),
            content: vec![TooltipsContent::String("text".to_string())],
        },
    );
    let link = sys.register_link("k".to_string()).unwrap();

    // A hover countdown is running...
    sys.hover_time_spawn(link);
    sys.tick_timers(400, None);
    assert_eq!(sys.links[0].timer.map(|t| t.timer), Some(500));

    // ...when the activation method switches: the countdown is cancelled.
    sys.set_activation_method(ActivationMethod::MiddleMouse);
    assert_eq!(sys.links[0].timer, None);
    let out = sys.tick_timers(100_000, None);
    assert!(out.due.is_empty());
    assert!(sys.panels.is_empty());

    // A middle press then activates immediately, with no timer artifacts.
    let out = sys.middle_mouse_spawn(link, Some((10, 10)), W).expect("press consumed");
    expect_spawned(out);
    assert_eq!(sys.panels.len(), 1);
    assert_eq!(sys.links[0].timer, None);
}

#[test]
fn locking_outlives_the_dismiss_delay_until_unlocked() {
    let mut sys = TooltipSystem::new();
    sys.insert_content(
        "k".to_string(),
        ContentEntry {
            title: "K".to_string(),
            content: vec![TooltipsContent::String("text".to_string())],
        },
    );
    sys.set_activation_method(ActivationMethod::MiddleMouse);
    let link = sys.register_link("k".to_string()).unwrap();
    let (panel, _) = expect_spawned(sys.middle_mouse_spawn(link, Some((10, 10)), W).unwrap());

    // Lock via the activation gesture, then wait far past the dismiss
    // delay with no interaction: the panel stays.
    assert_eq!(sys.lock_tooltip(panel), Some(true));
    let out = sys.tick_timers(50_000, None);
    assert!(out.despawned.is_empty());
    assert_eq!(sys.panels.len(), 1);

    // Unlock: the panel lives until a fresh, full dismiss delay passes
    // with no hover -- no credit for the time spent locked.
    assert_eq!(sys.lock_tooltip(panel), Some(false));
    let out = sys.tick_timers(499, None);
    assert!(out.despawned.is_empty());
    assert_eq!(sys.panels.len(), 1);
    let out = sys.tick_timers(1, None);
    assert_eq!(out.despawned, vec![panel]);
    assert!(sys.panels.is_empty());
}
