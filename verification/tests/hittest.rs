use nested_tooltips::geometry::HitRect;
use nested_tooltips::hittest::{
    hit_test, span_listener, HitCandidate, HoverState, ListenTarget,
};
use nested_tooltips::system::TooltipSystem;

fn rect(min_x: i64, min_y: i64, max_x: i64, max_y: i64) -> HitRect {
    HitRect { min_x, min_y, max_x, max_y }
}

fn root_candidate() -> HitCandidate {
    HitCandidate {
        container: 1,
        is_panel_region: false,
        spans: vec![(10, rect(0, 0, 100, 20)), (11, rect(0, 30, 100, 50))],
    }
}

fn panel_candidate() -> HitCandidate {
    HitCandidate {
        container: 2,
        is_panel_region: true,
        spans: vec![(20, rect(50, 10, 150, 40))],
    }
}

#[test]
fn no_pointer_clears_and_exits() {
    let prev = Some(HoverState { hovered_entity: 10, anchor_entity: 1 });
    let r = hit_test(prev, None, &vec![root_candidate()]);
    assert!(r.hover.is_none());
    assert_eq!(r.events.exited, Some(10));
    assert_eq!(r.events.entered, None);
}

#[test]
fn fresh_hover_enters_once() {
    let r = hit_test(None, Some((5, 5)), &vec![root_candidate()]);
    let h = r.hover.expect("span under pointer");
    assert_eq!(h.hovered_entity, 10);
    assert_eq!(h.anchor_entity, 1);
    assert_eq!(r.events.entered, Some(10));
    assert_eq!(r.events.exited, None);
}

#[test]
fn staying_inside_is_a_no_op() {
    let prev = Some(HoverState { hovered_entity: 10, anchor_entity: 1 });
    let r = hit_test(prev, Some((99, 19)), &vec![root_candidate()]);
    assert_eq!(r.hover, prev);
    assert_eq!(r.events.exited, None);
    assert_eq!(r.events.entered, None);
}

#[test]
fn moving_between_spans_exits_and_enters_in_one_pass() {
    let prev = Some(HoverState { hovered_entity: 10, anchor_entity: 1 });
    let r = hit_test(prev, Some((5, 40)), &vec![root_candidate()]);
    assert_eq!(r.events.exited, Some(10));
    assert_eq!(r.events.entered, Some(11));
    assert_eq!(r.hover.unwrap().hovered_entity, 11);
}

#[test]
fn leaving_everything_exits_only() {
    let prev = Some(HoverState { hovered_entity: 10, anchor_entity: 1 });
    let r = hit_test(prev, Some((500, 500)), &vec![root_candidate()]);
    assert_eq!(r.events.exited, Some(10));
    assert_eq!(r.events.entered, None);
    assert!(r.hover.is_none());
}

#[test]
fn panel_regions_outrank_root_regions() {
    // The point lies in both the root span 10 and the panel span 20; the
    // panel candidate comes later but must win.
    let cands = vec![root_candidate(), panel_candidate()];
    let r = hit_test(None, Some((60, 15)), &cands);
    assert_eq!(r.hover.unwrap().hovered_entity, 20);
    assert_eq!(r.hover.unwrap().anchor_entity, 2);
}

#[test]
fn first_span_wins_within_a_candidate() {
    let c = HitCandidate {
        container: 7,
        is_panel_region: false,
        spans: vec![(31, rect(0, 0, 50, 50)), (32, rect(0, 0, 50, 50))],
    };
    let r = hit_test(None, Some((25, 25)), &vec![c]);
    assert_eq!(r.hover.unwrap().hovered_entity, 31);
}

#[test]
fn listener_is_direct_for_text_nodes() {
    assert_eq!(span_listener(true, &vec![(5, false), (6, true)]), ListenTarget::Direct);
}

#[test]
fn listener_is_nearest_text_ancestor() {
    assert_eq!(
        span_listener(false, &vec![(5, false), (6, true), (7, true)]),
        ListenTarget::Parent(6)
    );
}

#[test]
fn listener_absent_without_text_ancestor() {
    assert_eq!(span_listener(false, &vec![(5, false), (6, false)]), ListenTarget::NotFound);
    assert_eq!(span_listener(false, &vec![]), ListenTarget::NotFound);
}

#[test]
fn tracked_hover_lives_in_the_system() {
    let mut sys = TooltipSystem::new();
    let link = sys.register_link("k".to_string()).unwrap();
    let cand = HitCandidate {
        container: 12345,
        is_panel_region: false,
        spans: vec![(link, rect(0, 0, 100, 20))],
    };
    let ev = sys.tooltip_links(Some((5, 5)), &vec![cand]);
    assert_eq!(ev.entered, Some(link));
    assert_eq!(ev.exited, None);
    assert_eq!(sys.hover, Some(HoverState { hovered_entity: link, anchor_entity: 12345 }));

    let cand = HitCandidate {
        container: 12345,
        is_panel_region: false,
        spans: vec![(link, rect(0, 0, 100, 20))],
    };
    let ev = sys.tooltip_links(Some((500, 500)), &vec![cand]);
    assert_eq!(ev.exited, Some(link));
    assert_eq!(ev.entered, None);
    assert_eq!(sys.hover, None);
}
