use ui_drag::{
    targeted_below, Displacement, DragWidgetSystem, Draggable, Motion, Node, Scale, ScaleMode,
    Scene, Session, UiEvent, UiEventType, UiTransform,
};

type Point = (f32, f32);

fn widget(entity: u64, z: i32) -> Node<Point> {
    Node {
        entity,
        parent: None,
        transform: Some(UiTransform { extent: (10.0, 10.0), z, scale_mode: ScaleMode::Pixel }),
        hidden: false,
        hidden_propagate: false,
        draggable: Some(Draggable),
        under_pointer: false,
    }
}

fn under_pointer(entity: u64, z: i32) -> Node<Point> {
    let mut node = widget(entity, z);
    node.draggable = None;
    node.under_pointer = true;
    node
}

fn scene_of(nodes: Vec<Node<Point>>) -> Scene<Point> {
    let mut scene = Scene::new((100.0, 100.0));
    for node in nodes {
        assert!(scene.insert(node).is_some());
    }
    scene
}

fn click_start(target: u64) -> UiEvent<Point> {
    UiEvent::new(UiEventType::ClickStart, target)
}

fn click_stop(target: u64) -> UiEvent<Point> {
    UiEvent::new(UiEventType::ClickStop, target)
}

fn dragging(target: u64, from: Point, to: Point) -> UiEvent<Point> {
    UiEvent {
        event_type: UiEventType::Dragging {
            offset_from_origin: Displacement { from, to },
            absolute_position: to,
        },
        target,
    }
}

fn dropped(target: u64, on: Option<u64>) -> UiEvent<Point> {
    UiEvent { event_type: UiEventType::Dropped { target: on }, target }
}

fn offset(event: &UiEvent<Point>) -> Point {
    match &event.event_type {
        UiEventType::Dragging { offset_from_origin, .. } => (
            offset_from_origin.to.0 - offset_from_origin.from.0,
            offset_from_origin.to.1 - offset_from_origin.from.1,
        ),
        _ => panic!("not a Dragging event"),
    }
}

#[test]
fn new_system_drags_nothing() {
    let system: DragWidgetSystem<Point> = DragWidgetSystem::new();
    assert_eq!(system.len(), 0);
    assert!(!system.is_dragging(1));
    assert_eq!(system.session(1), None);
}

#[test]
fn click_start_then_move_gives_offset_and_position() {
    let scene = scene_of(vec![widget(1, 5)]);
    let mut system = DragWidgetSystem::new();
    let events = [click_start(1)];
    assert!(system.can_run(&scene, &events));
    let first = system.run(&scene, (10.0, 20.0), &events);
    assert_eq!(first.events, vec![dragging(1, (10.0, 20.0), (10.0, 20.0))]);
    assert_eq!(system.session(1), Some(Session { entity: 1, origin: (10.0, 20.0), last: (10.0, 20.0) }));

    let second = system.run(&scene, (13.0, 24.0), &[]);
    assert_eq!(second.events, vec![dragging(1, (10.0, 20.0), (13.0, 24.0))]);
    assert_eq!(offset(&second.events[0]), (3.0, 4.0));
    assert_eq!(
        second.motions,
        vec![Motion {
            entity: 1,
            change: Displacement { from: (10.0, 20.0), to: (13.0, 24.0) },
            scale: Scale { divisors: vec![] },
        }]
    );
    assert_eq!(system.session(1), Some(Session { entity: 1, origin: (10.0, 20.0), last: (13.0, 24.0) }));

    let third = system.run(&scene, (15.0, 24.0), &[]);
    assert_eq!(third.events, vec![dragging(1, (10.0, 20.0), (15.0, 24.0))]);
    assert_eq!(third.motions[0].change, Displacement { from: (13.0, 24.0), to: (15.0, 24.0) });
}

#[test]
fn click_start_on_a_widget_that_is_not_draggable_is_ignored() {
    let mut plain = widget(1, 5);
    plain.draggable = None;
    let scene = scene_of(vec![plain]);
    let mut system = DragWidgetSystem::new();
    let out = system.run(&scene, (1.0, 1.0), &[click_start(1), click_start(7)]);
    assert!(out.events.is_empty());
    assert!(out.motions.is_empty());
    assert_eq!(system.len(), 0);
}

#[test]
fn click_stop_removes_the_session_and_drops_once() {
    let scene = scene_of(vec![widget(1, 5), widget(2, 6)]);
    let mut system = DragWidgetSystem::new();
    system.run(&scene, (0.0, 0.0), &[click_start(1), click_start(2)]);
    assert_eq!(system.len(), 2);
    let out = system.run(&scene, (4.0, 0.0), &[click_stop(1), click_stop(1)]);
    assert_eq!(
        out.events,
        vec![
            dragging(1, (0.0, 0.0), (4.0, 0.0)),
            dragging(2, (0.0, 0.0), (4.0, 0.0)),
            dropped(1, None),
        ]
    );
    assert_eq!(out.motions.len(), 2);
    assert!(!system.is_dragging(1));
    assert!(system.is_dragging(2));
    assert_eq!(system.len(), 1);
}

#[test]
fn click_stop_without_a_session_is_ignored() {
    let scene = scene_of(vec![widget(1, 5)]);
    let mut system = DragWidgetSystem::new();
    let out = system.run(&scene, (0.0, 0.0), &[click_stop(1), click_start(1)]);
    assert_eq!(out.events, vec![dragging(1, (0.0, 0.0), (0.0, 0.0))]);
    assert!(system.is_dragging(1));
}

#[test]
fn click_start_and_stop_in_one_frame_drag_once_and_drop() {
    let scene = scene_of(vec![widget(1, 5)]);
    let mut system = DragWidgetSystem::new();
    let out = system.run(&scene, (2.0, 3.0), &[click_start(1), click_stop(1)]);
    assert_eq!(out.events, vec![dragging(1, (2.0, 3.0), (2.0, 3.0)), dropped(1, None)]);
    assert_eq!(out.motions.len(), 1);
    assert_eq!(system.len(), 0);
}

#[test]
fn hidden_widget_is_dropped_without_a_click_stop() {
    let scene = scene_of(vec![widget(1, 5), widget(2, 5)]);
    let mut system = DragWidgetSystem::new();
    system.run(&scene, (0.0, 0.0), &[click_start(1), click_start(2)]);

    let mut hidden = widget(1, 5);
    hidden.hidden = true;
    let mut through = widget(2, 5);
    through.hidden_propagate = true;
    let scene = scene_of(vec![hidden, through]);
    let out = system.run(&scene, (1.0, 1.0), &[]);
    assert_eq!(
        out.events,
        vec![
            dragging(1, (0.0, 0.0), (1.0, 1.0)),
            dragging(2, (0.0, 0.0), (1.0, 1.0)),
            dropped(1, None),
            dropped(2, None),
        ]
    );
    assert_eq!(out.motions.len(), 2);
    assert_eq!(system.len(), 0);
}

#[test]
fn hidden_widget_with_a_click_stop_is_dropped_once() {
    let scene = scene_of(vec![widget(1, 5)]);
    let mut system = DragWidgetSystem::new();
    system.run(&scene, (0.0, 0.0), &[click_start(1)]);
    let mut hidden = widget(1, 5);
    hidden.hidden = true;
    let scene = scene_of(vec![hidden]);
    let out = system.run(&scene, (1.0, 1.0), &[click_stop(1)]);
    assert_eq!(out.events, vec![dragging(1, (0.0, 0.0), (1.0, 1.0)), dropped(1, None)]);
    assert_eq!(system.len(), 0);
}

#[test]
fn second_click_start_resets_the_origin() {
    let scene = scene_of(vec![widget(1, 5), widget(2, 5)]);
    let mut system = DragWidgetSystem::new();
    system.run(&scene, (0.0, 0.0), &[click_start(1), click_start(2)]);
    system.run(&scene, (5.0, 5.0), &[]);
    let out = system.run(&scene, (8.0, 9.0), &[click_start(1)]);
    assert_eq!(
        out.events,
        vec![dragging(1, (8.0, 9.0), (8.0, 9.0)), dragging(2, (0.0, 0.0), (8.0, 9.0))]
    );
    assert_eq!(offset(&out.events[0]), (0.0, 0.0));
    assert_eq!(out.motions[0].change, Displacement { from: (8.0, 9.0), to: (8.0, 9.0) });
    assert_eq!(system.session(1), Some(Session { entity: 1, origin: (8.0, 9.0), last: (8.0, 9.0) }));
    assert_eq!(system.len(), 2);
}

#[test]
fn frame_without_events_only_moves() {
    let scene = scene_of(vec![widget(1, 5), widget(2, 5)]);
    let mut system = DragWidgetSystem::new();
    system.run(&scene, (0.0, 0.0), &[click_start(2), click_start(1)]);
    let out = system.run(&scene, (3.0, 0.0), &[]);
    assert_eq!(
        out.events,
        vec![dragging(2, (0.0, 0.0), (3.0, 0.0)), dragging(1, (0.0, 0.0), (3.0, 0.0))]
    );
    assert_eq!(system.session(1), Some(Session { entity: 1, origin: (0.0, 0.0), last: (3.0, 0.0) }));
    assert_eq!(system.session(2), Some(Session { entity: 2, origin: (0.0, 0.0), last: (3.0, 0.0) }));
    assert_eq!(system.len(), 2);
}

#[test]
fn own_events_are_not_consumed() {
    let scene = scene_of(vec![widget(1, 5)]);
    let mut system = DragWidgetSystem::new();
    let first = system.run(&scene, (0.0, 0.0), &[click_start(1)]);
    let mut echoed = first.events;
    echoed.push(dropped(1, None));
    echoed.push(UiEvent::new(UiEventType::Other, 1));
    let out = system.run(&scene, (1.0, 0.0), &echoed);
    assert_eq!(out.events, vec![dragging(1, (0.0, 0.0), (1.0, 0.0))]);
    assert!(system.is_dragging(1));
}

#[test]
fn motion_carries_the_scale_of_the_widget() {
    let mut scene = Scene::new((100.0, 200.0));
    let mut parent = widget(1, 0);
    parent.transform = Some(UiTransform { extent: (50.0, 40.0), z: 0, scale_mode: ScaleMode::Percent });
    let mut child = widget(2, 1);
    child.parent = Some(0);
    child.transform = Some(UiTransform { extent: (5.0, 4.0), z: 1, scale_mode: ScaleMode::Percent });
    scene.insert(parent);
    scene.insert(child);
    let mut system = DragWidgetSystem::new();
    system.run(&scene, (0.0, 0.0), &[click_start(2)]);
    let out = system.run(&scene, (100.0, 0.0), &[]);
    assert_eq!(
        out.motions,
        vec![Motion {
            entity: 2,
            change: Displacement { from: (0.0, 0.0), to: (100.0, 0.0) },
            scale: Scale { divisors: vec![(100.0, 200.0), (50.0, 40.0)] },
        }]
    );
    let motion = &out.motions[0];
    let mut scale = (1.0f32, 1.0f32);
    for divisor in &motion.scale.divisors {
        scale = (scale.0 / divisor.0, scale.1 / divisor.1);
    }
    let moved_x = scale.0 * (motion.change.to.0 - motion.change.from.0);
    let moved_y = scale.1 * (motion.change.to.1 - motion.change.from.1);
    assert_eq!(moved_x, (1.0f32 / 100.0 / 50.0) * 100.0);
    assert!((moved_x - 0.02).abs() < 1e-7);
    assert_eq!(moved_y, 0.0);
}

#[test]
fn drop_picks_the_highest_widget_below_the_dragged_one() {
    let scene = scene_of(vec![
        widget(1, 10),
        under_pointer(2, 3),
        under_pointer(3, 7),
        under_pointer(4, 10),
        under_pointer(5, 12),
        widget(6, 9),
    ]);
    let mut system = DragWidgetSystem::new();
    system.run(&scene, (0.0, 0.0), &[click_start(1)]);
    let out = system.run(&scene, (1.0, 1.0), &[click_stop(1)]);
    assert_eq!(out.events[1], dropped(1, Some(3)));
    assert_eq!(targeted_below(&scene, 10), Some(3));
    assert_eq!(targeted_below(&scene, 11), Some(4));
    assert_eq!(targeted_below(&scene, 100), Some(5));
    assert_eq!(targeted_below(&scene, 7), Some(2));
    assert_eq!(targeted_below(&scene, 3), None);
}

#[test]
fn drop_never_picks_a_hidden_widget() {
    let mut hidden = under_pointer(2, 8);
    hidden.hidden = true;
    let mut through = under_pointer(3, 7);
    through.hidden_propagate = true;
    let mut bare = under_pointer(4, 6);
    bare.transform = None;
    let scene = scene_of(vec![widget(1, 10), hidden, through, bare, under_pointer(5, 2)]);
    assert_eq!(targeted_below(&scene, 10), Some(5));
    let mut system = DragWidgetSystem::new();
    let out = system.run(&scene, (0.0, 0.0), &[click_start(1), click_stop(1)]);
    assert_eq!(out.events[1], dropped(1, Some(5)));
}

#[test]
fn drop_never_picks_the_dragged_widget_itself() {
    let mut own = widget(1, 10);
    own.under_pointer = true;
    let scene = scene_of(vec![own]);
    let mut system = DragWidgetSystem::new();
    let out = system.run(&scene, (0.0, 0.0), &[click_start(1), click_stop(1)]);
    assert_eq!(out.events[1], dropped(1, None));
}

#[test]
fn drop_among_equals_picks_the_first_listed() {
    let scene = scene_of(vec![under_pointer(7, 4), under_pointer(8, 4), under_pointer(9, 1)]);
    assert_eq!(targeted_below(&scene, 5), Some(7));
    assert_eq!(targeted_below(&scene, 4), Some(9));
}

#[test]
fn frame_cannot_run_with_a_dragged_widget_that_the_scene_lacks() {
    let scene = scene_of(vec![widget(1, 5)]);
    let mut system = DragWidgetSystem::new();
    system.run(&scene, (0.0, 0.0), &[click_start(1)]);
    let empty: Scene<Point> = Scene::new((100.0, 100.0));
    assert!(!system.can_run(&empty, &[]));
    assert!(system.can_run(&scene, &[]));

    let mut bare = widget(2, 5);
    bare.transform = None;
    let scene = scene_of(vec![widget(1, 5), bare]);
    assert!(system.can_run(&scene, &[click_stop(2)]));
    assert!(!system.can_run(&scene, &[click_start(2)]));
    assert!(system.can_run(&scene, &[click_start(3)]));
}
