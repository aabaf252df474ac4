use ui_drag::{
    get_scale_for_entity, get_scale_for_percent_mode_entity, Draggable, Node, ScaleMode, Scene,
    UiTransform,
};

type Point = (f32, f32);

fn widget(entity: u64, parent: Option<usize>, extent: Point, scale_mode: ScaleMode) -> Node<Point> {
    Node {
        entity,
        parent,
        transform: Some(UiTransform { extent, z: 0, scale_mode }),
        hidden: false,
        hidden_propagate: false,
        draggable: Some(Draggable),
        under_pointer: false,
    }
}

fn bare(entity: u64, parent: Option<usize>) -> Node<Point> {
    Node {
        entity,
        parent,
        transform: None,
        hidden: false,
        hidden_propagate: false,
        draggable: None,
        under_pointer: false,
    }
}

fn factors(divisors: &[Point]) -> Point {
    let mut scale = (1.0f32, 1.0f32);
    for d in divisors {
        scale = (scale.0 / d.0, scale.1 / d.1);
    }
    scale
}

#[test]
fn percent_chain_of_three_levels_multiplies() {
    let mut scene = Scene::new((100.0, 100.0));
    let a = scene.insert(widget(1, None, (50.0, 50.0), ScaleMode::Percent)).unwrap();
    let b = scene.insert(widget(2, Some(a), (25.0, 25.0), ScaleMode::Percent)).unwrap();
    let c = scene.insert(widget(3, Some(b), (5.0, 5.0), ScaleMode::Percent)).unwrap();
    assert!(scene.can_resolve(c));
    let scale = get_scale_for_entity(c, &scene);
    assert_eq!(scale.divisors, vec![(100.0, 100.0), (50.0, 50.0), (25.0, 25.0)]);
    let (sx, sy) = factors(&scale.divisors);
    assert_eq!(sx, 1.0f32 / 100.0 / 50.0 / 25.0);
    assert_eq!(sy, 1.0f32 / 100.0 / 50.0 / 25.0);
    assert!((sx - 1.0 / (100.0 * 50.0 * 25.0)).abs() < 1e-9);
    assert!((100.0 * sx - 0.0008).abs() < 1e-7);
}

#[test]
fn percent_chain_with_large_dimensions() {
    let mut scene = Scene::new((1000.0, 1000.0));
    let a = scene.insert(widget(1, None, (500.0, 500.0), ScaleMode::Percent)).unwrap();
    let b = scene.insert(widget(2, Some(a), (250.0, 250.0), ScaleMode::Percent)).unwrap();
    let c = scene.insert(widget(3, Some(b), (10.0, 10.0), ScaleMode::Percent)).unwrap();
    let scale = get_scale_for_entity(c, &scene);
    let (sx, _) = factors(&scale.divisors);
    assert!((sx - 1.0 / (1000.0 * 500.0 * 250.0)).abs() < 1e-12);
    assert_eq!(scale.divisors.len(), 3);
}

#[test]
fn percent_root_divides_by_the_screen() {
    let mut scene = Scene::new((800.0, 600.0));
    let a = scene.insert(widget(1, None, (50.0, 50.0), ScaleMode::Percent)).unwrap();
    let scale = get_scale_for_entity(a, &scene);
    assert_eq!(scale.divisors, vec![(800.0, 600.0)]);
    let direct = get_scale_for_percent_mode_entity(a, &scene);
    assert_eq!(direct.divisors, vec![(800.0, 600.0)]);
}

#[test]
fn percent_child_divides_by_the_parent_after_the_parents_scale() {
    let mut scene = Scene::new((800.0, 600.0));
    let a = scene.insert(widget(1, None, (400.0, 300.0), ScaleMode::Percent)).unwrap();
    let b = scene.insert(widget(2, Some(a), (40.0, 30.0), ScaleMode::Percent)).unwrap();
    let scale = get_scale_for_percent_mode_entity(b, &scene);
    assert_eq!(scale.divisors, vec![(800.0, 600.0), (400.0, 300.0)]);
}

#[test]
fn pixel_widget_is_not_scaled() {
    let mut scene = Scene::new((100.0, 100.0));
    let a = scene.insert(widget(1, None, (50.0, 50.0), ScaleMode::Percent)).unwrap();
    let b = scene.insert(widget(2, Some(a), (25.0, 25.0), ScaleMode::Pixel)).unwrap();
    let scale = get_scale_for_entity(b, &scene);
    assert!(scale.divisors.is_empty());
    assert_eq!(factors(&scale.divisors), (1.0, 1.0));
}

#[test]
fn pixel_parent_halts_the_composition() {
    let mut scene = Scene::new((100.0, 100.0));
    let a = scene.insert(widget(1, None, (50.0, 50.0), ScaleMode::Percent)).unwrap();
    let b = scene.insert(widget(2, Some(a), (250.0, 125.0), ScaleMode::Pixel)).unwrap();
    let c = scene.insert(widget(3, Some(b), (5.0, 5.0), ScaleMode::Percent)).unwrap();
    let scale = get_scale_for_entity(c, &scene);
    assert_eq!(scale.divisors, vec![(250.0, 125.0)]);

    let mut other = Scene::new((7.0, 7.0));
    let a = other.insert(widget(1, None, (3.0, 3.0), ScaleMode::Percent)).unwrap();
    let b = other.insert(widget(2, Some(a), (250.0, 125.0), ScaleMode::Pixel)).unwrap();
    let c = other.insert(widget(3, Some(b), (5.0, 5.0), ScaleMode::Percent)).unwrap();
    assert_eq!(get_scale_for_entity(c, &other).divisors, scale.divisors);
}

#[test]
fn scale_needs_a_transform_on_the_widget_and_its_ancestors() {
    let mut scene = Scene::new((100.0, 100.0));
    let a = scene.insert(bare(1, None)).unwrap();
    let b = scene.insert(widget(2, Some(a), (25.0, 25.0), ScaleMode::Percent)).unwrap();
    let c = scene.insert(widget(3, Some(b), (5.0, 5.0), ScaleMode::Percent)).unwrap();
    let d = scene.insert(widget(4, Some(a), (5.0, 5.0), ScaleMode::Pixel)).unwrap();
    assert!(!scene.can_resolve(a));
    assert!(!scene.can_resolve(b));
    assert!(!scene.can_resolve(c));
    assert!(scene.can_resolve(d));
    assert!(!scene.can_resolve(17));
    assert!(!scene.can_track(1));
    assert!(scene.can_track(4));
    assert!(!scene.can_track(99));
    assert_eq!(scene.widget_index(4), d);
}

#[test]
fn scene_refuses_a_child_before_its_parent_and_a_second_listing() {
    let mut scene = Scene::new((100.0, 100.0));
    assert_eq!(scene.insert(widget(1, Some(0), (1.0, 1.0), ScaleMode::Pixel)), None);
    assert_eq!(scene.len(), 0);
    assert_eq!(scene.insert(widget(1, None, (1.0, 1.0), ScaleMode::Pixel)), Some(0));
    assert_eq!(scene.insert(widget(1, None, (2.0, 2.0), ScaleMode::Pixel)), None);
    assert_eq!(scene.insert(widget(2, Some(1), (2.0, 2.0), ScaleMode::Pixel)), None);
    assert_eq!(scene.insert(widget(2, Some(0), (2.0, 2.0), ScaleMode::Pixel)), Some(1));
    assert_eq!(scene.len(), 2);
    assert_eq!(scene.index_of(2), Some(1));
    assert_eq!(scene.index_of(3), None);
    assert_eq!(scene.screen(), (100.0, 100.0));
    assert_eq!(scene.get(1).unwrap().entity, 2);
    assert!(scene.get(2).is_none());
    assert_eq!(scene.node(0).entity, 1);
}

#[test]
fn scene_tells_draggable_and_hidden_entities() {
    let mut scene = Scene::new((100.0, 100.0));
    scene.insert(widget(1, None, (1.0, 1.0), ScaleMode::Pixel));
    scene.insert(bare(2, None));
    let mut hidden = widget(3, None, (1.0, 1.0), ScaleMode::Pixel);
    hidden.hidden = true;
    scene.insert(hidden);
    let mut through = bare(4, Some(2));
    through.hidden_propagate = true;
    scene.insert(through);
    assert!(scene.is_draggable(1));
    assert!(!scene.is_draggable(2));
    assert!(!scene.is_draggable(9));
    assert!(!scene.is_concealed(1));
    assert!(scene.is_concealed(3));
    assert!(scene.is_concealed(4));
    assert!(!scene.is_concealed(9));
}
