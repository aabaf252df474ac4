//! What holds of every frame, and of every scene.

use vstd::prelude::*;
use crate::event::{Displacement, UiEvent, UiEventType};
use crate::frame::{
    begins, dragging_event, dropped_event, frame, fresh, ingest, motion, moved, newly_concealed,
    surviving, terminated, Ingested,
};
use crate::proofs::{
    lemma_filter_all, lemma_filter_none, lemma_frame_distinct, lemma_frame_dragging,
    lemma_frame_keeps, lemma_ingest_begins, lemma_ingest_ignores, lemma_ingest_keeps_session,
    lemma_ingest_monotone, lemma_ingest_next, lemma_ingest_wf, lemma_terminated_contains,
    lemma_terminated_once,
};
use crate::scene::{Entity, ScaleMode, Scene};
use crate::session::{distinct, dragging, session_of, Session};

verus! {

/// `events` holds `event`, and no other `Dragging` event for the same entity.
pub open spec fn dragged_once<V>(events: Seq<UiEvent<V>>, event: UiEvent<V>) -> bool {
    exists|i: int|
        0 <= i < events.len() && (#[trigger] events[i]) == event && forall|j: int|
            0 <= j < events.len() && (#[trigger] events[j]).target == event.target
                && events[j].event_type is Dragging ==> j == i
}

/// `events` holds `event`, and no other `Dropped` event for the same entity.
pub open spec fn dropped_once<V>(events: Seq<UiEvent<V>>, event: UiEvent<V>) -> bool {
    exists|i: int|
        0 <= i < events.len() && (#[trigger] events[i]) == event && forall|j: int|
            0 <= j < events.len() && (#[trigger] events[j]).target == event.target
                && events[j].event_type is Dropped ==> j == i
}

/// A session that is there when the events are read yields the one `Dragging`
/// event of its entity.
proof fn lemma_dragged_once<V: Copy>(
    sessions: Seq<Session<V>>,
    scene: Scene<V>,
    pointer: V,
    events: Seq<UiEvent<V>>,
    session: Session<V>,
)
    requires
        distinct(sessions),
        ingest(sessions, scene, pointer, events).sessions.contains(session),
    ensures
        dragged_once(
            frame(sessions, scene, pointer, events).events,
            dragging_event(pointer)(session),
        ),
{
    let read = ingest(sessions, scene, pointer, events);
    let out = frame(sessions, scene, pointer, events).events;
    let drags = read.sessions.map_values(dragging_event(pointer));
    let drops = terminated(read, scene).map_values(dropped_event(scene));
    lemma_ingest_wf(sessions, scene, pointer, events);
    let i = choose|i: int| 0 <= i < read.sessions.len() && read.sessions[i] == session;
    assert(out[i] == drags[i]);
    assert forall|j: int|
        0 <= j < out.len() && (#[trigger] out[j]).target == session.entity
            && out[j].event_type is Dragging implies j == i by {
        if j < drags.len() {
            assert(out[j] == drags[j]);
            assert(read.sessions[j].entity == read.sessions[i].entity);
        } else {
            assert(out[j] == drops[j - drags.len()]);
        }
    }
}

/// An entity whose drag ends in the frame gets the one `Dropped` event of the
/// frame that is addressed to it.
proof fn lemma_dropped_once<V: Copy>(
    sessions: Seq<Session<V>>,
    scene: Scene<V>,
    pointer: V,
    events: Seq<UiEvent<V>>,
    entity: Entity,
)
    requires
        distinct(sessions),
        terminated(ingest(sessions, scene, pointer, events), scene).contains(entity),
    ensures
        dropped_once(frame(sessions, scene, pointer, events).events, dropped_event(scene)(entity)),
{
    let read = ingest(sessions, scene, pointer, events);
    let stopped = terminated(read, scene);
    let out = frame(sessions, scene, pointer, events).events;
    let drags = read.sessions.map_values(dragging_event(pointer));
    let drops = stopped.map_values(dropped_event(scene));
    lemma_ingest_wf(sessions, scene, pointer, events);
    lemma_terminated_once(read, scene);
    let d = choose|d: int| 0 <= d < stopped.len() && stopped[d] == entity;
    let i = drags.len() + d;
    assert(out[i] == drops[d]);
    assert forall|j: int|
        0 <= j < out.len() && (#[trigger] out[j]).target == entity
            && out[j].event_type is Dropped implies j == i by {
        if j < drags.len() {
            assert(out[j] == drags[j]);
        } else {
            assert(out[j] == drops[j - drags.len()]);
            assert(stopped[j - drags.len()] == stopped[d]);
        }
    }
}

/// A click on a draggable widget, followed in the next frame by a movement of
/// the pointer, drags the widget along.
///
/// In one frame, with the pointer at `click`, a `ClickStart` arrives for a
/// draggable widget, and the drag does not end in that frame. In the next
/// frame the pointer is at `pointer`, and no event begins the drag afresh.
/// Then the second frame holds one `Dragging` event for the widget; it gives
/// `pointer` as the position and the way from `click` to `pointer` as the
/// offset.
pub proof fn drag_follows_pointer<V: Copy>(
    sessions: Seq<Session<V>>,
    scene: Scene<V>,
    click: V,
    events: Seq<UiEvent<V>>,
    k: int,
    next_scene: Scene<V>,
    pointer: V,
    next_events: Seq<UiEvent<V>>,
)
    requires
        distinct(sessions),
        0 <= k < events.len(),
        events[k].event_type is ClickStart,
        scene.draggable(events[k].target),
        !terminated(ingest(sessions, scene, click, events), scene).contains(events[k].target),
        forall|j: int|
            0 <= j < next_events.len() ==> !begins(
                #[trigger] next_events[j],
                next_scene,
                events[k].target,
            ),
    ensures
        dragged_once(
            frame(
                frame(sessions, scene, click, events).sessions,
                next_scene,
                pointer,
                next_events,
            ).events,
            UiEvent {
                event_type: UiEventType::Dragging {
                    offset_from_origin: Displacement { from: click, to: pointer },
                    absolute_position: pointer,
                },
                target: events[k].target,
            },
        ),
{
    let entity = events[k].target;
    let begun = fresh(entity, click);
    let between = frame(sessions, scene, click, events).sessions;
    lemma_ingest_begins(sessions, scene, click, events, k, entity);
    lemma_frame_keeps(sessions, scene, click, events, begun);
    assert(moved(click)(begun) == begun);
    lemma_frame_distinct(sessions, scene, click, events);
    lemma_ingest_keeps_session(between, next_scene, pointer, next_events, begun);
    lemma_dragged_once(between, next_scene, pointer, next_events, begun);
}

/// A `ClickStop` on a widget that is being dragged ends the drag in the same
/// frame.
///
/// The widget is being dragged when the event arrives: it was so before the
/// frame, or an earlier event of the frame began the drag. Then after the
/// frame the widget has no session, and the frame holds one `Dropped` event
/// for it.
pub proof fn click_stop_ends_drag<V: Copy>(
    sessions: Seq<Session<V>>,
    scene: Scene<V>,
    pointer: V,
    events: Seq<UiEvent<V>>,
    k: int,
)
    requires
        distinct(sessions),
        0 <= k < events.len(),
        events[k].event_type is ClickStop,
        dragging(ingest(sessions, scene, pointer, events.take(k)).sessions, events[k].target),
    ensures
        !dragging(frame(sessions, scene, pointer, events).sessions, events[k].target),
        dropped_once(
            frame(sessions, scene, pointer, events).events,
            dropped_event(scene)(events[k].target),
        ),
{
    let entity = events[k].target;
    let earlier = ingest(sessions, scene, pointer, events.take(k));
    let marked = ingest(sessions, scene, pointer, events.take(k + 1));
    lemma_ingest_next(sessions, scene, pointer, events, k);
    assert(marked.stopped.contains(entity)) by {
        if earlier.stopped.contains(entity) {
        } else {
            assert(marked.stopped[earlier.stopped.len() as int] == entity);
        }
    }
    lemma_ingest_monotone(sessions, scene, pointer, events, k + 1);
    lemma_terminated_contains(ingest(sessions, scene, pointer, events), scene, entity);
    lemma_frame_dragging(sessions, scene, pointer, events, entity);
    lemma_dropped_once(sessions, scene, pointer, events, entity);
}

/// A widget that is hidden, itself or through an ancestor, is not dragged any
/// further, whether or not a `ClickStop` arrives.
///
/// The widget was being dragged before the frame, or an event of the frame
/// begins the drag. Then after the frame the widget has no session, and the
/// frame holds one `Dropped` event for it.
pub proof fn hidden_widget_ends_drag<V: Copy>(
    sessions: Seq<Session<V>>,
    scene: Scene<V>,
    pointer: V,
    events: Seq<UiEvent<V>>,
    entity: Entity,
)
    requires
        distinct(sessions),
        scene.concealed(entity),
        dragging(sessions, entity) || exists|k: int|
            0 <= k < events.len() && begins(#[trigger] events[k], scene, entity),
    ensures
        !dragging(frame(sessions, scene, pointer, events).sessions, entity),
        dropped_once(frame(sessions, scene, pointer, events).events, dropped_event(scene)(entity)),
{
    let read = ingest(sessions, scene, pointer, events);
    assert(dragging(read.sessions, entity)) by {
        if dragging(sessions, entity) {
            assert(events.take(0) =~= Seq::<UiEvent<V>>::empty());
            lemma_ingest_monotone(sessions, scene, pointer, events, 0);
        } else {
            let k = choose|k: int|
                0 <= k < events.len() && begins(#[trigger] events[k], scene, entity);
            lemma_ingest_begins(sessions, scene, pointer, events, k, entity);
            let begun = fresh(entity, pointer);
            let w = choose|w: int| 0 <= w < read.sessions.len() && read.sessions[w] == begun;
            assert(read.sessions[w].entity == entity);
        }
    }
    lemma_terminated_contains(read, scene, entity);
    lemma_frame_dragging(sessions, scene, pointer, events, entity);
    lemma_dropped_once(sessions, scene, pointer, events, entity);
}

/// A drag that ends in a frame is still moved in that frame, and dropped only
/// then: the frame holds the `Dragging` event of the widget's session before
/// its `Dropped` event, and the motion of the session.
pub proof fn ending_drag_moves_before_drop<V: Copy>(
    sessions: Seq<Session<V>>,
    scene: Scene<V>,
    pointer: V,
    events: Seq<UiEvent<V>>,
    entity: Entity,
)
    requires
        distinct(sessions),
        terminated(ingest(sessions, scene, pointer, events), scene).contains(entity),
    ensures
        dragging(ingest(sessions, scene, pointer, events).sessions, entity),
        exists|i: int, j: int|
            0 <= i < j < frame(sessions, scene, pointer, events).events.len() && (#[trigger] frame(
                sessions,
                scene,
                pointer,
                events,
            ).events[i]) == dragging_event(pointer)(
                session_of(ingest(sessions, scene, pointer, events).sessions, entity),
            ) && (#[trigger] frame(sessions, scene, pointer, events).events[j]) == dropped_event(
                scene,
            )(entity),
        frame(sessions, scene, pointer, events).motions.contains(
            motion(scene, pointer)(
                session_of(ingest(sessions, scene, pointer, events).sessions, entity),
            ),
        ),
{
    let read = ingest(sessions, scene, pointer, events);
    let stopped = terminated(read, scene);
    let out = frame(sessions, scene, pointer, events);
    let drags = read.sessions.map_values(dragging_event(pointer));
    let drops = stopped.map_values(dropped_event(scene));
    lemma_ingest_wf(sessions, scene, pointer, events);
    lemma_terminated_contains(read, scene, entity);
    if read.stopped.contains(entity) {
        let c = choose|c: int| 0 <= c < read.stopped.len() && read.stopped[c] == entity;
        assert(dragging(read.sessions, read.stopped[c]));
    }
    let i = choose|i: int| 0 <= i < read.sessions.len() && (#[trigger] read.sessions[i]).entity == entity;
    let d = choose|d: int| 0 <= d < stopped.len() && stopped[d] == entity;
    let j = drags.len() + d;
    assert(out.events[i] == drags[i]);
    assert(out.events[j] == drops[d]);
    assert(out.motions[i] == motion(scene, pointer)(read.sessions[i]));
}

/// A drop never names a widget that is hidden, itself or through an ancestor,
/// nor one that lies as high as the dragged widget or higher.
///
/// Whatever entity a `Dropped` event of a frame names, the scene lists it
/// with a transform, visible, under the pointer, and strictly below the
/// widget that the event is addressed to.
pub proof fn drop_target_is_visible_and_below<V: Copy>(
    sessions: Seq<Session<V>>,
    scene: Scene<V>,
    pointer: V,
    events: Seq<UiEvent<V>>,
    i: int,
    target: Entity,
)
    requires
        0 <= i < frame(sessions, scene, pointer, events).events.len(),
        frame(sessions, scene, pointer, events).events[i].event_type == (UiEventType::<
            V,
        >::Dropped { target: Some(target) }),
    ensures
        exists|j: int|
            0 <= j < scene@.len() && (#[trigger] scene@[j]).entity == target
                && scene@[j].transform is Some && !scene@[j].hidden && !scene@[j].hidden_propagate
                && scene@[j].under_pointer && scene.z_at(j) < scene.z_at(
                scene.position(frame(sessions, scene, pointer, events).events[i].target),
            ),
{
    let read = ingest(sessions, scene, pointer, events);
    let stopped = terminated(read, scene);
    let out = frame(sessions, scene, pointer, events).events;
    let drags = read.sessions.map_values(dragging_event(pointer));
    let drops = stopped.map_values(dropped_event(scene));
    if i < drags.len() {
        assert(out[i] == drags[i]);
    } else {
        assert(out[i] == drops[i - drags.len()]);
        let height = scene.z_at(scene.position(out[i].target));
        target_is_visible_and_below(scene, height, target);
    }
}

/// The top match below `height` is visible, under the pointer, and strictly
/// below `height`.
pub proof fn target_is_visible_and_below<V: Copy>(scene: Scene<V>, height: i32, target: Entity)
    requires
        scene.top_match(height) == Some(target),
    ensures
        exists|j: int|
            0 <= j < scene@.len() && (#[trigger] scene@[j]).entity == target
                && scene@[j].transform is Some && !scene@[j].hidden && !scene@[j].hidden_propagate
                && scene@[j].under_pointer && scene.z_at(j) < height,
{
    let c = choose|c: int| scene.tops(c, height);
    assert(scene.eligible(c, height));
    assert(scene@[c].entity == target);
}

/// A `ClickStart` on a draggable widget begins the drag afresh, also where the
/// widget was being dragged: in that frame the offset of its `Dragging` event
/// leads from the pointer to the pointer, and if the drag goes on, it does so
/// with the pointer's position as its origin.
pub proof fn click_start_resets_origin<V: Copy>(
    sessions: Seq<Session<V>>,
    scene: Scene<V>,
    pointer: V,
    events: Seq<UiEvent<V>>,
    k: int,
)
    requires
        distinct(sessions),
        0 <= k < events.len(),
        events[k].event_type is ClickStart,
        scene.draggable(events[k].target),
    ensures
        dragged_once(
            frame(sessions, scene, pointer, events).events,
            UiEvent {
                event_type: UiEventType::Dragging {
                    offset_from_origin: Displacement { from: pointer, to: pointer },
                    absolute_position: pointer,
                },
                target: events[k].target,
            },
        ),
        dragging(frame(sessions, scene, pointer, events).sessions, events[k].target) ==> session_of(
            frame(sessions, scene, pointer, events).sessions,
            events[k].target,
        ) == fresh(events[k].target, pointer),
{
    let entity = events[k].target;
    let begun = fresh(entity, pointer);
    let after = frame(sessions, scene, pointer, events).sessions;
    lemma_ingest_begins(sessions, scene, pointer, events, k, entity);
    lemma_dragged_once(sessions, scene, pointer, events, begun);
    if dragging(after, entity) {
        lemma_frame_dragging(sessions, scene, pointer, events, entity);
        lemma_frame_keeps(sessions, scene, pointer, events, begun);
        assert(moved(pointer)(begun) == begun);
        lemma_frame_distinct(sessions, scene, pointer, events);
        let a = choose|a: int| 0 <= a < after.len() && after[a] == begun;
        let c = choose|c: int| 0 <= c < after.len() && (#[trigger] after[c]).entity == entity;
        assert(after[a].entity == entity);
        assert(a == c);
    }
}

/// A frame in which no event begins or ends a drag, and so a frame without
/// events, only moves: where no dragged widget is hidden, the sessions are
/// those of before with the pointer recorded, and the frame holds one
/// `Dragging` event and one motion for each, and nothing else.
pub proof fn idle_frame_only_moves<V: Copy>(
    sessions: Seq<Session<V>>,
    scene: Scene<V>,
    pointer: V,
    events: Seq<UiEvent<V>>,
)
    requires
        forall|k: int|
            0 <= k < events.len() ==> (#[trigger] events[k]).event_type !is ClickStart
                && events[k].event_type !is ClickStop,
        forall|i: int| 0 <= i < sessions.len() ==> !scene.concealed((#[trigger] sessions[i]).entity),
    ensures
        frame(sessions, scene, pointer, events).sessions == sessions.map_values(moved(pointer)),
        frame(sessions, scene, pointer, events).events == sessions.map_values(
            dragging_event(pointer),
        ),
        frame(sessions, scene, pointer, events).motions == sessions.map_values(
            motion(scene, pointer),
        ),
{
    let none = Seq::<Entity>::empty();
    lemma_ingest_ignores(sessions, scene, pointer, events);
    lemma_filter_none(sessions, newly_concealed(scene, none));
    let read = Ingested { sessions, stopped: none };
    assert(terminated(read, scene) =~= none);
    lemma_filter_all(sessions.map_values(moved(pointer)), surviving(none));
    assert(frame(sessions, scene, pointer, events).events =~= sessions.map_values(
        dragging_event(pointer),
    ));
}

/// The scale of a widget in `Percent` mode composes with that of its parent:
/// it divides by all that the parent's scale divides by, and then by the
/// parent's dimensions.
pub proof fn percent_scale_composes<V: Copy>(scene: Scene<V>, index: int, parent: usize)
    requires
        scene.wf(),
        0 <= index < scene@.len(),
        scene.percent_at(index),
        scene@[index].parent == Some(parent),
    ensures
        scene.scale_divisors(index) == scene.scale_divisors(parent as int).push(
            scene.extent_at(parent as int),
        ),
{
}

/// A widget in `Pixel` mode moves one to one with the pointer, whatever its
/// ancestors are.
pub proof fn pixel_widget_is_unscaled<V: Copy>(scene: Scene<V>, index: int)
    requires
        0 <= index < scene@.len(),
        scene@[index].transform matches Some(t) && t.scale_mode == ScaleMode::Pixel,
    ensures
        scene.scale_divisors(index) == Seq::<V>::empty(),
{
}

/// Two scenes agree on the widget at `index` and on its ancestors up to the
/// nearest one in `Pixel` mode, or up to the screen where there is none.
pub open spec fn same_branch<V: Copy>(a: Scene<V>, b: Scene<V>, index: int) -> bool
    decreases index,
{
    &&& 0 <= index < a@.len()
    &&& index < b@.len()
    &&& a@[index].transform == b@[index].transform
    &&& a.percent_at(index) ==> a@[index].parent == b@[index].parent && match a@[index].parent {
        Some(p) => p < index && same_branch(a, b, p as int),
        None => a.spec_screen() == b.spec_screen(),
    }
}

/// A widget in `Pixel` mode halts the composition of scales: the scale of a
/// widget depends on its ancestors up to the nearest one in `Pixel` mode, and
/// on nothing above.
pub proof fn pixel_ancestor_halts_composition<V: Copy>(a: Scene<V>, b: Scene<V>, index: int)
    requires
        a.resolves(index),
        same_branch(a, b, index),
    ensures
        a.scale_divisors(index) == b.scale_divisors(index),
    decreases index,
{
    if a.percent_at(index) {
        match a@[index].parent {
            Some(p) => {
                pixel_ancestor_halts_composition(a, b, p as int);
                assert(a.resolves(p as int) && same_branch(a, b, p as int));
            },
            None => {},
        }
    }
}

} // verus!
