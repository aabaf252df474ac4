//! What one frame does, as a mathematical function of the sessions, the
//! scene, the pointer and the events that arrived.

use vstd::prelude::*;
use crate::event::{Displacement, MotionView, UiEvent, UiEventType};
use crate::scene::{Entity, Scene};
use crate::session::{dragging, Session};

verus! {

/// The sessions, and the entities marked for termination, while the events of
/// a frame are read.
pub struct Ingested<V> {
    /// The sessions, oldest first.
    pub sessions: Seq<Session<V>>,
    /// The entities whose drag ends in this frame, in the order in which they
    /// were marked, each once.
    pub stopped: Seq<Entity>,
}

/// The result of a frame.
pub struct Outcome<V> {
    /// The sessions that go on.
    pub sessions: Seq<Session<V>>,
    /// The events of the frame: one `Dragging` for each session, then one
    /// `Dropped` for each drag that ended.
    pub events: Seq<UiEvent<V>>,
    /// The motions of the frame, one for each session.
    pub motions: Seq<MotionView<V>>,
}

/// A session for `entity` that begins with the pointer at `pointer`.
pub open spec fn fresh<V>(entity: Entity, pointer: V) -> Session<V> {
    Session { entity, origin: pointer, last: pointer }
}

/// Replaces the session of `entity` by `session`, and leaves the others.
pub open spec fn restart<V>(entity: Entity, session: Session<V>) -> spec_fn(Session<V>) -> Session<
    V,
> {
    |s: Session<V>| if s.entity == entity { session } else { s }
}

/// The sessions after a drag of `entity` began at `pointer`: a session that
/// `entity` had is replaced in its place, else the new one comes last.
pub open spec fn begin<V>(sessions: Seq<Session<V>>, entity: Entity, pointer: V) -> Seq<
    Session<V>,
> {
    if dragging(sessions, entity) {
        sessions.map_values(restart(entity, fresh(entity, pointer)))
    } else {
        sessions.push(fresh(entity, pointer))
    }
}

/// `event` begins a drag of `entity`: it is a `ClickStart` on it, and the
/// scene lists it as draggable.
pub open spec fn begins<V: Copy>(event: UiEvent<V>, scene: Scene<V>, entity: Entity) -> bool {
    event.event_type is ClickStart && event.target == entity && scene.draggable(entity)
}

/// Reads one event. A `ClickStart` on a draggable widget begins a drag of it,
/// afresh if it was being dragged. A `ClickStop` on a widget that is being
/// dragged marks it, once. Every other event changes nothing.
pub open spec fn ingest_event<V: Copy>(
    state: Ingested<V>,
    scene: Scene<V>,
    pointer: V,
    event: UiEvent<V>,
) -> Ingested<V> {
    match event.event_type {
        UiEventType::ClickStart => if begins(event, scene, event.target) {
            Ingested {
                sessions: begin(state.sessions, event.target, pointer),
                stopped: state.stopped,
            }
        } else {
            state
        },
        UiEventType::ClickStop => if dragging(state.sessions, event.target)
            && !state.stopped.contains(event.target) {
            Ingested { sessions: state.sessions, stopped: state.stopped.push(event.target) }
        } else {
            state
        },
        _ => state,
    }
}

/// Reads the events of a frame in the order of their arrival.
pub open spec fn ingest<V: Copy>(
    sessions: Seq<Session<V>>,
    scene: Scene<V>,
    pointer: V,
    events: Seq<UiEvent<V>>,
) -> Ingested<V>
    decreases events.len(),
{
    if events.len() == 0 {
        Ingested { sessions, stopped: Seq::empty() }
    } else {
        ingest_event(
            ingest(sessions, scene, pointer, events.drop_last()),
            scene,
            pointer,
            events.last(),
        )
    }
}

/// The session's widget is hidden and not in `marked`.
pub open spec fn newly_concealed<V: Copy>(scene: Scene<V>, marked: Seq<Entity>) -> spec_fn(
    Session<V>,
) -> bool {
    |s: Session<V>| scene.concealed(s.entity) && !marked.contains(s.entity)
}

/// The entity of a session.
pub open spec fn entity_of<V>() -> spec_fn(Session<V>) -> Entity {
    |s: Session<V>| s.entity
}

/// The entities whose drag ends in the frame: those that a `ClickStop`
/// marked, then the dragged widgets that are hidden, in the order of their
/// sessions.
pub open spec fn terminated<V: Copy>(state: Ingested<V>, scene: Scene<V>) -> Seq<Entity> {
    state.stopped + state.sessions.filter(newly_concealed(scene, state.stopped)).map_values(
        entity_of(),
    )
}

/// The session with the pointer's position recorded.
pub open spec fn moved<V>(pointer: V) -> spec_fn(Session<V>) -> Session<V> {
    |s: Session<V>| Session { entity: s.entity, origin: s.origin, last: pointer }
}

/// The `Dragging` event of a session: the offset from the drag's origin to the
/// pointer, and the pointer's position.
pub open spec fn dragging_event<V>(pointer: V) -> spec_fn(Session<V>) -> UiEvent<V> {
    |s: Session<V>|
        UiEvent {
            event_type: UiEventType::Dragging {
                offset_from_origin: Displacement { from: s.origin, to: pointer },
                absolute_position: pointer,
            },
            target: s.entity,
        }
}

/// The motion of a session's widget: the pointer's movement since the previous
/// frame, under the scale that the widget inherits.
pub open spec fn motion<V: Copy>(scene: Scene<V>, pointer: V) -> spec_fn(Session<V>) -> MotionView<
    V,
> {
    |s: Session<V>|
        MotionView {
            entity: s.entity,
            change: Displacement { from: s.last, to: pointer },
            scale: scene.scale_divisors(scene.position(s.entity)),
        }
}

/// The `Dropped` event of a widget whose drag ended: it names the top match
/// below the widget's own place in the stacking order.
pub open spec fn dropped_event<V: Copy>(scene: Scene<V>) -> spec_fn(Entity) -> UiEvent<V> {
    |entity: Entity|
        UiEvent {
            event_type: UiEventType::Dropped {
                target: scene.top_match(scene.z_at(scene.position(entity))),
            },
            target: entity,
        }
}

/// The session's drag did not end.
pub open spec fn surviving<V>(stopped: Seq<Entity>) -> spec_fn(Session<V>) -> bool {
    |s: Session<V>| !stopped.contains(s.entity)
}

/// One frame. The events are read, and the hidden widgets marked. Then every
/// session, marked or not, yields its `Dragging` event and its motion, and
/// records the pointer. Then every marked entity yields its `Dropped` event
/// and loses its session.
pub open spec fn frame<V: Copy>(
    sessions: Seq<Session<V>>,
    scene: Scene<V>,
    pointer: V,
    events: Seq<UiEvent<V>>,
) -> Outcome<V> {
    let read = ingest(sessions, scene, pointer, events);
    let stopped = terminated(read, scene);
    Outcome {
        sessions: read.sessions.map_values(moved(pointer)).filter(surviving(stopped)),
        events: read.sessions.map_values(dragging_event(pointer)) + stopped.map_values(
            dropped_event(scene),
        ),
        motions: read.sessions.map_values(motion(scene, pointer)),
    }
}

/// The frame can be carried out: every widget that is being dragged, or begins
/// to be with one of `events`, is listed by the scene with a scale that can be
/// resolved.
pub open spec fn admissible<V: Copy>(
    sessions: Seq<Session<V>>,
    scene: Scene<V>,
    events: Seq<UiEvent<V>>,
) -> bool {
    &&& forall|i: int| 0 <= i < sessions.len() ==> scene.tracks((#[trigger] sessions[i]).entity)
    &&& forall|k: int|
        0 <= k < events.len() && begins(#[trigger] events[k], scene, events[k].target)
            ==> scene.tracks(events[k].target)
}

} // verus!
