//! The drag controller.

use vstd::prelude::*;
use crate::event::{Displacement, Frame, Motion, UiEvent, UiEventType};
use crate::frame::{
    admissible, begin, dragging_event, dropped_event, entity_of, frame, fresh, ingest, motion,
    moved, newly_concealed, restart, surviving, terminated, Ingested,
};
use crate::proofs::lemma_begin_entities;
use crate::scale::get_scale_for_entity;
use crate::scene::{Entity, Scene};
use crate::session::{distinct, dragging, lemma_filter_distinct, session_of, Session};
use crate::target::targeted_below;

verus! {

/// Tracks which widgets are being dragged, from frame to frame.
pub struct DragWidgetSystem<V> {
    /// One session for each widget that is being dragged, oldest first.
    record: Vec<Session<V>>,
}

impl<V: Copy> View for DragWidgetSystem<V> {
    type V = Seq<Session<V>>;

    closed spec fn view(&self) -> Seq<Session<V>> {
        self.record@
    }
}

impl<V: Copy> DragWidgetSystem<V> {
    /// A widget has at most one session.
    pub open spec fn wf(&self) -> bool {
        distinct(self@)
    }

    /// A controller that drags nothing.
    pub fn new() -> (system: Self)
        ensures
            system.wf(),
            system@ == Seq::<Session<V>>::empty(),
    {
        DragWidgetSystem { record: Vec::new() }
    }

    /// Number of widgets that are being dragged.
    pub fn len(&self) -> (n: usize)
        ensures
            n == self@.len(),
    {
        self.record.len()
    }

    /// Whether `entity` is being dragged.
    pub fn is_dragging(&self, entity: Entity) -> (yes: bool)
        ensures
            yes == dragging(self@, entity),
    {
        self.find(entity).is_some()
    }

    /// The session of `entity`, if it is being dragged.
    pub fn session(&self, entity: Entity) -> (session: Option<Session<V>>)
        requires
            self.wf(),
        ensures
            session is Some <==> dragging(self@, entity),
            session matches Some(s) ==> s == session_of(self@, entity),
    {
        match self.find(entity) {
            Some(i) => {
                proof {
                    let c = choose|c: int|
                        0 <= c < self@.len() && (#[trigger] self@[c]).entity == entity;
                    assert(self@[i as int].entity == entity);
                    assert(self@[c].entity == entity);
                }
                Some(self.record[i])
            },
            None => None,
        }
    }

    /// Whether a frame with these events can be carried out: whether every
    /// widget that is being dragged, or begins to be, is listed by the scene
    /// with a scale that can be resolved.
    pub fn can_run(&self, scene: &Scene<V>, events: &[UiEvent<V>]) -> (yes: bool)
        requires
            scene.wf(),
        ensures
            yes == admissible(self@, *scene, events@),
    {
        let mut i: usize = 0;
        while i < self.record.len()
            invariant
                i <= self@.len(),
                scene.wf(),
                forall|j: int| 0 <= j < i ==> scene.tracks((#[trigger] self@[j]).entity),
            decreases self@.len() - i,
        {
            if !scene.can_track(self.record[i].entity) {
                return false;
            }
            i += 1;
        }
        let mut k: usize = 0;
        while k < events.len()
            invariant
                k <= events@.len(),
                scene.wf(),
                forall|j: int| 0 <= j < self@.len() ==> scene.tracks((#[trigger] self@[j]).entity),
                forall|j: int|
                    0 <= j < k && (#[trigger] events@[j]).event_type is ClickStart
                        && scene.draggable(events@[j].target) ==> scene.tracks(events@[j].target),
            decreases events@.len() - k,
        {
            let event = &events[k];
            if let UiEventType::ClickStart = event.event_type {
                if scene.is_draggable(event.target) && !scene.can_track(event.target) {
                    return false;
                }
            }
            k += 1;
        }
        true
    }

    /// Carries out one frame with the pointer at `pointer` and the events that
    /// arrived since the previous frame, in the order of their arrival.
    ///
    /// The events are read: a `ClickStart` on a draggable widget begins a drag,
    /// a `ClickStop` on a dragged widget marks it. Dragged widgets that are
    /// hidden are marked too. Every session, marked or not, then yields a
    /// `Dragging` event and a motion, and records the pointer. Last, every
    /// marked widget yields a `Dropped` event and loses its session.
    pub fn run(&mut self, scene: &Scene<V>, pointer: V, events: &[UiEvent<V>]) -> (out: Frame<V>)
        requires
            old(self).wf(),
            scene.wf(),
            admissible(old(self)@, *scene, events@),
        ensures
            final(self).wf(),
            final(self)@ == frame(old(self)@, *scene, pointer, events@).sessions,
            out@.events == frame(old(self)@, *scene, pointer, events@).events,
            out@.motions == frame(old(self)@, *scene, pointer, events@).motions,
    {
        let mut stopped = self.read_events(scene, pointer, events);
        let ghost clicked = stopped@;
        self.mark_concealed(scene, &mut stopped);
        proof {
            assert forall|k: int| 0 <= k < stopped@.len() implies scene.tracks(
                #[trigger] stopped@[k],
            ) by {
                if clicked.contains(stopped@[k]) {
                    let c = choose|c: int| 0 <= c < clicked.len() && clicked[c] == stopped@[k];
                    assert(dragging(self@, clicked[c]));
                }
                let w = choose|w: int|
                    0 <= w < self@.len() && (#[trigger] self@[w]).entity == stopped@[k];
                assert(scene.tracks(self@[w].entity));
            }
        }
        let mut out = self.update(scene, pointer);
        let mut drops = self.drop_all(scene, &stopped);
        out.events.append(&mut drops);
        out
    }

    /// Reads the events of the frame in the order of their arrival, begins the
    /// drags that they begin, and returns the entities whose drag they end.
    fn read_events(&mut self, scene: &Scene<V>, pointer: V, events: &[UiEvent<V>]) -> (stopped:
        Vec<Entity>)
        requires
            old(self).wf(),
            scene.wf(),
            admissible(old(self)@, *scene, events@),
        ensures
            final(self).wf(),
            final(self)@ == ingest(old(self)@, *scene, pointer, events@).sessions,
            stopped@ == ingest(old(self)@, *scene, pointer, events@).stopped,
            forall|k: int|
                0 <= k < final(self)@.len() ==> scene.tracks((#[trigger] final(self)@[k]).entity),
            forall|k: int| 0 <= k < stopped@.len() ==> dragging(final(self)@, #[trigger] stopped@[k]),
    {
        let ghost before = self@;
        let mut stopped: Vec<Entity> = Vec::new();
        let mut i: usize = 0;
        while i < events.len()
            invariant
                i <= events@.len(),
                scene.wf(),
                self.wf(),
                admissible(before, *scene, events@),
                self@ == ingest(before, *scene, pointer, events@.take(i as int)).sessions,
                stopped@ == ingest(before, *scene, pointer, events@.take(i as int)).stopped,
                forall|k: int| 0 <= k < self@.len() ==> scene.tracks((#[trigger] self@[k]).entity),
                forall|k: int| 0 <= k < stopped@.len() ==> dragging(self@, #[trigger] stopped@[k]),
            decreases events@.len() - i,
        {
            let event = &events[i];
            proof {
                assert(events@.take(i + 1).drop_last() =~= events@.take(i as int));
                assert(events@.take(i + 1).last() == events@[i as int]);
            }
            match event.event_type {
                UiEventType::ClickStart => {
                    if scene.is_draggable(event.target) {
                        let ghost prior = self@;
                        self.begin(event.target, pointer);
                        proof {
                            lemma_begin_entities(prior, event.target, pointer);
                            assert forall|k: int| 0 <= k < stopped@.len() implies dragging(
                                self@,
                                #[trigger] stopped@[k],
                            ) by {
                                let w = choose|w: int|
                                    0 <= w < prior.len() && (#[trigger] prior[w]).entity
                                        == stopped@[k];
                                assert(self@[w].entity == stopped@[k]);
                            }
                        }
                    }
                },
                UiEventType::ClickStop => {
                    if self.is_dragging(event.target) && !listed(&stopped, event.target) {
                        stopped.push(event.target);
                    }
                },
                _ => {},
            }
            i += 1;
        }
        assert(events@.take(i as int) =~= events@);
        stopped
    }

    /// Adds to `stopped` every dragged widget that is hidden and not yet in it.
    fn mark_concealed(&self, scene: &Scene<V>, stopped: &mut Vec<Entity>)
        requires
            self.wf(),
            scene.wf(),
        ensures
            final(stopped)@ == terminated(
                Ingested { sessions: self@, stopped: old(stopped)@ },
                *scene,
            ),
            forall|k: int|
                0 <= k < final(stopped)@.len() ==> old(stopped)@.contains(
                    #[trigger] final(stopped)@[k],
                ) || dragging(self@, final(stopped)@[k]),
    {
        let ghost first = stopped@;
        let ghost unmarked = newly_concealed(*scene, first);
        let mut j: usize = 0;
        while j < self.record.len()
            invariant
                j <= self@.len(),
                self.wf(),
                scene.wf(),
                unmarked == newly_concealed(*scene, first),
                stopped@ == first + self@.take(j as int).filter(unmarked).map_values(entity_of()),
                forall|k: int|
                    0 <= k < stopped@.len() ==> first.contains(#[trigger] stopped@[k]) || dragging(
                        self@,
                        stopped@[k],
                    ),
            decreases self@.len() - j,
        {
            let entity = self.record[j].entity;
            let ghost added = self@.take(j as int).filter(unmarked).map_values(entity_of());
            proof {
                assert(self@.take(j + 1) =~= self@.take(j as int).push(self@[j as int]));
                self@.take(j as int).lemma_filter_push(self@[j as int], unmarked);
                self@.take(j as int).filter(unmarked).lemma_push_map_commute(
                    entity_of(),
                    self@[j as int],
                );
                lemma_not_yet_listed(self@, unmarked, j as int);
                assert(stopped@.contains(entity) <==> first.contains(entity)) by {
                    if stopped@.contains(entity) && !first.contains(entity) {
                        let w = choose|w: int| 0 <= w < stopped@.len() && stopped@[w] == entity;
                        assert(added[w - first.len()] == entity);
                    }
                    if first.contains(entity) {
                        let w = choose|w: int| 0 <= w < first.len() && first[w] == entity;
                        assert(stopped@[w] == entity);
                    }
                }
            }
            if scene.is_concealed(entity) && !listed(stopped, entity) {
                stopped.push(entity);
                proof {
                    assert(stopped@ =~= first + added.push(entity));
                    assert(self@[j as int].entity == entity);
                }
            }
            j += 1;
        }
        assert(self@.take(j as int) =~= self@);
    }

    /// Gives every session its `Dragging` event and its motion, and records
    /// the pointer in it.
    fn update(&mut self, scene: &Scene<V>, pointer: V) -> (out: Frame<V>)
        requires
            old(self).wf(),
            scene.wf(),
            forall|k: int|
                0 <= k < old(self)@.len() ==> scene.tracks((#[trigger] old(self)@[k]).entity),
        ensures
            final(self).wf(),
            final(self)@ == old(self)@.map_values(moved(pointer)),
            out.events@ == old(self)@.map_values(dragging_event(pointer)),
            out@.motions == old(self)@.map_values(motion(*scene, pointer)),
    {
        let ghost before = self@;
        let mut events: Vec<UiEvent<V>> = Vec::new();
        let mut motions: Vec<Motion<V>> = Vec::new();
        let mut k: usize = 0;
        while k < self.record.len()
            invariant
                k <= self@.len(),
                self@.len() == before.len(),
                scene.wf(),
                forall|j: int| 0 <= j < before.len() ==> scene.tracks((#[trigger] before[j]).entity),
                forall|j: int| 0 <= j < k ==> #[trigger] self@[j] == moved(pointer)(before[j]),
                forall|j: int| k <= j < before.len() ==> #[trigger] self@[j] == before[j],
                events@.len() == k,
                forall|j: int|
                    0 <= j < k ==> #[trigger] events@[j] == dragging_event(pointer)(before[j]),
                motions@.len() == k,
                forall|j: int|
                    0 <= j < k ==> (#[trigger] motions@[j])@ == motion(*scene, pointer)(before[j]),
            decreases self@.len() - k,
        {
            let session = self.record[k];
            assert(session == before[k as int]);
            assert(scene.tracks(before[k as int].entity));
            events.push(
                UiEvent::new(
                    UiEventType::Dragging {
                        offset_from_origin: Displacement { from: session.origin, to: pointer },
                        absolute_position: pointer,
                    },
                    session.entity,
                ),
            );
            let index = scene.widget_index(session.entity);
            let scale = get_scale_for_entity(index, scene);
            motions.push(
                Motion {
                    entity: session.entity,
                    change: Displacement { from: session.last, to: pointer },
                    scale,
                },
            );
            self.record.set(
                k,
                Session { entity: session.entity, origin: session.origin, last: pointer },
            );
            k += 1;
        }
        let out = Frame { events, motions };
        proof {
            assert(self@ =~= before.map_values(moved(pointer)));
            assert(out.events@ =~= before.map_values(dragging_event(pointer)));
            assert(out@.motions =~= before.map_values(motion(*scene, pointer)));
        }
        out
    }

    /// Gives every entity of `stopped` its `Dropped` event, and ends its
    /// session.
    fn drop_all(&mut self, scene: &Scene<V>, stopped: &Vec<Entity>) -> (drops: Vec<UiEvent<V>>)
        requires
            old(self).wf(),
            scene.wf(),
            forall|k: int| 0 <= k < stopped@.len() ==> scene.tracks(#[trigger] stopped@[k]),
        ensures
            final(self).wf(),
            final(self)@ == old(self)@.filter(surviving(stopped@)),
            drops@ == stopped@.map_values(dropped_event(*scene)),
    {
        let mut drops: Vec<UiEvent<V>> = Vec::new();
        let mut d: usize = 0;
        while d < stopped.len()
            invariant
                d <= stopped@.len(),
                scene.wf(),
                forall|k: int| 0 <= k < stopped@.len() ==> scene.tracks(#[trigger] stopped@[k]),
                drops@.len() == d,
                forall|j: int|
                    0 <= j < d ==> #[trigger] drops@[j] == dropped_event(*scene)(stopped@[j]),
            decreases stopped@.len() - d,
        {
            let entity = stopped[d];
            assert(scene.tracks(stopped@[d as int]));
            let index = scene.widget_index(entity);
            let height = scene.node(index).transform.unwrap().z;
            let target = targeted_below(scene, height);
            drops.push(UiEvent::new(UiEventType::Dropped { target }, entity));
            d += 1;
        }
        assert(drops@ =~= stopped@.map_values(dropped_event(*scene)));
        let mut kept: Vec<Session<V>> = Vec::new();
        let mut r: usize = 0;
        while r < self.record.len()
            invariant
                r <= self@.len(),
                kept@ == self@.take(r as int).filter(surviving(stopped@)),
            decreases self@.len() - r,
        {
            let session = self.record[r];
            proof {
                assert(self@.take(r + 1) =~= self@.take(r as int).push(self@[r as int]));
                self@.take(r as int).lemma_filter_push(self@[r as int], surviving(stopped@));
            }
            if !listed(stopped, session.entity) {
                kept.push(session);
            }
            r += 1;
        }
        proof {
            assert(self@.take(r as int) =~= self@);
            lemma_filter_distinct(self@, surviving(stopped@));
        }
        self.record = kept;
        drops
    }

    /// Begins a drag of `entity` with the pointer at `pointer`. A session that
    /// the entity had is overwritten.
    fn begin(&mut self, entity: Entity, pointer: V)
        requires
            old(self).wf(),
        ensures
            final(self).wf(),
            final(self)@ == begin(old(self)@, entity, pointer),
    {
        let session = Session { entity, origin: pointer, last: pointer };
        match self.find(entity) {
            Some(i) => {
                self.record.set(i, session);
                assert(self@ =~= old(self)@.map_values(restart(entity, fresh(entity, pointer))));
            },
            None => {
                self.record.push(session);
            },
        }
    }

    /// Where the record holds the session of `entity`.
    fn find(&self, entity: Entity) -> (index: Option<usize>)
        ensures
            index is Some <==> dragging(self@, entity),
            index matches Some(i) ==> i < self@.len() && self@[i as int].entity == entity,
    {
        let mut i: usize = 0;
        while i < self.record.len()
            invariant
                i <= self.record.len(),
                forall|j: int| 0 <= j < i ==> (#[trigger] self@[j]).entity != entity,
            decreases self.record.len() - i,
        {
            if self.record[i].entity == entity {
                return Some(i);
            }
            i += 1;
        }
        None
    }
}

/// Whether `entities` holds `entity`.
fn listed(entities: &Vec<Entity>, entity: Entity) -> (yes: bool)
    ensures
        yes == entities@.contains(entity),
{
    let mut i: usize = 0;
    while i < entities.len()
        invariant
            i <= entities@.len(),
            forall|j: int| 0 <= j < i ==> entities@[j] != entity,
        decreases entities@.len() - i,
    {
        if entities[i] == entity {
            return true;
        }
        i += 1;
    }
    false
}

/// The entity of a session is not among those of the sessions before it.
proof fn lemma_not_yet_listed<V>(
    sessions: Seq<Session<V>>,
    keep: spec_fn(Session<V>) -> bool,
    j: int,
)
    requires
        distinct(sessions),
        0 <= j < sessions.len(),
    ensures
        !sessions.take(j).filter(keep).map_values(entity_of()).contains(sessions[j].entity),
{
    let kept = sessions.take(j).filter(keep);
    let named = kept.map_values(entity_of());
    if named.contains(sessions[j].entity) {
        let a = choose|a: int| 0 <= a < named.len() && named[a] == sessions[j].entity;
        assert(kept.contains(kept[a]));
        sessions.take(j).lemma_filter_contains_rev(keep, kept[a]);
        let b = choose|b: int| 0 <= b < sessions.take(j).len() && sessions.take(j)[b] == kept[a];
        assert(sessions[b].entity == sessions[j].entity);
    }
}

} // verus!
