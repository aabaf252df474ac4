//! Lemmas about what a frame does.

use vstd::prelude::*;
use crate::event::UiEvent;
use crate::frame::{
    begin, begins, entity_of, frame, fresh, ingest, ingest_event, moved, newly_concealed,
    surviving, terminated, Ingested,
};
use crate::scene::{Entity, Scene};
use crate::session::{distinct, dragging, lemma_filter_distinct, Session};

verus! {

/// A drag that begins keeps the entities of the sessions in their places, and
/// adds at most the one that it begins for.
pub proof fn lemma_begin_entities<V>(sessions: Seq<Session<V>>, entity: Entity, pointer: V)
    ensures
        sessions.len() <= begin(sessions, entity, pointer).len() <= sessions.len() + 1,
        dragging(begin(sessions, entity, pointer), entity),
        forall|k: int|
            0 <= k < begin(sessions, entity, pointer).len() ==> (#[trigger] begin(
                sessions,
                entity,
                pointer,
            )[k]).entity == (if k < sessions.len() {
                sessions[k].entity
            } else {
                entity
            }),
{
    let after = begin(sessions, entity, pointer);
    if dragging(sessions, entity) {
        let w = choose|w: int| 0 <= w < sessions.len() && (#[trigger] sessions[w]).entity == entity;
        assert(after[w].entity == entity);
    } else {
        assert(after[sessions.len() as int].entity == entity);
    }
}

/// A drag that begins leaves the sessions of other entities as they were, and
/// leaves a fresh session for its own.
pub proof fn lemma_begin_sessions<V>(sessions: Seq<Session<V>>, entity: Entity, pointer: V)
    ensures
        begin(sessions, entity, pointer).contains(fresh(entity, pointer)),
        forall|s: Session<V>|
            sessions.contains(s) && s.entity != entity ==> #[trigger] begin(
                sessions,
                entity,
                pointer,
            ).contains(s),
        forall|i: int|
            0 <= i < begin(sessions, entity, pointer).len() ==> (#[trigger] begin(
                sessions,
                entity,
                pointer,
            )[i]) == fresh(entity, pointer) || (i < sessions.len() && begin(
                sessions,
                entity,
                pointer,
            )[i] == sessions[i]),
{
    let after = begin(sessions, entity, pointer);
    if dragging(sessions, entity) {
        let w = choose|w: int| 0 <= w < sessions.len() && (#[trigger] sessions[w]).entity == entity;
        assert(after[w] == fresh(entity, pointer));
    } else {
        assert(after[sessions.len() as int] == fresh(entity, pointer));
    }
    assert forall|s: Session<V>| sessions.contains(s) && s.entity != entity implies #[trigger] after.contains(
        s,
    ) by {
        let w = choose|w: int| 0 <= w < sessions.len() && sessions[w] == s;
        assert(after[w] == s);
    }
}

/// Sessions that are distinct stay so when a drag begins.
pub proof fn lemma_begin_distinct<V>(sessions: Seq<Session<V>>, entity: Entity, pointer: V)
    requires
        distinct(sessions),
    ensures
        distinct(begin(sessions, entity, pointer)),
{
    lemma_begin_entities(sessions, entity, pointer);
    let after = begin(sessions, entity, pointer);
    assert forall|i: int, j: int| 0 <= i < j < after.len() implies (#[trigger] after[i]).entity != (
    #[trigger] after[j]).entity by {
        if j >= sessions.len() {
            assert(!dragging(sessions, entity));
            assert(sessions[i].entity != entity);
        } else {
            assert(sessions[i].entity != sessions[j].entity);
        }
    }
}

/// Reading an event ends no drag and unmarks nothing.
pub proof fn lemma_event_monotone<V: Copy>(
    state: Ingested<V>,
    scene: Scene<V>,
    pointer: V,
    event: UiEvent<V>,
)
    ensures
        forall|e: Entity|
            dragging(state.sessions, e) ==> #[trigger] dragging(
                ingest_event(state, scene, pointer, event).sessions,
                e,
            ),
        forall|e: Entity|
            state.stopped.contains(e) ==> #[trigger] ingest_event(
                state,
                scene,
                pointer,
                event,
            ).stopped.contains(e),
{
    let next = ingest_event(state, scene, pointer, event);
    lemma_begin_entities(state.sessions, event.target, pointer);
    assert forall|e: Entity| dragging(state.sessions, e) implies #[trigger] dragging(
        next.sessions,
        e,
    ) by {
        let w = choose|w: int|
            0 <= w < state.sessions.len() && (#[trigger] state.sessions[w]).entity == e;
        assert(next.sessions[w].entity == e);
    }
    assert forall|e: Entity| state.stopped.contains(e) implies #[trigger] next.stopped.contains(
        e,
    ) by {
        let w = choose|w: int| 0 <= w < state.stopped.len() && state.stopped[w] == e;
        assert(next.stopped[w] == e);
    }
}

/// Reading the first `k + 1` events is reading the first `k`, then one more.
pub proof fn lemma_ingest_next<V: Copy>(
    sessions: Seq<Session<V>>,
    scene: Scene<V>,
    pointer: V,
    events: Seq<UiEvent<V>>,
    k: int,
)
    requires
        0 <= k < events.len(),
    ensures
        ingest(sessions, scene, pointer, events.take(k + 1)) == ingest_event(
            ingest(sessions, scene, pointer, events.take(k)),
            scene,
            pointer,
            events[k],
        ),
{
    assert(events.take(k + 1).drop_last() =~= events.take(k));
}

/// While the events are read the sessions stay distinct, no entity is marked
/// twice, and only dragged entities are marked.
pub proof fn lemma_ingest_wf<V: Copy>(
    sessions: Seq<Session<V>>,
    scene: Scene<V>,
    pointer: V,
    events: Seq<UiEvent<V>>,
)
    requires
        distinct(sessions),
    ensures
        distinct(ingest(sessions, scene, pointer, events).sessions),
        ingest(sessions, scene, pointer, events).stopped.no_duplicates(),
        forall|i: int|
            0 <= i < ingest(sessions, scene, pointer, events).stopped.len() ==> dragging(
                ingest(sessions, scene, pointer, events).sessions,
                #[trigger] ingest(sessions, scene, pointer, events).stopped[i],
            ),
    decreases events.len(),
{
    if events.len() > 0 {
        let before = ingest(sessions, scene, pointer, events.drop_last());
        let after = ingest(sessions, scene, pointer, events);
        lemma_ingest_wf(sessions, scene, pointer, events.drop_last());
        lemma_begin_distinct(before.sessions, events.last().target, pointer);
        lemma_event_monotone(before, scene, pointer, events.last());
        assert forall|i: int| 0 <= i < after.stopped.len() implies dragging(
            after.sessions,
            #[trigger] after.stopped[i],
        ) by {
            if i < before.stopped.len() {
                assert(after.stopped[i] == before.stopped[i]);
                assert(dragging(before.sessions, before.stopped[i]));
            }
        }
    }
}

/// What the first `k` events began or marked is still so when all are read.
pub proof fn lemma_ingest_monotone<V: Copy>(
    sessions: Seq<Session<V>>,
    scene: Scene<V>,
    pointer: V,
    events: Seq<UiEvent<V>>,
    k: int,
)
    requires
        0 <= k <= events.len(),
    ensures
        forall|e: Entity|
            dragging(ingest(sessions, scene, pointer, events.take(k)).sessions, e)
                ==> #[trigger] dragging(ingest(sessions, scene, pointer, events).sessions, e),
        forall|e: Entity|
            ingest(sessions, scene, pointer, events.take(k)).stopped.contains(e)
                ==> #[trigger] ingest(sessions, scene, pointer, events).stopped.contains(e),
    decreases events.len(),
{
    if k == events.len() {
        assert(events.take(k) =~= events);
    } else {
        let rest = events.drop_last();
        assert(rest.take(k) =~= events.take(k));
        lemma_ingest_monotone(sessions, scene, pointer, rest, k);
        lemma_event_monotone(
            ingest(sessions, scene, pointer, rest),
            scene,
            pointer,
            events.last(),
        );
    }
}

/// Reading an event keeps a session, unless the event begins the drag afresh;
/// and then it leaves a fresh session.
pub proof fn lemma_event_keeps_session<V: Copy>(
    state: Ingested<V>,
    scene: Scene<V>,
    pointer: V,
    event: UiEvent<V>,
    session: Session<V>,
)
    requires
        state.sessions.contains(session),
        begins(event, scene, session.entity) ==> session == fresh(session.entity, pointer),
    ensures
        ingest_event(state, scene, pointer, event).sessions.contains(session),
{
    lemma_begin_sessions(state.sessions, event.target, pointer);
}

/// Reading events keeps a session, unless one of them begins the drag afresh;
/// and then it leaves a fresh session.
pub proof fn lemma_ingest_keeps_session<V: Copy>(
    sessions: Seq<Session<V>>,
    scene: Scene<V>,
    pointer: V,
    events: Seq<UiEvent<V>>,
    session: Session<V>,
)
    requires
        sessions.contains(session),
        session == fresh(session.entity, pointer) || forall|k: int|
            0 <= k < events.len() ==> !begins(#[trigger] events[k], scene, session.entity),
    ensures
        ingest(sessions, scene, pointer, events).sessions.contains(session),
    decreases events.len(),
{
    if events.len() > 0 {
        let rest = events.drop_last();
        assert(forall|k: int| 0 <= k < rest.len() ==> rest[k] == events[k]);
        lemma_ingest_keeps_session(sessions, scene, pointer, rest, session);
        assert(events.last() == events[events.len() - 1]);
        lemma_event_keeps_session(
            ingest(sessions, scene, pointer, rest),
            scene,
            pointer,
            events.last(),
            session,
        );
    }
}

/// Once an event has begun a drag of `entity`, the entity has a fresh session
/// when all events are read.
pub proof fn lemma_ingest_begins<V: Copy>(
    sessions: Seq<Session<V>>,
    scene: Scene<V>,
    pointer: V,
    events: Seq<UiEvent<V>>,
    k: int,
    entity: Entity,
)
    requires
        0 <= k < events.len(),
        begins(events[k], scene, entity),
    ensures
        ingest(sessions, scene, pointer, events).sessions.contains(fresh(entity, pointer)),
    decreases events.len(),
{
    let rest = events.drop_last();
    let before = ingest(sessions, scene, pointer, rest);
    if k == events.len() - 1 {
        lemma_begin_sessions(before.sessions, entity, pointer);
    } else {
        lemma_ingest_begins(sessions, scene, pointer, rest, k, entity);
        lemma_event_keeps_session(before, scene, pointer, events.last(), fresh(entity, pointer));
    }
}

/// Events that neither begin nor end a drag change nothing.
pub proof fn lemma_ingest_ignores<V: Copy>(
    sessions: Seq<Session<V>>,
    scene: Scene<V>,
    pointer: V,
    events: Seq<UiEvent<V>>,
)
    requires
        forall|k: int|
            0 <= k < events.len() ==> (#[trigger] events[k]).event_type !is ClickStart
                && events[k].event_type !is ClickStop,
    ensures
        ingest(sessions, scene, pointer, events) == (Ingested {
            sessions,
            stopped: Seq::<Entity>::empty(),
        }),
    decreases events.len(),
{
    if events.len() > 0 {
        let rest = events.drop_last();
        assert(forall|k: int| 0 <= k < rest.len() ==> rest[k] == events[k]);
        lemma_ingest_ignores(sessions, scene, pointer, rest);
        assert(events.last() == events[events.len() - 1]);
    }
}

/// A filter that every element passes changes nothing.
pub proof fn lemma_filter_all<A>(s: Seq<A>, keep: spec_fn(A) -> bool)
    requires
        forall|i: int| 0 <= i < s.len() ==> keep(#[trigger] s[i]),
    ensures
        s.filter(keep) == s,
    decreases s.len(),
{
    reveal(Seq::filter);
    if s.len() > 0 {
        lemma_filter_all(s.drop_last(), keep);
        assert(s.drop_last().push(s.last()) =~= s);
    }
}

/// A filter that no element passes leaves nothing.
pub proof fn lemma_filter_none<A>(s: Seq<A>, keep: spec_fn(A) -> bool)
    requires
        forall|i: int| 0 <= i < s.len() ==> !keep(#[trigger] s[i]),
    ensures
        s.filter(keep) == Seq::<A>::empty(),
    decreases s.len(),
{
    reveal(Seq::filter);
    if s.len() > 0 {
        lemma_filter_none(s.drop_last(), keep);
    }
}

/// The drag of `entity` ends in the frame exactly if a `ClickStop` marked it
/// or it is dragged and hidden.
pub proof fn lemma_terminated_contains<V: Copy>(
    state: Ingested<V>,
    scene: Scene<V>,
    entity: Entity,
)
    ensures
        terminated(state, scene).contains(entity) <==> state.stopped.contains(entity) || (
        dragging(state.sessions, entity) && scene.concealed(entity)),
{
    let keep = newly_concealed(scene, state.stopped);
    let kept = state.sessions.filter(keep);
    let hidden = kept.map_values(entity_of());
    let all = terminated(state, scene);
    if all.contains(entity) && !state.stopped.contains(entity) {
        let w = choose|w: int| 0 <= w < all.len() && all[w] == entity;
        let a = w - state.stopped.len();
        assert(hidden[a] == entity);
        assert(kept.contains(kept[a]));
        state.sessions.lemma_filter_pred(keep, a);
        state.sessions.lemma_filter_contains_rev(keep, kept[a]);
        let b = choose|b: int| 0 <= b < state.sessions.len() && state.sessions[b] == kept[a];
        assert(state.sessions[b].entity == entity);
    }
    if state.stopped.contains(entity) {
        let w = choose|w: int| 0 <= w < state.stopped.len() && state.stopped[w] == entity;
        assert(all[w] == entity);
    } else if dragging(state.sessions, entity) && scene.concealed(entity) {
        let b = choose|b: int|
            0 <= b < state.sessions.len() && (#[trigger] state.sessions[b]).entity == entity;
        state.sessions.lemma_filter_contains(keep, b);
        let a = choose|a: int| 0 <= a < kept.len() && kept[a] == state.sessions[b];
        assert(hidden[a] == entity);
        assert(all[state.stopped.len() + a] == entity);
    }
}

/// No drag ends twice in a frame.
pub proof fn lemma_terminated_once<V: Copy>(state: Ingested<V>, scene: Scene<V>)
    requires
        distinct(state.sessions),
        state.stopped.no_duplicates(),
    ensures
        terminated(state, scene).no_duplicates(),
{
    let keep = newly_concealed(scene, state.stopped);
    let kept = state.sessions.filter(keep);
    let hidden = kept.map_values(entity_of());
    let all = terminated(state, scene);
    lemma_filter_distinct(state.sessions, keep);
    assert forall|i: int, j: int| 0 <= i < j < all.len() implies all[i] != all[j] by {
        let n = state.stopped.len() as int;
        if j < n {
        } else if i >= n {
            assert(kept[i - n].entity != kept[j - n].entity);
        } else {
            state.sessions.lemma_filter_pred(keep, j - n);
            assert(keep(kept[j - n]));
            assert(state.stopped[i] == all[i]);
        }
    }
}

/// After the frame `entity` is dragged exactly if it was when the events were
/// read and its drag did not end.
pub proof fn lemma_frame_dragging<V: Copy>(
    sessions: Seq<Session<V>>,
    scene: Scene<V>,
    pointer: V,
    events: Seq<UiEvent<V>>,
    entity: Entity,
)
    ensures
        dragging(frame(sessions, scene, pointer, events).sessions, entity) <==> dragging(
            ingest(sessions, scene, pointer, events).sessions,
            entity,
        ) && !terminated(ingest(sessions, scene, pointer, events), scene).contains(entity),
{
    let read = ingest(sessions, scene, pointer, events);
    let stopped = terminated(read, scene);
    let touched = read.sessions.map_values(moved(pointer));
    let after = touched.filter(surviving(stopped));
    if dragging(after, entity) {
        let a = choose|a: int| 0 <= a < after.len() && (#[trigger] after[a]).entity == entity;
        assert(after.contains(after[a]));
        touched.lemma_filter_pred(surviving(stopped), a);
        touched.lemma_filter_contains_rev(surviving(stopped), after[a]);
        let b = choose|b: int| 0 <= b < touched.len() && touched[b] == after[a];
        assert(read.sessions[b].entity == entity);
    }
    if dragging(read.sessions, entity) && !stopped.contains(entity) {
        let b = choose|b: int|
            0 <= b < read.sessions.len() && (#[trigger] read.sessions[b]).entity == entity;
        assert(touched[b].entity == entity);
        touched.lemma_filter_contains(surviving(stopped), b);
        let a = choose|a: int| 0 <= a < after.len() && after[a] == touched[b];
        assert(after[a].entity == entity);
    }
}

/// A session whose drag does not end goes on with the pointer recorded.
pub proof fn lemma_frame_keeps<V: Copy>(
    sessions: Seq<Session<V>>,
    scene: Scene<V>,
    pointer: V,
    events: Seq<UiEvent<V>>,
    session: Session<V>,
)
    requires
        ingest(sessions, scene, pointer, events).sessions.contains(session),
        !terminated(ingest(sessions, scene, pointer, events), scene).contains(session.entity),
    ensures
        frame(sessions, scene, pointer, events).sessions.contains(moved(pointer)(session)),
{
    let read = ingest(sessions, scene, pointer, events);
    let stopped = terminated(read, scene);
    let touched = read.sessions.map_values(moved(pointer));
    let b = choose|b: int| 0 <= b < read.sessions.len() && read.sessions[b] == session;
    assert(touched[b] == moved(pointer)(session));
    touched.lemma_filter_contains(surviving(stopped), b);
}

/// The sessions stay distinct from frame to frame.
pub proof fn lemma_frame_distinct<V: Copy>(
    sessions: Seq<Session<V>>,
    scene: Scene<V>,
    pointer: V,
    events: Seq<UiEvent<V>>,
)
    requires
        distinct(sessions),
    ensures
        distinct(frame(sessions, scene, pointer, events).sessions),
{
    let read = ingest(sessions, scene, pointer, events);
    lemma_ingest_wf(sessions, scene, pointer, events);
    let touched = read.sessions.map_values(moved(pointer));
    assert(distinct(touched)) by {
        assert forall|i: int, j: int| 0 <= i < j < touched.len() implies (#[trigger] touched[i]).entity
            != (#[trigger] touched[j]).entity by {
            assert(read.sessions[i].entity != read.sessions[j].entity);
        }
    }
    lemma_filter_distinct(touched, surviving(terminated(read, scene)));
}

} // verus!
