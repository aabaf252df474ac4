//! Drag sessions.

use vstd::prelude::*;
use crate::scene::Entity;

verus! {

/// The state of one drag: which widget is dragged, where the pointer was when
/// the drag began, and where it was in the previous frame.
#[derive(Debug, PartialEq)]
pub struct Session<V> {
    /// The dragged widget.
    pub entity: Entity,
    /// The pointer's position when the drag began.
    pub origin: V,
    /// The pointer's position in the previous frame.
    pub last: V,
}

impl<V: Copy> Clone for Session<V> {
    fn clone(&self) -> (copy: Self)
        ensures
            copy == *self,
    {
        *self
    }
}

impl<V: Copy> Copy for Session<V> {}

/// Some session of `sessions` belongs to `entity`.
pub open spec fn dragging<V>(sessions: Seq<Session<V>>, entity: Entity) -> bool {
    exists|i: int| 0 <= i < sessions.len() && (#[trigger] sessions[i]).entity == entity
}

/// No two sessions belong to the same entity.
pub open spec fn distinct<V>(sessions: Seq<Session<V>>) -> bool {
    forall|i: int, j: int|
        0 <= i < j < sessions.len() ==> (#[trigger] sessions[i]).entity != (
        #[trigger] sessions[j]).entity
}

/// The session of `entity`, where it has one.
pub open spec fn session_of<V>(sessions: Seq<Session<V>>, entity: Entity) -> Session<V> {
    sessions[choose|i: int| 0 <= i < sessions.len() && (#[trigger] sessions[i]).entity == entity]
}

/// Sessions that were distinct stay so when some of them are dropped.
pub proof fn lemma_filter_distinct<V>(
    sessions: Seq<Session<V>>,
    keep: spec_fn(Session<V>) -> bool,
)
    requires
        distinct(sessions),
    ensures
        distinct(sessions.filter(keep)),
    decreases sessions.len(),
{
    reveal(Seq::filter);
    if sessions.len() > 0 {
        let rest = sessions.drop_last();
        let kept = rest.filter(keep);
        lemma_filter_distinct(rest, keep);
        if keep(sessions.last()) {
            assert forall|i: int| 0 <= i < kept.len() implies (#[trigger] kept[i]).entity
                != sessions.last().entity by {
                assert(kept.contains(kept[i]));
                rest.lemma_filter_contains_rev(keep, kept[i]);
                let b = choose|b: int| 0 <= b < rest.len() && rest[b] == kept[i];
                assert(sessions[b].entity != sessions[sessions.len() - 1].entity);
            }
        }
    }
}

} // verus!
