//! The events that the controller consumes and produces, and the motions it
//! asks for.

use vstd::prelude::*;
use crate::scale::Scale;
use crate::scene::Entity;

verus! {

/// The vector that leads from one point to another: `to - from`.
#[derive(Debug, PartialEq)]
pub struct Displacement<V> {
    /// Where the vector starts.
    pub from: V,
    /// Where the vector ends.
    pub to: V,
}

impl<V: Copy> Clone for Displacement<V> {
    fn clone(&self) -> (copy: Self)
        ensures
            copy == *self,
    {
        *self
    }
}

impl<V: Copy> Copy for Displacement<V> {}

/// The kinds of UI event.
#[derive(Debug, PartialEq)]
pub enum UiEventType<V> {
    /// The pointer was pressed on the target.
    ClickStart,
    /// The pointer was released on the target.
    ClickStop,
    /// The target is being dragged.
    Dragging {
        /// From the pointer's position when the drag began to its position now.
        offset_from_origin: Displacement<V>,
        /// The pointer's position now.
        absolute_position: V,
    },
    /// The target was dropped, on the named entity or on none.
    Dropped {
        /// The entity that the target was dropped on.
        target: Option<Entity>,
    },
    /// Any kind that the drag controller neither consumes nor produces.
    Other,
}

impl<V: Copy> Clone for UiEventType<V> {
    fn clone(&self) -> (copy: Self)
        ensures
            copy == *self,
    {
        *self
    }
}

impl<V: Copy> Copy for UiEventType<V> {}

/// An event addressed to an entity.
#[derive(Debug, PartialEq)]
pub struct UiEvent<V> {
    /// What happened.
    pub event_type: UiEventType<V>,
    /// The entity that it happened to.
    pub target: Entity,
}

impl<V: Copy> Clone for UiEvent<V> {
    fn clone(&self) -> (copy: Self)
        ensures
            copy == *self,
    {
        *self
    }
}

impl<V: Copy> Copy for UiEvent<V> {}

impl<V: Copy> UiEvent<V> {
    /// An event of the given kind for `target`.
    pub fn new(event_type: UiEventType<V>, target: Entity) -> (event: Self)
        ensures
            event == (UiEvent { event_type, target }),
    {
        UiEvent { event_type, target }
    }
}

/// A change of a widget's local position: `change`, multiplied component-wise
/// by `scale`, is to be added to it.
#[derive(Debug, PartialEq)]
pub struct Motion<V> {
    /// The widget that moves.
    pub entity: Entity,
    /// The pointer's movement since the previous frame.
    pub change: Displacement<V>,
    /// The scale that the widget inherits from its ancestors.
    pub scale: Scale<V>,
}

/// A [`Motion`] as a mathematical value.
pub struct MotionView<V> {
    /// The widget that moves.
    pub entity: Entity,
    /// The pointer's movement since the previous frame.
    pub change: Displacement<V>,
    /// The divisors of the scale, outermost first.
    pub scale: Seq<V>,
}

impl<V> View for Motion<V> {
    type V = MotionView<V>;

    open spec fn view(&self) -> MotionView<V> {
        MotionView { entity: self.entity, change: self.change, scale: self.scale@ }
    }
}

/// What the controller asks for in one frame.
#[derive(Debug, PartialEq)]
pub struct Frame<V> {
    /// The events to publish, in this order.
    pub events: Vec<UiEvent<V>>,
    /// The motions to apply to the widgets' local positions.
    pub motions: Vec<Motion<V>>,
}

/// A [`Frame`] as a mathematical value.
pub struct FrameView<V> {
    /// The events to publish, in this order.
    pub events: Seq<UiEvent<V>>,
    /// The motions to apply.
    pub motions: Seq<MotionView<V>>,
}

impl<V> View for Frame<V> {
    type V = FrameView<V>;

    open spec fn view(&self) -> FrameView<V> {
        FrameView {
            events: self.events@,
            motions: self.motions@.map_values(|m: Motion<V>| m@),
        }
    }
}

} // verus!
