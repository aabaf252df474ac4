//! The scale that a widget inherits from its ancestors.
//!
//! A widget in `Pixel` mode moves one to one with the pointer. A widget in
//! `Percent` mode measures its position in its parent's dimensions, so a
//! pointer movement is divided by them, and by whatever the parent's own scale
//! divides by. The scale is therefore the reciprocal of a product, and it is
//! represented by the factors of that product.

use vstd::prelude::*;
use crate::scene::{Entity, ScaleMode, Scene};

verus! {

/// A pair of scale factors: one, divided component-wise by each of the
/// divisors in turn, first to last. No divisor at all is the scale (1, 1).
#[derive(Debug, PartialEq)]
pub struct Scale<V> {
    /// Width and height pairs to divide by, outermost first.
    pub divisors: Vec<V>,
}

impl<V> View for Scale<V> {
    type V = Seq<V>;

    open spec fn view(&self) -> Seq<V> {
        self.divisors@
    }
}

impl<V: Copy> Scene<V> {
    /// The scale of the widget at `index` can be resolved: the widget has a
    /// transform, and so has every ancestor that the composition reaches.
    pub open spec fn resolves(&self, index: int) -> bool
        decreases index,
    {
        if 0 <= index < self@.len() {
            match self@[index].transform {
                None => false,
                Some(t) => match (t.scale_mode, self@[index].parent) {
                    (ScaleMode::Percent, Some(p)) => p < index && self.resolves(p as int),
                    _ => true,
                },
            }
        } else {
            false
        }
    }

    /// What a pointer movement is divided by to move the widget at `index`,
    /// outermost divisor first.
    ///
    /// Nothing for a widget in `Pixel` mode. For one in `Percent` mode: the
    /// screen's dimensions if it has no parent; else the divisors of the
    /// parent, followed by the parent's dimensions (the screen's where the
    /// parent has no transform).
    pub open spec fn scale_divisors(&self, index: int) -> Seq<V>
        decreases index,
    {
        if 0 <= index < self@.len() && self.percent_at(index) {
            match self@[index].parent {
                None => seq![self.spec_screen()],
                Some(p) => if p < index {
                    self.scale_divisors(p as int).push(self.extent_at(p as int))
                } else {
                    Seq::empty()
                },
            }
        } else {
            Seq::empty()
        }
    }

    /// The entity at `index` has a transform in `Percent` mode.
    pub open spec fn percent_at(&self, index: int) -> bool {
        self@[index].transform matches Some(t) && t.scale_mode == ScaleMode::Percent
    }

    /// Width and height of the widget at `index`; the screen's for an entity
    /// without a transform.
    pub open spec fn extent_at(&self, index: int) -> V {
        match self@[index].transform {
            Some(t) => t.extent,
            None => self.spec_screen(),
        }
    }

    /// The scene lists `entity` as a widget whose scale can be resolved.
    pub open spec fn tracks(&self, entity: Entity) -> bool {
        exists|i: int|
            0 <= i < self@.len() && (#[trigger] self@[i]).entity == entity && self.resolves(i)
    }

    /// Whether `entity` is a widget whose scale can be resolved.
    pub fn can_track(&self, entity: Entity) -> (yes: bool)
        requires
            self.wf(),
        ensures
            yes == self.tracks(entity),
    {
        match self.index_of(entity) {
            Some(i) => {
                assert(self@[i as int].entity == entity);
                self.can_resolve(i)
            },
            None => false,
        }
    }

    /// Where the scene lists a widget whose scale can be resolved.
    pub fn widget_index(&self, entity: Entity) -> (index: usize)
        requires
            self.wf(),
            self.tracks(entity),
        ensures
            index == self.position(entity),
            index < self@.len(),
            self@[index as int].entity == entity,
            self.resolves(index as int),
    {
        let index = self.index_of(entity).unwrap();
        assert(self@[index as int].entity == entity);
        index
    }

    /// Whether the scale of the widget at `index` can be resolved.
    pub fn can_resolve(&self, index: usize) -> (yes: bool)
        requires
            self.wf(),
        ensures
            yes == self.resolves(index as int),
        decreases index,
    {
        if index >= self.len() {
            return false;
        }
        let node = self.node(index);
        match node.transform {
            None => false,
            Some(t) => match (t.scale_mode, node.parent) {
                (ScaleMode::Percent, Some(p)) => self.can_resolve(p),
                _ => true,
            },
        }
    }
}

/// Composes the scale of the widget at `index` from its ancestors' dimensions,
/// up to the root or to the nearest widget in `Pixel` mode.
pub fn get_scale_for_entity<V: Copy>(index: usize, scene: &Scene<V>) -> (scale: Scale<V>)
    requires
        scene.wf(),
        scene.resolves(index as int),
    ensures
        scale@ == scene.scale_divisors(index as int),
    decreases index, 1nat,
{
    match scene.node(index).transform {
        Some(t) => match t.scale_mode {
            ScaleMode::Pixel => Scale { divisors: Vec::new() },
            ScaleMode::Percent => get_scale_for_percent_mode_entity(index, scene),
        },
        None => Scale { divisors: Vec::new() },
    }
}

/// The scale of a widget in `Percent` mode: the scale of its parent, divided
/// once more by the parent's dimensions; for a root, one divided by the
/// screen's dimensions.
pub fn get_scale_for_percent_mode_entity<V: Copy>(index: usize, scene: &Scene<V>) -> (scale:
    Scale<V>)
    requires
        scene.wf(),
        scene.resolves(index as int),
        scene.percent_at(index as int),
    ensures
        scale@ == scene.scale_divisors(index as int),
    decreases index, 0nat,
{
    match scene.node(index).parent {
        Some(parent) => {
            let extent = match scene.node(parent).transform {
                Some(t) => t.extent,
                None => scene.screen(),
            };
            let mut scale = get_scale_for_entity(parent, scene);
            scale.divisors.push(extent);
            scale
        },
        None => {
            let mut divisors = Vec::new();
            divisors.push(scene.screen());
            Scale { divisors }
        },
    }
}

} // verus!
