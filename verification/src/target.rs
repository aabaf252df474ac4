//! Which widget a dragged widget is dropped on.

use vstd::prelude::*;
use crate::scene::{Entity, Scene};

verus! {

impl<V: Copy> Scene<V> {
    /// Stacking order of the widget at `index`.
    pub open spec fn z_at(&self, index: int) -> i32 {
        self@[index].transform->Some_0.z
    }

    /// The entity at `index` can take a drop from a widget of stacking order
    /// `height`: it has a transform, it is not hidden, neither itself nor
    /// through an ancestor, the pointer is on it, and it lies strictly below
    /// `height`.
    pub open spec fn eligible(&self, index: int, height: i32) -> bool {
        &&& 0 <= index < self@.len()
        &&& self@[index].transform is Some
        &&& !self@[index].hidden
        &&& !self@[index].hidden_propagate
        &&& self@[index].under_pointer
        &&& self.z_at(index) < height
    }

    /// The entity at `index` is the top match below `height`: it is eligible,
    /// no eligible entity lies above it, and of those at its own level it is
    /// the first that the scene lists.
    pub open spec fn tops(&self, index: int, height: i32) -> bool {
        &&& self.eligible(index, height)
        &&& forall|j: int| #[trigger]
            self.eligible(j, height) ==> self.z_at(j) < self.z_at(index) || (self.z_at(j)
                == self.z_at(index) && index <= j)
    }

    /// The top match below `height`, if any entity is eligible.
    pub open spec fn top_match(&self, height: i32) -> Option<Entity> {
        if exists|i: int| self.tops(i, height) {
            Some(self@[choose|i: int| self.tops(i, height)].entity)
        } else {
            None
        }
    }
}

/// Resolves the target of a drop: of the visible widgets under the pointer
/// that lie strictly below `height`, the one highest in the stacking order;
/// among equals, the first in the scene.
pub fn targeted_below<V: Copy>(scene: &Scene<V>, height: i32) -> (target: Option<Entity>)
    ensures
        target == scene.top_match(height),
{
    let mut best: Option<(usize, i32)> = None;
    let mut i: usize = 0;
    while i < scene.len()
        invariant
            i <= scene@.len(),
            match best {
                Some((b, z)) => b < i && scene.tops_among(b as int, height, i as int) && z
                    == scene.z_at(b as int),
                None => forall|j: int| 0 <= j < i ==> !scene.eligible(j, height),
            },
        decreases scene@.len() - i,
    {
        let node = scene.node(i);
        if let Some(t) = node.transform {
            if !node.hidden && !node.hidden_propagate && node.under_pointer && t.z < height {
                let higher = match best {
                    Some((_, z)) => z < t.z,
                    None => true,
                };
                if higher {
                    best = Some((i, t.z));
                }
            }
        }
        i += 1;
    }
    match best {
        Some((b, _)) => {
            proof {
                assert(scene.tops(b as int, height));
                let c = choose|c: int| scene.tops(c, height);
                assert(scene.tops(c, height));
                assert(scene.eligible(c, height) && scene.eligible(b as int, height));
                assert(c == b);
            }
            Some(scene.node(b).entity)
        },
        None => {
            proof {
                assert forall|c: int| !scene.tops(c, height) by {
                    if scene.tops(c, height) {
                        assert(scene.eligible(c, height));
                    }
                }
            }
            None
        },
    }
}

impl<V: Copy> Scene<V> {
    /// `index` is the top match among the first `count` entities.
    spec fn tops_among(&self, index: int, height: i32, count: int) -> bool {
        &&& self.eligible(index, height)
        &&& forall|j: int|
            0 <= j < count && #[trigger] self.eligible(j, height) ==> self.z_at(j) < self.z_at(
                index,
            ) || (self.z_at(j) == self.z_at(index) && index <= j)
    }
}

} // verus!
