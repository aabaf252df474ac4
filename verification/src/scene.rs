//! The scene as the controller sees it in one frame.

use vstd::prelude::*;

verus! {

/// Identity of an entity of the scene graph.
pub type Entity = u64;

/// How the local coordinates of a widget are measured.
#[derive(Clone, Copy, Debug, PartialEq, Eq, Structural)]
pub enum ScaleMode {
    /// In absolute units: the dimensions of ancestors have no effect.
    Pixel,
    /// As a fraction of the dimensions of the parent.
    Percent,
}

/// Marks an entity as a widget that may be dragged. Only its presence counts.
#[derive(Clone, Copy, Debug)]
pub struct Draggable;

/// What the controller reads of a widget's transform.
#[derive(Debug)]
pub struct UiTransform<V> {
    /// Width and height.
    pub extent: V,
    /// Stacking order: a widget with a higher value lies above one with a lower value.
    pub z: i32,
    /// How the local position is measured.
    pub scale_mode: ScaleMode,
}

/// One entity of the scene with the components that the controller reads.
#[derive(Debug)]
pub struct Node<V> {
    /// The entity's identity.
    pub entity: Entity,
    /// Index, in the scene, of the parent; `None` for a root.
    pub parent: Option<usize>,
    /// The widget transform, if the entity has one.
    pub transform: Option<UiTransform<V>>,
    /// The entity itself is hidden.
    pub hidden: bool,
    /// The entity is hidden through an ancestor.
    pub hidden_propagate: bool,
    /// The marker of draggable widgets, if the entity carries it.
    pub draggable: Option<Draggable>,
    /// The hit test at the pointer's position lands on this widget.
    pub under_pointer: bool,
}

impl<V: Copy> Clone for UiTransform<V> {
    fn clone(&self) -> (copy: Self)
        ensures
            copy == *self,
    {
        *self
    }
}

impl<V: Copy> Copy for UiTransform<V> {}

impl<V: Copy> Clone for Node<V> {
    fn clone(&self) -> (copy: Self)
        ensures
            copy == *self,
    {
        *self
    }
}

impl<V: Copy> Copy for Node<V> {}

/// The entities of one frame, parents before children, and the screen's dimensions.
pub struct Scene<V> {
    nodes: Vec<Node<V>>,
    screen: V,
}

impl<V: Copy> View for Scene<V> {
    type V = Seq<Node<V>>;

    closed spec fn view(&self) -> Seq<Node<V>> {
        self.nodes@
    }
}

impl<V: Copy> Scene<V> {
    /// Width and height of the screen.
    pub closed spec fn spec_screen(&self) -> V {
        self.screen
    }

    /// Every parent stands before its children, and no entity is listed twice.
    pub open spec fn wf(&self) -> bool {
        &&& forall|i: int|
            0 <= i < self@.len() ==> ((#[trigger] self@[i]).parent matches Some(p) ==> p < i)
        &&& forall|i: int, j: int|
            0 <= i < j < self@.len() ==> (#[trigger] self@[i]).entity != (#[trigger] self@[j]).entity
    }

    /// The scene lists `entity`.
    pub open spec fn contains(&self, entity: Entity) -> bool {
        exists|i: int| 0 <= i < self@.len() && (#[trigger] self@[i]).entity == entity
    }

    /// The index at which the scene lists `entity`, where it does.
    pub open spec fn position(&self, entity: Entity) -> int {
        choose|i: int| 0 <= i < self@.len() && (#[trigger] self@[i]).entity == entity
    }

    /// The scene lists `entity` with the marker of draggable widgets.
    pub open spec fn draggable(&self, entity: Entity) -> bool {
        exists|i: int|
            0 <= i < self@.len() && (#[trigger] self@[i]).entity == entity
                && self@[i].draggable is Some
    }

    /// The scene lists `entity` as hidden, itself or through an ancestor.
    pub open spec fn concealed(&self, entity: Entity) -> bool {
        exists|i: int|
            0 <= i < self@.len() && (#[trigger] self@[i]).entity == entity && (self@[i].hidden
                || self@[i].hidden_propagate)
    }

    /// `node` may be appended: its parent is listed already and its entity is not.
    pub open spec fn accepts(&self, node: Node<V>) -> bool {
        &&& node.parent matches Some(p) ==> p < self@.len()
        &&& !self.contains(node.entity)
    }

    /// An empty scene on a screen of the given dimensions.
    pub fn new(screen: V) -> (scene: Self)
        ensures
            scene.wf(),
            scene@ == Seq::<Node<V>>::empty(),
            scene.spec_screen() == screen,
    {
        Scene { nodes: Vec::new(), screen }
    }

    /// Width and height of the screen.
    #[verifier::when_used_as_spec(spec_screen)]
    pub fn screen(&self) -> (screen: V)
        ensures
            screen == self.spec_screen(),
    {
        self.screen
    }

    /// Number of entities listed.
    pub fn len(&self) -> (n: usize)
        ensures
            n == self@.len(),
    {
        self.nodes.len()
    }

    /// The node at `index`, if there is one.
    pub fn get(&self, index: usize) -> (node: Option<Node<V>>)
        ensures
            node == (if index < self@.len() { Some(self@[index as int]) } else { None }),
    {
        if index < self.nodes.len() {
            Some(self.nodes[index])
        } else {
            None
        }
    }

    /// The node at `index`.
    pub fn node(&self, index: usize) -> (node: &Node<V>)
        requires
            index < self@.len(),
        ensures
            *node == self@[index as int],
    {
        &self.nodes[index]
    }

    /// Where the scene lists `entity`.
    pub fn index_of(&self, entity: Entity) -> (index: Option<usize>)
        requires
            self.wf(),
        ensures
            index is Some <==> self.contains(entity),
            index matches Some(i) ==> i == self.position(entity),
    {
        let mut i: usize = 0;
        while i < self.nodes.len()
            invariant
                self.wf(),
                i <= self.nodes.len(),
                forall|j: int| 0 <= j < i ==> (#[trigger] self@[j]).entity != entity,
            decreases self.nodes.len() - i,
        {
            if self.nodes[i].entity == entity {
                proof {
                    let p = self.position(entity);
                    assert(self@[i as int].entity == entity);
                    assert(self@[p].entity == entity);
                }
                return Some(i);
            }
            i += 1;
        }
        None
    }

    /// Whether `entity` is a draggable widget.
    pub fn is_draggable(&self, entity: Entity) -> (yes: bool)
        requires
            self.wf(),
        ensures
            yes == self.draggable(entity),
    {
        match self.index_of(entity) {
            Some(i) => {
                assert(self@[i as int].entity == entity);
                self.nodes[i].draggable.is_some()
            },
            None => false,
        }
    }

    /// Whether `entity` is hidden, itself or through an ancestor.
    pub fn is_concealed(&self, entity: Entity) -> (yes: bool)
        requires
            self.wf(),
        ensures
            yes == self.concealed(entity),
    {
        match self.index_of(entity) {
            Some(i) => {
                assert(self@[i as int].entity == entity);
                self.nodes[i].hidden || self.nodes[i].hidden_propagate
            },
            None => false,
        }
    }

    /// Appends `node` where the scene accepts it, and says at which index.
    /// A node whose parent is not listed yet, or whose entity is listed
    /// already, leaves the scene as it was.
    pub fn insert(&mut self, node: Node<V>) -> (index: Option<usize>)
        requires
            old(self).wf(),
        ensures
            final(self).wf(),
            final(self).spec_screen() == old(self).spec_screen(),
            old(self).accepts(node) ==> index == Some(old(self)@.len() as usize)
                && final(self)@ == old(self)@.push(node),
            !old(self).accepts(node) ==> index is None && final(self)@ == old(self)@,
    {
        let n = self.nodes.len();
        if let Some(p) = node.parent {
            if p >= n {
                return None;
            }
        }
        if self.index_of(node.entity).is_some() {
            return None;
        }
        self.nodes.push(node);
        Some(n)
    }
}

} // verus!
