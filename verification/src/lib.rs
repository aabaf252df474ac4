//! Drag-and-drop control for widgets of a hierarchical UI scene.
//!
//! Once per frame the controller is shown the scene, the pointer and the UI
//! events that arrived since the previous frame. It keeps one session per
//! dragged widget and answers with the events and the widget motions of the
//! frame. Coordinates are values of a caller-chosen type `V`: the controller
//! never does arithmetic on them, it names the operands and leaves the
//! arithmetic to the caller.

pub mod drag;
pub mod event;
pub mod frame;
pub mod laws;
pub mod proofs;
pub mod scale;
pub mod scene;
pub mod session;
pub mod target;

pub use drag::DragWidgetSystem;
pub use event::{Displacement, Frame, FrameView, Motion, MotionView, UiEvent, UiEventType};
pub use scale::{get_scale_for_entity, get_scale_for_percent_mode_entity, Scale};
pub use scene::{Draggable, Entity, Node, ScaleMode, Scene, UiTransform};
pub use session::Session;
pub use target::targeted_below;
