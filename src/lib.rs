//! Inspection and editing of a live UI tree: a mirror of the node hierarchy, the
//! selection and picking state, the small widgets of the editing panel (dropdown, text
//! input, unit picker), and element trees described ahead of their creation.
//!
//! Entities are named by their 64-bit id throughout.
pub mod dropdown;
pub mod element;
pub mod inspector;
pub mod node_hierarchy;
pub mod number_input;
pub mod val_input;

pub use inspector::{ActiveStyleInspection, PickingUiNode, RestorePreviousResource};
pub use val_input::ValTypes;
