//! A terminal task-list manager: the task store, the fixed-geometry frame
//! renderer, the modal key handling and the line-oriented persisted format.

pub mod display;
pub mod input;
pub mod layout;
pub mod mode;
pub mod persist;
pub mod stamp;
pub mod store;
pub mod text;
