//! Frame lifecycle between an immediate-mode UI producer and a retained
//! GPU painter: what one or more UI frames produced is buffered, and a paint
//! drains the buffer into an ordered script of painter operations.

pub mod controller;
pub mod outside;
pub mod pending;
pub mod script;

pub use controller::EguiGlow;
pub use pending::{PendingFrame, TextureKey};
pub use script::{paint_ops, PainterOp};
