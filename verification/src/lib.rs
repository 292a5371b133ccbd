pub mod dispatch;
pub mod engine;
pub mod extract;
pub mod fixed;
pub mod protocol;
pub mod reconcile;
pub mod session;
pub mod text;
pub mod vad;
