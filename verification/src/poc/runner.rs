//! Failures of the prototype's action runner: the same as the app's.
pub use crate::action::runner::RunError;
