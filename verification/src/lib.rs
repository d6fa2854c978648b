//! A verified single-user task store: an ordered collection of tasks with
//! add / remove / complete operations, a persistence codec that round-trips,
//! and a coordinator step function that keeps the in-memory collection and
//! its persisted image consistent.

pub mod task;
pub mod codec;
pub mod ext;
pub mod laws;
pub mod store;
pub mod coord;
pub mod render;

pub use task::Task;
pub use task::TaskView;
pub use task::default_completed;
pub use store::TaskManager;
pub use store::RemoveOutcome;
pub use store::CompleteOutcome;
pub use store::FormatError;
