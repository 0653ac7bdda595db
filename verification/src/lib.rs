//! In-memory log capture for tests.
//!
//! The library keeps every emitted record in an ordered store and lets test
//! code query it: by severity level and body substring, by count, or as a
//! newline-joined rendering. The store is append-only except for an explicit
//! bulk clear, and initialization is an idempotent one-way transition.

pub mod level;
pub mod sink;

pub use level::Level;
pub use sink::CapturedLog;
pub use sink::LogTester;
