//! An auto-splitter runtime: a sandboxed execution environment that loads
//! untrusted guest programs compiled to a small virtual ISA and drives them on
//! a fixed tick cadence, so they can observe a target process and command a
//! speedrun timer.
//!
//! The crate is organised around the runtime's components:
//! - [`timer`]: the timer capability the embedder injects, and a recording
//!   implementation of it.
//! - [`process`]: the modeled view of the operating system's process list.
//! - [`handles`]: the generation-tagged handle table mediating process access.
//! - [`program`]: guest programs, their validation, and the host ABI names.
//! - [`machine`]: the mathematical semantics of running a guest function.
//! - [`sched`]: the tick scheduler pacing `update` calls.
//! - [`runtime`]: the façade owning all of the above.
//! - [`timespan`], [`formatter`], [`timestamp`]: time spans, the segment
//!   time formatter, and time stamps.

pub mod error;
pub mod formatter;
pub mod handles;
pub mod machine;
pub mod process;
pub mod program;
pub mod runtime;
pub mod sched;
pub mod timer;
pub mod timespan;
pub mod timestamp;
