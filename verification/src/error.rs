//! The errors the runtime surfaces to the embedder.

use vstd::prelude::*;

verus! {

/// A fault raised while the virtual machine executed a guest function.
///
/// Traps are reported to the embedder as [`Error::EngineError`]; they never
/// abort the host, and a trap during `update` leaves the runtime usable.
#[derive(Clone, Copy, Debug, PartialEq, Eq, Structural)]
pub enum Trap {
    /// A `(ptr, len)` pair handed to a host call, or a direct load, lay
    /// outside the guest's linear memory.
    MemoryOutOfBounds,
    /// An instruction named a register index outside the register file.
    BadRegister,
}

/// The load- and step-time errors of the runtime.
///
/// Process-operation failures are never reported through this type: the guest
/// sees them as the sentinel values of the handle table.
#[derive(Clone, Debug, PartialEq, Eq)]
pub enum Error {
    /// The guest program does not expose `configure` and `update`, both with
    /// the signature `() -> ()`.
    InvalidInterface,
    /// The guest program imports a symbol that is not part of the host ABI.
    /// Carries the first such symbol name.
    UnknownHostFunction(Vec<u8>),
    /// A guest function trapped while it ran.
    EngineError(Trap),
    /// The guest program could not be read. Produced by embedders that load
    /// programs from a file; the loader itself never returns it.
    Io(String),
}

} // verus!
