//! Typed errors of the runtime: what can go wrong while loading a wrap and
//! while invoking a method on one.

use vstd::prelude::*;

verus! {

/// Why a wrap could not be loaded.
#[derive(Debug)]
pub enum LoadError {
    /// The guest bytecode was not found; carries the path that was tried.
    WrapNotFound(String),
    /// The guest bytecode failed to compile or validate; carries the
    /// engine's diagnostic.
    InvalidWasm(String),
}

/// Why an invocation failed.
#[derive(Debug)]
pub enum InvokeError {
    /// The method name is absent from a native plugin's method table.
    MethodNotFound,
    /// The arguments could not be encoded by the object codec.
    MsgpackSerialize(String),
    /// The result bytes could not be decoded by the object codec.
    MsgpackDeserialize(String),
    /// No wrap is registered under the requested identity.
    WrapNotLoaded,
    /// The guest faulted: a trap, an abort, an out-of-bounds memory access,
    /// or a guest-reported invoke error; carries the diagnostic.
    RuntimeError(String),
    /// The guest's entry point returned normally without staging a result
    /// or an error: a violation of the host/guest protocol.
    AbiViolation,
}

impl InvokeError {
    /// Wraps a guest-runtime diagnostic as an invocation error.
    pub fn from_runtime_error(err: String) -> (r: Self)
        ensures
            r == InvokeError::RuntimeError(err),
    {
        InvokeError::RuntimeError(err)
    }
}

} // verus!
