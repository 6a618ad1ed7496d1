//! A host runtime for sandboxed plugins ("wraps"): typed method calls are
//! routed into a guest module through a fixed binary ABI over the guest's
//! linear memory, or into a native closure-backed plugin through a method
//! table. The verified core covers the guest-state mailbox, the host import
//! layer, instance pooling, and client dispatch; the bytecode engine and all
//! I/O live outside it.

pub mod client;
pub mod closure;
pub mod errors;
pub mod identity;
pub mod imports;
pub mod instance;
pub mod loaded;
pub mod memory;
pub mod sample;
pub mod state;
pub mod text;

pub use client::Client;
pub use client::ClientBuilder;
pub use client::Wrap;
pub use closure::ClosureWrap;
pub use errors::InvokeError;
pub use errors::LoadError;
pub use identity::PluginId;
pub use imports::SubCall;
pub use instance::GuestCode;
pub use instance::WrapInstance;
pub use loaded::ExecutionContext;
pub use loaded::LoadedWrap;
pub use loaded::WrapModule;
pub use memory::GuestMemory;
pub use sample::ArgsSampleMethod;
pub use sample::SampleResult;
pub use state::State;
