//! One live guest instance: an executable guest, its private linear memory,
//! and the per-call mailbox. An instance performs exactly one invoke at a
//! time; callers obtain it by exclusive checkout from a pool and hand it
//! back afterwards.

use crate::errors::InvokeError;
use crate::loaded::ExecutionContext;
use crate::memory::GuestMemory;
use crate::state::State;
use vstd::prelude::*;

verus! {

/// An executable guest. The runtime assumes nothing about it: it may write
/// anything into the mailbox and its memory, trap, or return without
/// staging an outcome; the driver is specified against every such
/// behaviour.
pub trait GuestCode {
    /// Drives the guest's exported invoke entry point for the call whose
    /// method and arguments `init` staged into `state`. Returns the entry
    /// point's own return code, or the diagnostic of a guest-level fault.
    fn call_invoke(
        &mut self,
        state: &mut State,
        memory: &mut GuestMemory,
        context: &ExecutionContext,
        method_len: usize,
        args_len: usize,
        env_len: usize,
    ) -> Result<i32, String>;
}

/// What an invoke returns, given the outcome the guest staged and how the
/// entry point came back. The staged outcome is authoritative: the entry
/// point's return code decides nothing. A normal return with nothing
/// staged is itself an error: the guest broke the ABI contract.
pub open spec fn invoke_outcome(
    staged: Option<Result<Seq<u8>, Seq<char>>>,
    guest: Result<i32, Seq<char>>,
) -> Result<Seq<u8>, InvokeErrorShape> {
    match guest {
        Err(trap) => Err(InvokeErrorShape::Runtime(trap)),
        Ok(_) => match staged {
            Some(Ok(bytes)) => Ok(bytes),
            Some(Err(message)) => Err(InvokeErrorShape::Runtime(message)),
            None => Err(InvokeErrorShape::Abi),
        },
    }
}

/// The shape of an invoke failure at the instance boundary, over
/// mathematical values.
pub enum InvokeErrorShape {
    /// A guest fault or a guest-reported error, with its message.
    Runtime(Seq<char>),
    /// A normal return with no staged outcome.
    Abi,
}

/// A guest entry point that returns normally without staging a result or
/// an error never yields a success and never a silently empty one: the
/// call fails as a protocol violation.
pub proof fn lemma_abi_violation(
    staged: Option<Result<Seq<u8>, Seq<char>>>,
    guest: Result<i32, Seq<char>>,
)
    requires
        guest is Ok,
        staged is None,
    ensures
        invoke_outcome(staged, guest) == Err::<Seq<u8>, InvokeErrorShape>(InvokeErrorShape::Abi),
        !(invoke_outcome(staged, guest) is Ok),
{
}

/// A success at the instance boundary is exactly a staged success: whatever
/// bytes an invoke returns, the guest staged those very bytes.
pub proof fn lemma_success_is_staged(
    staged: Option<Result<Seq<u8>, Seq<char>>>,
    guest: Result<i32, Seq<char>>,
    bytes: Seq<u8>,
)
    requires
        invoke_outcome(staged, guest) == Ok::<Seq<u8>, InvokeErrorShape>(bytes),
    ensures
        staged == Some(Ok::<Seq<u8>, Seq<char>>(bytes)),
        guest is Ok,
{
}

/// Interprets a finished guest call: the staged outcome and the entry
/// point's own result decide what the invoke returns.
pub fn finish_invoke(staged: Option<Result<Vec<u8>, String>>, guest: Result<i32, String>) -> (r:
    Result<Vec<u8>, InvokeError>)
    ensures
        match invoke_outcome(staged_view(staged), guest_view(guest)) {
            Ok(bytes) => r matches Ok(b) && b@ == bytes,
            Err(InvokeErrorShape::Runtime(m)) => r matches Err(InvokeError::RuntimeError(s))
                && s@ == m,
            Err(InvokeErrorShape::Abi) => r == Err::<Vec<u8>, InvokeError>(
                InvokeError::AbiViolation,
            ),
        },
{
    match guest {
        Err(trap) => Err(InvokeError::RuntimeError(trap)),
        Ok(_) => match staged {
            Some(Ok(bytes)) => Ok(bytes),
            Some(Err(message)) => Err(InvokeError::from_runtime_error(message)),
            None => Err(InvokeError::AbiViolation),
        },
    }
}

/// The staged outcome as mathematical values.
pub open spec fn staged_view(staged: Option<Result<Vec<u8>, String>>) -> Option<
    Result<Seq<u8>, Seq<char>>,
> {
    match staged {
        None => None,
        Some(Ok(b)) => Some(Ok(b@)),
        Some(Err(m)) => Some(Err(m@)),
    }
}

/// The guest call's result as mathematical values.
pub open spec fn guest_view(guest: Result<i32, String>) -> Result<i32, Seq<char>> {
    match guest {
        Ok(c) => Ok(c),
        Err(m) => Err(m@),
    }
}

/// One instantiated guest module with its private memory and mailbox.
pub struct WrapInstance<G> {
    /// When this instance last began an invoke, as the client's logical
    /// clock read; a staleness signal only, never read by the core.
    pub last_used: u64,
    /// The executable guest.
    pub guest: G,
    /// The guest's private linear memory.
    pub memory: GuestMemory,
    /// The per-call mailbox, reset at the start of every call.
    pub state: State,
}

impl<G: GuestCode> WrapInstance<G> {
    /// Wraps a freshly instantiated guest and its memory into an idle
    /// instance with a clear mailbox.
    pub fn new(guest: G, memory: GuestMemory) -> (r: Self)
        ensures
            r.last_used == 0,
            r.state.all_outcomes_clear(),
            r.state.method is None,
            r.state.args is None,
            r.state.env@ == Seq::<u8>::empty(),
            r.memory == memory,
    {
        WrapInstance { last_used: 0, guest, memory, state: State::new() }
    }

    /// Drives one call through this guest: resets the mailbox to this
    /// call's method and arguments, runs the guest's entry point, and
    /// interprets whatever the guest staged. A success is exactly the
    /// staged success payload; a normal return with nothing staged fails
    /// as an ABI protocol violation.
    pub fn invoke(
        &mut self,
        method: Vec<u8>,
        args: Vec<u8>,
        context: &ExecutionContext,
        now: u64,
    ) -> (r: Result<Vec<u8>, InvokeError>)
        ensures
            final(self).last_used == now,
            r matches Ok(b) ==> (final(self).state.invoke matches Some(Ok(sb)) && sb@ == b@),
            final(self).state.invoke is None ==> r == Err::<Vec<u8>, InvokeError>(
                InvokeError::AbiViolation,
            ) || (r matches Err(InvokeError::RuntimeError(_))),
    {
        self.last_used = now;
        let method_len = method.len();
        let args_len = args.len();
        let env_len = self.state.env.len();
        self.state.init(method, args);
        let guest_result = self.guest.call_invoke(
            &mut self.state,
            &mut self.memory,
            context,
            method_len,
            args_len,
            env_len,
        );
        let staged: Option<Result<Vec<u8>, String>> = match &self.state.invoke {
            None => None,
            Some(Ok(bytes)) => Some(Ok(vstd::slice::slice_to_vec(bytes.as_slice()))),
            Some(Err(message)) => Some(Err(message.clone())),
        };
        finish_invoke(staged, guest_result)
    }
}

} // verus!
