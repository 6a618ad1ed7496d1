//! The guest-state mailbox: the per-call scratch area that the host import
//! layer reads and writes while one guest invocation is in flight. It is
//! owned exclusively by one instance for the duration of one call and is
//! reset at the start of every call.

use vstd::prelude::*;

verus! {

/// The outcome a guest (or the host, on the guest's behalf) stages for a
/// call: absent, a success payload, or an error message.
pub type InvokeState = Option<Result<Vec<u8>, String>>;

/// The mutable per-call scratch area shared between the driver and the host
/// import layer.
pub struct State {
    /// The method name of the pending call, as bytes; absent until `init`
    /// sets it for a call. A set value may be empty: only never-set is a
    /// protocol violation.
    pub method: Option<Vec<u8>>,
    /// The encoded arguments of the pending call; absent until `init`
    /// sets them, and possibly empty once set.
    pub args: Option<Vec<u8>>,
    /// The host-provided environment blob, set once per loaded wrap.
    pub env: Vec<u8>,
    /// The staged outcome of the pending call itself.
    pub invoke: InvokeState,
    /// The staged outcome of the most recent sub-invocation.
    pub subinvoke: InvokeState,
    /// The staged outcome of the most recent sub-invocation of a named
    /// implementation.
    pub subinvoke_implementation: InvokeState,
    /// The staged list of known implementations of an interface identity.
    pub get_implementations_result: Option<Vec<u8>>,
}

impl State {
    /// True when no outcome of any kind is staged: the shape `init` leaves
    /// the mailbox in.
    pub open spec fn all_outcomes_clear(self) -> bool {
        &&& self.invoke is None
        &&& self.subinvoke is None
        &&& self.subinvoke_implementation is None
        &&& self.get_implementations_result is None
    }

    /// True when `post` differs from `pre` at most in the staged invoke
    /// outcome.
    pub open spec fn only_invoke_changed(pre: State, post: State) -> bool {
        &&& post.method == pre.method
        &&& post.args == pre.args
        &&& post.env == pre.env
        &&& post.subinvoke == pre.subinvoke
        &&& post.subinvoke_implementation == pre.subinvoke_implementation
        &&& post.get_implementations_result == pre.get_implementations_result
    }

    /// True when `post` differs from `pre` at most in the staged
    /// sub-invoke outcome.
    pub open spec fn only_subinvoke_changed(pre: State, post: State) -> bool {
        &&& post.method == pre.method
        &&& post.args == pre.args
        &&& post.env == pre.env
        &&& post.invoke == pre.invoke
        &&& post.subinvoke_implementation == pre.subinvoke_implementation
        &&& post.get_implementations_result == pre.get_implementations_result
    }

    /// True when `post` differs from `pre` at most in the staged
    /// sub-invoke-implementation outcome.
    pub open spec fn only_subinvoke_implementation_changed(pre: State, post: State) -> bool {
        &&& post.method == pre.method
        &&& post.args == pre.args
        &&& post.env == pre.env
        &&& post.invoke == pre.invoke
        &&& post.subinvoke == pre.subinvoke
        &&& post.get_implementations_result == pre.get_implementations_result
    }

    /// True when `post` differs from `pre` at most in the staged
    /// get-implementations result.
    pub open spec fn only_get_implementations_changed(pre: State, post: State) -> bool {
        &&& post.method == pre.method
        &&& post.args == pre.args
        &&& post.env == pre.env
        &&& post.invoke == pre.invoke
        &&& post.subinvoke == pre.subinvoke
        &&& post.subinvoke_implementation == pre.subinvoke_implementation
    }

    /// A fresh mailbox: no call pending, nothing staged.
    pub fn new() -> (r: Self)
        ensures
            r.method is None,
            r.args is None,
            r.env@ == Seq::<u8>::empty(),
            r.all_outcomes_clear(),
    {
        State {
            method: None,
            args: None,
            env: Vec::new(),
            invoke: None,
            subinvoke: None,
            subinvoke_implementation: None,
            get_implementations_result: None,
        }
    }

    /// Resets the mailbox for a new call: the method and arguments are set
    /// to the new call's values - however short, even empty - and every
    /// staged outcome is cleared, so nothing from an earlier call can be
    /// observed during this one. The environment blob is kept: it belongs
    /// to the loaded wrap, not to one call.
    pub fn init(&mut self, method: Vec<u8>, args: Vec<u8>)
        ensures
            final(self).method == Some(method),
            final(self).args == Some(args),
            final(self).env == old(self).env,
            final(self).all_outcomes_clear(),
    {
        self.method = Some(method);
        self.args = Some(args);
        self.invoke = None;
        self.subinvoke = None;
        self.subinvoke_implementation = None;
        self.get_implementations_result = None;
    }
}

} // verus!
