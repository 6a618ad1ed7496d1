//! The host import layer: the fixed set of functions a guest may call, the
//! only channel through which bytes move across the sandbox boundary.
//! Every function validates offsets and lengths against the guest's memory
//! bounds; an out-of-bounds access fails the call, it never truncates.
//! "Give me bytes" imports come in pairs, length then data, because the
//! guest must allocate its own buffer before the host can write into it.

use crate::identity::PluginId;
use crate::loaded::resolve_model;
use crate::loaded::ExecutionContext;
use crate::memory::written;
use crate::memory::GuestMemory;
use crate::state::State;
use crate::text::bytes_to_string;
use crate::text::dec_str;
use crate::text::push_dec;
use vstd::prelude::*;
use vstd::string::StringExecFns;
use vstd::utf8::decode_utf8;
use vstd::utf8::encode_utf8;
use vstd::utf8::valid_utf8;

verus! {

/// A sub-invocation the guest requested and the execution context
/// resolved: the concrete target to call, with method and arguments read
/// from guest memory.
pub struct SubCall {
    /// The resolved identity to invoke.
    pub target: PluginId,
    /// The method name, verbatim from guest memory.
    pub method: Vec<u8>,
    /// The encoded arguments, verbatim from guest memory.
    pub args: Vec<u8>,
}

/// The message staged for the guest when a sub-invocation target is not in
/// the execution context: the sandbox's capability boundary refused it.
pub open spec fn unresolved_message() -> Seq<char> {
    "subinvoke: uri is not registered in the execution context"@
}

/// The message staged for the guest when a sub-invocation target is not
/// even a well-formed identity.
pub open spec fn invalid_uri_message() -> Seq<char> {
    "subinvoke: uri is malformed"@
}

/// The diagnostic a guest abort produces, with the guest's message, file,
/// and location rendered in a fixed shape.
pub open spec fn abort_message(
    msg: Seq<char>,
    file: Seq<char>,
    line: u32,
    column: u32,
) -> Seq<char> {
    "Abort: "@ + msg + "\nFile: "@ + file + "\nLocation: ["@ + dec_str(line as nat) + ", "@
        + dec_str(column as nat) + "]"@
}

/// Writes the pending method and argument bytes verbatim into guest memory
/// at the offsets the guest chose. Fails only when method or args were
/// never set for this call - a host/guest protocol violation - or when a
/// write falls out of bounds; values set to zero bytes are written as
/// such. The method write lands before the args write, so an
/// out-of-bounds args offset leaves the method bytes already in place,
/// and nothing else.
pub fn wrap_invoke_args(
    state: &State,
    memory: &mut GuestMemory,
    method_ptr: u32,
    args_ptr: u32,
) -> (r: Result<(), String>)
    ensures
        ({
            let pre = old(memory).data@;
            match (state.method, state.args) {
                (Some(m), Some(a)) => {
                    &&& (method_ptr + m@.len() > pre.len()) ==> (r is Err && final(memory).data@
                        == pre)
                    &&& (method_ptr + m@.len() <= pre.len() && args_ptr + a@.len() > pre.len())
                        ==> (r is Err && final(memory).data@ =~= written(pre, method_ptr, m@))
                    &&& (method_ptr + m@.len() <= pre.len() && args_ptr + a@.len() <= pre.len())
                        ==> (r is Ok && final(memory).data@ =~= written(
                        written(pre, method_ptr, m@),
                        args_ptr,
                        a@,
                    ))
                },
                _ => r is Err && final(memory).data@ == pre,
            }
        }),
{
    let method = match &state.method {
        Some(method) => method,
        None => {
            return Err("__wrap_invoke_args: method is not set".to_owned());
        },
    };
    let args = match &state.args {
        Some(args) => args,
        None => {
            return Err("__wrap_invoke_args: args is not set".to_owned());
        },
    };
    if !memory.write(method_ptr, method.as_slice()) {
        return Err("__wrap_invoke_args: memory access out of bounds".to_owned());
    }
    if !memory.write(args_ptr, args.as_slice()) {
        return Err("__wrap_invoke_args: memory access out of bounds".to_owned());
    }
    Ok(())
}

/// Stages the success payload of the pending call: the bytes at
/// `[offset, offset + length)` in guest memory become the call's result.
pub fn wrap_invoke_result(
    state: &mut State,
    memory: &GuestMemory,
    offset: u32,
    length: u32,
) -> (r: Result<(), String>)
    ensures
        memory.spec_in_bounds(offset, length) ==> {
            &&& r is Ok
            &&& State::only_invoke_changed(*old(state), *final(state))
            &&& final(state).invoke matches Some(Ok(b)) && b@ == memory.data@.subrange(
                offset as int,
                offset + length,
            )
        },
        !memory.spec_in_bounds(offset, length) ==> (r is Err && *final(state) == *old(state)),
{
    match memory.read(offset, length) {
        Some(bytes) => {
            state.invoke = Some(Ok(bytes));
            Ok(())
        },
        None => Err("__wrap_invoke_result: memory access out of bounds".to_owned()),
    }
}

/// Stages the error message of the pending call: the bytes at
/// `[offset, offset + length)` must be valid UTF-8 and become the call's
/// error.
pub fn wrap_invoke_error(state: &mut State, memory: &GuestMemory, offset: u32, length: u32) -> (r:
    Result<(), String>)
    ensures
        ({
            let window = memory.data@.subrange(offset as int, offset + length);
            &&& !memory.spec_in_bounds(offset, length) ==> (r is Err && *final(state) == *old(state))
            &&& (memory.spec_in_bounds(offset, length) && !valid_utf8(window)) ==> (r is Err
                && *final(state) == *old(state))
            &&& (memory.spec_in_bounds(offset, length) && valid_utf8(window)) ==> {
                &&& r is Ok
                &&& State::only_invoke_changed(*old(state), *final(state))
                &&& final(state).invoke matches Some(Err(m)) && m@ == decode_utf8(window)
            }
        }),
{
    match memory.read(offset, length) {
        Some(bytes) => match bytes_to_string(bytes) {
            Some(message) => {
                state.invoke = Some(Err(message));
                Ok(())
            },
            None => Err("__wrap_invoke_error: invalid string".to_owned()),
        },
        None => Err("__wrap_invoke_error: memory access out of bounds".to_owned()),
    }
}

/// A fatal guest-side fault: reads the guest's message and source file
/// from memory and fails the call with a formatted diagnostic. Never
/// returns success.
pub fn wrap_abort(
    memory: &GuestMemory,
    msg_offset: u32,
    msg_length: u32,
    file_offset: u32,
    file_length: u32,
    line: u32,
    column: u32,
) -> (r: Result<(), String>)
    ensures
        r is Err,
        ({
            let msg_window = memory.data@.subrange(msg_offset as int, msg_offset + msg_length);
            let file_window = memory.data@.subrange(file_offset as int, file_offset + file_length);
            (memory.spec_in_bounds(msg_offset, msg_length) && memory.spec_in_bounds(
                file_offset,
                file_length,
            ) && valid_utf8(msg_window) && valid_utf8(file_window)) ==> (r matches Err(d) && d@
                == abort_message(decode_utf8(msg_window), decode_utf8(file_window), line, column))
        }),
{
    let msg = match memory.read(msg_offset, msg_length) {
        Some(bytes) => match bytes_to_string(bytes) {
            Some(s) => s,
            None => {
                return Err("__wrap_abort: invalid string".to_owned());
            },
        },
        None => {
            return Err("__wrap_abort: memory access out of bounds".to_owned());
        },
    };
    let file = match memory.read(file_offset, file_length) {
        Some(bytes) => match bytes_to_string(bytes) {
            Some(s) => s,
            None => {
                return Err("__wrap_abort: invalid string".to_owned());
            },
        },
        None => {
            return Err("__wrap_abort: memory access out of bounds".to_owned());
        },
    };
    let mut diagnostic = "Abort: ".to_owned();
    diagnostic.append(msg.as_str());
    diagnostic.append("\nFile: ");
    diagnostic.append(file.as_str());
    diagnostic.append("\nLocation: [");
    push_dec(&mut diagnostic, line);
    diagnostic.append(", ");
    push_dec(&mut diagnostic, column);
    diagnostic.append("]");
    Err(diagnostic)
}

/// Reads a requested sub-invocation from guest memory and resolves its
/// target through the execution context. A target outside the context -
/// malformed or simply absent - is never routed anywhere: the failure is
/// staged for the guest and no call is handed back. Only a resolved
/// target yields a call for the embedder to perform.
pub fn wrap_subinvoke_prepare(
    state: &mut State,
    memory: &GuestMemory,
    context: &ExecutionContext,
    uri_ptr: u32,
    uri_len: u32,
    method_ptr: u32,
    method_len: u32,
    args_ptr: u32,
    args_len: u32,
) -> (r: Result<Option<SubCall>, String>)
    ensures
        ({
            let in_bounds = memory.spec_in_bounds(uri_ptr, uri_len) && memory.spec_in_bounds(
                method_ptr,
                method_len,
            ) && memory.spec_in_bounds(args_ptr, args_len);
            let uri = memory.data@.subrange(uri_ptr as int, uri_ptr + uri_len);
            let method = memory.data@.subrange(method_ptr as int, method_ptr + method_len);
            let args = memory.data@.subrange(args_ptr as int, args_ptr + args_len);
            &&& !in_bounds ==> (r is Err && *final(state) == *old(state))
            &&& in_bounds ==> match PluginId::parse_spec(uri) {
                None => {
                    &&& r == Ok::<Option<SubCall>, String>(None)
                    &&& State::only_subinvoke_changed(*old(state), *final(state))
                    &&& final(state).subinvoke matches Some(Err(m)) && m@ == invalid_uri_message()
                },
                Some(key) => match resolve_model(context.subinvoke_uri_resolution@, key) {
                    None => {
                        &&& r == Ok::<Option<SubCall>, String>(None)
                        &&& State::only_subinvoke_changed(*old(state), *final(state))
                        &&& final(state).subinvoke matches Some(Err(m)) && m@
                            == unresolved_message()
                    },
                    Some(target) => {
                        &&& *final(state) == *old(state)
                        &&& r matches Ok(Some(call))
                        &&& call.target@ == target
                        &&& call.method@ == method
                        &&& call.args@ == args
                    },
                },
            }
        }),
{
    let uri_buffer = match memory.read(uri_ptr, uri_len) {
        Some(b) => b,
        None => {
            return Err("__wrap_subinvoke: memory access out of bounds".to_owned());
        },
    };
    let method_buffer = match memory.read(method_ptr, method_len) {
        Some(b) => b,
        None => {
            return Err("__wrap_subinvoke: memory access out of bounds".to_owned());
        },
    };
    let args_buffer = match memory.read(args_ptr, args_len) {
        Some(b) => b,
        None => {
            return Err("__wrap_subinvoke: memory access out of bounds".to_owned());
        },
    };
    let key = match PluginId::parse(uri_buffer.as_slice()) {
        Some(key) => key,
        None => {
            state.subinvoke = Some(Err("subinvoke: uri is malformed".to_owned()));
            return Ok(None);
        },
    };
    match context.resolve(&key) {
        Some(target) => Ok(
            Some(SubCall { target, method: method_buffer, args: args_buffer }),
        ),
        None => {
            state.subinvoke = Some(
                Err("subinvoke: uri is not registered in the execution context".to_owned()),
            );
            Ok(None)
        },
    }
}

/// Stages the outcome of a performed sub-invocation for the guest to
/// fetch, and reports success or failure to the guest as the import's
/// return code: 1 for a result, 0 for an error.
pub fn wrap_subinvoke_finish(state: &mut State, outcome: Result<Vec<u8>, String>) -> (r: i32)
    ensures
        State::only_subinvoke_changed(*old(state), *final(state)),
        final(state).subinvoke == Some(outcome),
        r == if outcome is Ok {
            1int
        } else {
            0int
        },
{
    let r: i32 = if outcome.is_ok() {
        1
    } else {
        0
    };
    state.subinvoke = Some(outcome);
    r
}

/// Length of the staged sub-invocation result, the first half of the
/// length-then-data pair. Fails when no result is staged.
pub fn wrap_subinvoke_result_len(state: &State) -> (r: Result<u32, String>)
    ensures
        match state.subinvoke {
            Some(Ok(b)) => if b@.len() <= u32::MAX {
                r == Ok::<u32, String>(b@.len() as u32)
            } else {
                r is Err
            },
            _ => r is Err,
        },
{
    match &state.subinvoke {
        Some(Ok(result)) => {
            if result.len() <= u32::MAX as usize {
                Ok(result.len() as u32)
            } else {
                Err("__wrap_subinvoke_result_len: result too large".to_owned())
            }
        },
        _ => Err("__wrap_subinvoke_result_len: No subinvoke result available".to_owned()),
    }
}

/// Writes the staged sub-invocation result into the buffer the guest
/// allocated, the second half of the length-then-data pair.
pub fn wrap_subinvoke_result(state: &State, memory: &mut GuestMemory, pointer: u32) -> (r: Result<
    (),
    String,
>)
    ensures
        match state.subinvoke {
            Some(Ok(b)) => {
                &&& old(memory).spec_fits(pointer, b@.len()) ==> (r is Ok && final(memory).data@
                    =~= written(old(memory).data@, pointer, b@))
                &&& !old(memory).spec_fits(pointer, b@.len()) ==> (r is Err
                    && final(memory).data@ == old(memory).data@)
            },
            _ => r is Err && final(memory).data@ == old(memory).data@,
        },
{
    match &state.subinvoke {
        Some(Ok(result)) => {
            if memory.write(pointer, result.as_slice()) {
                Ok(())
            } else {
                Err("__wrap_subinvoke_result: memory access out of bounds".to_owned())
            }
        },
        _ => Err("__wrap_subinvoke_result: No subinvoke result available".to_owned()),
    }
}

/// Length in bytes of the staged sub-invocation error message. Fails when
/// no error is staged.
pub fn wrap_subinvoke_error_len(state: &State) -> (r: Result<u32, String>)
    ensures
        match state.subinvoke {
            Some(Err(m)) => if encode_utf8(m@).len() <= u32::MAX {
                r == Ok::<u32, String>(encode_utf8(m@).len() as u32)
            } else {
                r is Err
            },
            _ => r is Err,
        },
{
    match &state.subinvoke {
        Some(Err(e)) => {
            let message_bytes = e.as_str().as_bytes();
            if message_bytes.len() <= u32::MAX as usize {
                Ok(message_bytes.len() as u32)
            } else {
                Err("__wrap_subinvoke_error_len: error too large".to_owned())
            }
        },
        _ => Err("__wrap_subinvoke_error_len: No subinvoke error available".to_owned()),
    }
}

/// Writes the staged sub-invocation error message, as UTF-8 bytes, into
/// the buffer the guest allocated.
pub fn wrap_subinvoke_error(state: &State, memory: &mut GuestMemory, pointer: u32) -> (r: Result<
    (),
    String,
>)
    ensures
        match state.subinvoke {
            Some(Err(m)) => {
                &&& old(memory).spec_fits(pointer, encode_utf8(m@).len()) ==> (r is Ok && final(memory).data@ =~= written(old(memory).data@, pointer, encode_utf8(m@)))
                &&& !old(memory).spec_fits(pointer, encode_utf8(m@).len()) ==> (r is Err && final(memory).data@ == old(memory).data@)
            },
            _ => r is Err && final(memory).data@ == old(memory).data@,
        },
{
    match &state.subinvoke {
        Some(Err(e)) => {
            if memory.write(pointer, e.as_str().as_bytes()) {
                Ok(())
            } else {
                Err("__wrap_subinvoke_error: memory access out of bounds".to_owned())
            }
        },
        _ => Err("__wrap_subinvoke_error: No subinvoke error available".to_owned()),
    }
}

/// Reads a requested sub-invocation of a named implementation from guest
/// memory: the interface identity, the concrete implementation identity,
/// and the method and arguments, each of which must be valid UTF-8 or in
/// the buffers' case well-placed. The implementation identity is resolved
/// through the execution context exactly as a plain sub-invocation is:
/// a target outside the context is staged as a failure, never routed.
pub fn wrap_subinvoke_implementation_prepare(
    state: &mut State,
    memory: &GuestMemory,
    context: &ExecutionContext,
    interface_ptr: u32,
    interface_len: u32,
    impl_uri_ptr: u32,
    impl_uri_len: u32,
    method_ptr: u32,
    method_len: u32,
    args_ptr: u32,
    args_len: u32,
) -> (r: Result<Option<SubCall>, String>)
    ensures
        ({
            let in_bounds = memory.spec_in_bounds(interface_ptr, interface_len)
                && memory.spec_in_bounds(impl_uri_ptr, impl_uri_len) && memory.spec_in_bounds(
                method_ptr,
                method_len,
            ) && memory.spec_in_bounds(args_ptr, args_len);
            let interface = memory.data@.subrange(interface_ptr as int, interface_ptr
                + interface_len);
            let impl_uri = memory.data@.subrange(impl_uri_ptr as int, impl_uri_ptr + impl_uri_len);
            let method = memory.data@.subrange(method_ptr as int, method_ptr + method_len);
            let args = memory.data@.subrange(args_ptr as int, args_ptr + args_len);
            let well_formed = in_bounds && valid_utf8(interface) && valid_utf8(impl_uri);
            &&& !well_formed ==> (r is Err && *final(state) == *old(state))
            &&& well_formed ==> match PluginId::parse_spec(impl_uri) {
                None => {
                    &&& r == Ok::<Option<SubCall>, String>(None)
                    &&& State::only_subinvoke_implementation_changed(*old(state), *final(state))
                    &&& final(state).subinvoke_implementation matches Some(Err(m)) && m@
                        == invalid_uri_message()
                },
                Some(key) => match resolve_model(context.subinvoke_uri_resolution@, key) {
                    None => {
                        &&& r == Ok::<Option<SubCall>, String>(None)
                        &&& State::only_subinvoke_implementation_changed(
                            *old(state),
                            *final(state),
                        )
                        &&& final(state).subinvoke_implementation matches Some(Err(m)) && m@
                            == unresolved_message()
                    },
                    Some(target) => {
                        &&& *final(state) == *old(state)
                        &&& r matches Ok(Some(call))
                        &&& call.target@ == target
                        &&& call.method@ == method
                        &&& call.args@ == args
                    },
                },
            }
        }),
{
    let interface_buffer = match memory.read(interface_ptr, interface_len) {
        Some(b) => b,
        None => {
            return Err("wrap_subinvoke_implementation: memory access out of bounds".to_owned());
        },
    };
    if bytes_to_string(interface_buffer).is_none() {
        return Err("wrap_subinvoke_implementation: invalid string".to_owned());
    }
    let impl_uri_buffer = match memory.read(impl_uri_ptr, impl_uri_len) {
        Some(b) => b,
        None => {
            return Err("wrap_subinvoke_implementation: memory access out of bounds".to_owned());
        },
    };
    let method_buffer = match memory.read(method_ptr, method_len) {
        Some(b) => b,
        None => {
            return Err("wrap_subinvoke_implementation: memory access out of bounds".to_owned());
        },
    };
    let args_buffer = match memory.read(args_ptr, args_len) {
        Some(b) => b,
        None => {
            return Err("wrap_subinvoke_implementation: memory access out of bounds".to_owned());
        },
    };
    let key = match PluginId::parse(impl_uri_buffer.as_slice()) {
        Some(key) => key,
        None => {
            if bytes_to_string(impl_uri_buffer).is_none() {
                return Err("wrap_subinvoke_implementation: invalid string".to_owned());
            }
            state.subinvoke_implementation = Some(Err("subinvoke: uri is malformed".to_owned()));
            return Ok(None);
        },
    };
    if bytes_to_string(impl_uri_buffer).is_none() {
        return Err("wrap_subinvoke_implementation: invalid string".to_owned());
    }
    match context.resolve(&key) {
        Some(target) => Ok(
            Some(SubCall { target, method: method_buffer, args: args_buffer }),
        ),
        None => {
            state.subinvoke_implementation = Some(
                Err("subinvoke: uri is not registered in the execution context".to_owned()),
            );
            Ok(None)
        },
    }
}

/// Stages the outcome of a performed named-implementation sub-invocation
/// and reports it to the guest: 1 for a result, 0 for an error.
pub fn wrap_subinvoke_implementation_finish(
    state: &mut State,
    outcome: Result<Vec<u8>, String>,
) -> (r: i32)
    ensures
        State::only_subinvoke_implementation_changed(*old(state), *final(state)),
        final(state).subinvoke_implementation == Some(outcome),
        r == if outcome is Ok {
            1int
        } else {
            0int
        },
{
    let r: i32 = if outcome.is_ok() {
        1
    } else {
        0
    };
    state.subinvoke_implementation = Some(outcome);
    r
}

/// Length of the staged named-implementation result. Fails when none is
/// staged.
pub fn wrap_subinvoke_implementation_result_len(state: &State) -> (r: Result<u32, String>)
    ensures
        match state.subinvoke_implementation {
            Some(Ok(b)) => if b@.len() <= u32::MAX {
                r == Ok::<u32, String>(b@.len() as u32)
            } else {
                r is Err
            },
            _ => r is Err,
        },
{
    match &state.subinvoke_implementation {
        Some(Ok(result)) => {
            if result.len() <= u32::MAX as usize {
                Ok(result.len() as u32)
            } else {
                Err("wrap_subinvoke_implementation_result_len: result too large".to_owned())
            }
        },
        _ => Err(
            "wrap_subinvoke_implementation_result_len: No subinvoke implementation result available".to_owned(),
        ),
    }
}

/// Writes the staged named-implementation result into the buffer the
/// guest allocated.
pub fn wrap_subinvoke_implementation_result(
    state: &State,
    memory: &mut GuestMemory,
    pointer: u32,
) -> (r: Result<(), String>)
    ensures
        match state.subinvoke_implementation {
            Some(Ok(b)) => {
                &&& old(memory).spec_fits(pointer, b@.len()) ==> (r is Ok && final(memory).data@
                    =~= written(old(memory).data@, pointer, b@))
                &&& !old(memory).spec_fits(pointer, b@.len()) ==> (r is Err
                    && final(memory).data@ == old(memory).data@)
            },
            _ => r is Err && final(memory).data@ == old(memory).data@,
        },
{
    match &state.subinvoke_implementation {
        Some(Ok(result)) => {
            if memory.write(pointer, result.as_slice()) {
                Ok(())
            } else {
                Err("wrap_subinvoke_implementation_result: memory access out of bounds".to_owned())
            }
        },
        _ => Err(
            "wrap_subinvoke_implementation_result: No subinvoke implementation result available".to_owned(),
        ),
    }
}

/// Length in bytes of the staged named-implementation error message.
/// Fails when none is staged.
pub fn wrap_subinvoke_implementation_error_len(state: &State) -> (r: Result<u32, String>)
    ensures
        match state.subinvoke_implementation {
            Some(Err(m)) => if encode_utf8(m@).len() <= u32::MAX {
                r == Ok::<u32, String>(encode_utf8(m@).len() as u32)
            } else {
                r is Err
            },
            _ => r is Err,
        },
{
    match &state.subinvoke_implementation {
        Some(Err(e)) => {
            let message_bytes = e.as_str().as_bytes();
            if message_bytes.len() <= u32::MAX as usize {
                Ok(message_bytes.len() as u32)
            } else {
                Err("wrap_subinvoke_implementation_error_len: error too large".to_owned())
            }
        },
        _ => Err(
            "wrap_subinvoke_implementation_error_len: No subinvoke implementation error available".to_owned(),
        ),
    }
}

/// Writes the staged named-implementation error message, as UTF-8 bytes,
/// into the buffer the guest allocated.
pub fn wrap_subinvoke_implementation_error(
    state: &State,
    memory: &mut GuestMemory,
    pointer: u32,
) -> (r: Result<(), String>)
    ensures
        match state.subinvoke_implementation {
            Some(Err(m)) => {
                &&& old(memory).spec_fits(pointer, encode_utf8(m@).len()) ==> (r is Ok && final(memory).data@ =~= written(old(memory).data@, pointer, encode_utf8(m@)))
                &&& !old(memory).spec_fits(pointer, encode_utf8(m@).len()) ==> (r is Err && final(memory).data@ == old(memory).data@)
            },
            _ => r is Err && final(memory).data@ == old(memory).data@,
        },
{
    match &state.subinvoke_implementation {
        Some(Err(e)) => {
            if memory.write(pointer, e.as_str().as_bytes()) {
                Ok(())
            } else {
                Err("wrap_subinvoke_implementation_error: memory access out of bounds".to_owned())
            }
        },
        _ => Err(
            "wrap_subinvoke_implementation_error: No subinvoke implementation error available".to_owned(),
        ),
    }
}

/// Reads the interface identity whose implementations the guest asks for.
/// The text must be in bounds, valid UTF-8, and a well-formed identity;
/// the embedder then computes the list and stages it with
/// `wrap_get_implementations_finish`.
pub fn wrap_get_implementations_prepare(memory: &GuestMemory, pointer: u32, length: u32) -> (r:
    Result<PluginId, String>)
    ensures
        ({
            let window = memory.data@.subrange(pointer as int, pointer + length);
            &&& !memory.spec_in_bounds(pointer, length) ==> r is Err
            &&& (memory.spec_in_bounds(pointer, length) && !valid_utf8(window)) ==> r is Err
            &&& (memory.spec_in_bounds(pointer, length) && valid_utf8(window)) ==> match PluginId::parse_spec(
                window,
            ) {
                None => r is Err,
                Some(p) => r matches Ok(id) && id@ == p,
            }
        }),
{
    let buffer = match memory.read(pointer, length) {
        Some(b) => b,
        None => {
            return Err("wrap_get_implementations: memory access out of bounds".to_owned());
        },
    };
    let key = match PluginId::parse(buffer.as_slice()) {
        Some(key) => key,
        None => {
            if bytes_to_string(buffer).is_none() {
                return Err("wrap_get_implementations: invalid string".to_owned());
            }
            return Err("wrap_get_implementations: uri is malformed".to_owned());
        },
    };
    if bytes_to_string(buffer).is_none() {
        return Err("wrap_get_implementations: invalid string".to_owned());
    }
    Ok(key)
}

/// Stages the encoded list of implementations for the guest to fetch and
/// signals that a result is available.
pub fn wrap_get_implementations_finish(state: &mut State, result: Vec<u8>) -> (r: i32)
    ensures
        State::only_get_implementations_changed(*old(state), *final(state)),
        final(state).get_implementations_result == Some(result),
        r == 1int,
{
    state.get_implementations_result = Some(result);
    1
}

/// Length of the staged implementations list. Fails when none is staged.
pub fn wrap_get_implementations_result_len(state: &State) -> (r: Result<u32, String>)
    ensures
        match state.get_implementations_result {
            Some(b) => if b@.len() <= u32::MAX {
                r == Ok::<u32, String>(b@.len() as u32)
            } else {
                r is Err
            },
            None => r is Err,
        },
{
    match &state.get_implementations_result {
        Some(result) => {
            if result.len() <= u32::MAX as usize {
                Ok(result.len() as u32)
            } else {
                Err("wrap_get_implementations_result_len: result too large".to_owned())
            }
        },
        None => Err(
            "wrap_get_implementations_result_len: No get implementations result available".to_owned(),
        ),
    }
}

/// Writes the staged implementations list into the buffer the guest
/// allocated.
pub fn wrap_get_implementations_result(state: &State, memory: &mut GuestMemory, pointer: u32) -> (r:
    Result<(), String>)
    ensures
        match state.get_implementations_result {
            Some(b) => {
                &&& old(memory).spec_fits(pointer, b@.len()) ==> (r is Ok && final(memory).data@
                    =~= written(old(memory).data@, pointer, b@))
                &&& !old(memory).spec_fits(pointer, b@.len()) ==> (r is Err
                    && final(memory).data@ == old(memory).data@)
            },
            None => r is Err && final(memory).data@ == old(memory).data@,
        },
{
    match &state.get_implementations_result {
        Some(result) => {
            if memory.write(pointer, result.as_slice()) {
                Ok(())
            } else {
                Err("wrap_get_implementations_result: memory access out of bounds".to_owned())
            }
        },
        None => Err(
            "wrap_get_implementations_result: No get implementations result available".to_owned(),
        ),
    }
}

/// Writes the wrap's environment blob verbatim into guest memory at the
/// offset the guest chose.
pub fn wrap_load_env(state: &State, memory: &mut GuestMemory, pointer: u32) -> (r: Result<
    (),
    String,
>)
    ensures
        old(memory).spec_fits(pointer, state.env@.len()) ==> (r is Ok && final(memory).data@
            =~= written(old(memory).data@, pointer, state.env@)),
        !old(memory).spec_fits(pointer, state.env@.len()) ==> (r is Err && final(memory).data@
            == old(memory).data@),
{
    if memory.write(pointer, state.env.as_slice()) {
        Ok(())
    } else {
        Err("__wrap_load_env: memory access out of bounds".to_owned())
    }
}

/// Reads a diagnostic string the guest wants logged and hands it to the
/// embedder. A side effect only: it changes no state and - unlike every
/// other import - it never fails the call. An out-of-bounds or non-UTF-8
/// message is simply dropped, and the embedder logs best-effort.
pub fn wrap_debug_log(memory: &GuestMemory, msg_offset: u32, msg_length: u32) -> (r: Option<
    String,
>)
    ensures
        ({
            let window = memory.data@.subrange(msg_offset as int, msg_offset + msg_length);
            &&& !memory.spec_in_bounds(msg_offset, msg_length) ==> r is None
            &&& (memory.spec_in_bounds(msg_offset, msg_length) && !valid_utf8(window)) ==> r
                is None
            &&& (memory.spec_in_bounds(msg_offset, msg_length) && valid_utf8(window)) ==> (
            r matches Some(s) && s@ == decode_utf8(window))
        }),
{
    match memory.read(msg_offset, msg_length) {
        Some(bytes) => bytes_to_string(bytes),
        None => None,
    }
}

} // verus!
