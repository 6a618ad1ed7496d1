//! End-to-end runs of the client: a scripted model engine drives the
//! verified driver, pool, and host import layer exactly as an embedded
//! bytecode engine would.

use polywrap_client_hmny::imports;
use polywrap_client_hmny::Client;
use polywrap_client_hmny::ClientBuilder;
use polywrap_client_hmny::ClosureWrap;
use polywrap_client_hmny::ExecutionContext;
use polywrap_client_hmny::GuestCode;
use polywrap_client_hmny::GuestMemory;
use polywrap_client_hmny::InvokeError;
use polywrap_client_hmny::LoadError;
use polywrap_client_hmny::LoadedWrap;
use polywrap_client_hmny::PluginId;
use polywrap_client_hmny::State;
use polywrap_client_hmny::Wrap;
use polywrap_client_hmny::WrapInstance;
use polywrap_client_hmny::WrapModule;

type Callback = fn(Vec<u8>) -> Result<Vec<u8>, InvokeError>;
type ModelClient = Client<ModelModule, ModelGuest, Callback>;

const MODE_ECHO: u8 = 1;
const MODE_SILENT: u8 = 2;
const MODE_TRAP: u8 = 3;
const MODE_ABORT: u8 = 4;
const MODE_SUBINVOKE: u8 = 5;

/// A compiled module of the model engine: one byte of bytecode selects
/// what its guests do.
pub struct ModelModule {
    mode: u8,
}

/// A scripted guest: behaves like a tiny wasm module would, calling the
/// host imports against its own linear memory.
pub struct ModelGuest {
    mode: u8,
}

impl WrapModule<ModelGuest> for ModelModule {
    fn compile(bytes: &[u8]) -> Result<Self, String> {
        if bytes.len() != 1 {
            return Err("bytecode must be exactly one mode byte".to_string());
        }
        Ok(ModelModule { mode: bytes[0] })
    }

    fn instantiate(&self) -> (ModelGuest, GuestMemory) {
        (ModelGuest { mode: self.mode }, GuestMemory::new(4096))
    }
}

impl GuestCode for ModelGuest {
    fn call_invoke(
        &mut self,
        state: &mut State,
        memory: &mut GuestMemory,
        context: &ExecutionContext,
        method_len: usize,
        args_len: usize,
        _env_len: usize,
    ) -> Result<i32, String> {
        match self.mode {
            MODE_ECHO => {
                // Pull method and args into guest memory, then hand the
                // args bytes back as the result: a true echo through the
                // sandbox boundary.
                imports::wrap_invoke_args(state, memory, 0, method_len as u32)?;
                imports::wrap_invoke_result(
                    state,
                    memory,
                    method_len as u32,
                    args_len as u32,
                )?;
                Ok(1)
            }
            MODE_SILENT => {
                // Return normally without staging anything: an ABI
                // protocol violation the driver must catch.
                Ok(1)
            }
            MODE_TRAP => Err("guest trapped".to_string()),
            MODE_ABORT => {
                memory
                    .write(0, "boom".as_bytes())
                    .then_some(())
                    .ok_or("write failed".to_string())?;
                memory
                    .write(10, "lib.rs".as_bytes())
                    .then_some(())
                    .ok_or("write failed".to_string())?;
                match imports::wrap_abort(memory, 0, 4, 10, 6, 7, 42) {
                    Ok(()) => Ok(1),
                    Err(diagnostic) => Err(diagnostic),
                }
            }
            MODE_SUBINVOKE => {
                // Ask for a sub-invocation of an identity that is not in
                // the execution context, then surface the staged failure
                // as this call's error.
                let uri = "nope/missing".as_bytes();
                memory
                    .write(100, uri)
                    .then_some(())
                    .ok_or("write failed".to_string())?;
                let prepared = imports::wrap_subinvoke_prepare(
                    state,
                    memory,
                    context,
                    100,
                    uri.len() as u32,
                    100,
                    0,
                    100,
                    0,
                )?;
                assert!(prepared.is_none());
                let error_len = imports::wrap_subinvoke_error_len(state)?;
                imports::wrap_subinvoke_error(state, memory, 200)?;
                imports::wrap_invoke_error(state, memory, 200, error_len)?;
                Ok(0)
            }
            _ => Err("unknown mode".to_string()),
        }
    }
}

fn id(text: &str) -> PluginId {
    PluginId::parse(text.as_bytes()).unwrap()
}

fn client_with(mode: u8, uri: &str) -> ModelClient {
    ClientBuilder::new()
        .add_bytes(id(uri), vec![mode])
        .load::<ModelModule, ModelGuest>()
        .unwrap()
}

#[test]
fn echo_round_trip_through_a_loaded_wrap() {
    let mut client = client_with(MODE_ECHO, "hmny-wrap/test-wrap");
    let payload = vec![130u8, 1, 2, 3];
    let r = client
        .invoke_raw(
            &id("hmny-wrap/test-wrap"),
            &"sampleMethod".as_bytes().to_vec(),
            payload.clone(),
        )
        .unwrap();
    assert_eq!(r, payload);
}

#[test]
fn empty_arguments_echo_back_empty() {
    let mut client = client_with(MODE_ECHO, "hmny-wrap/test-wrap");
    let r = client
        .invoke_raw(
            &id("hmny-wrap/test-wrap"),
            &"m".as_bytes().to_vec(),
            Vec::new(),
        )
        .unwrap();
    assert_eq!(r, Vec::<u8>::new());
}

#[test]
fn silent_guest_is_an_abi_violation() {
    let mut client = client_with(MODE_SILENT, "hmny-wrap/test-wrap");
    let r = client.invoke_raw(
        &id("hmny-wrap/test-wrap"),
        &"m".as_bytes().to_vec(),
        vec![1u8],
    );
    assert!(matches!(r, Err(InvokeError::AbiViolation)));
}

#[test]
fn trapping_guest_is_a_runtime_error() {
    let mut client = client_with(MODE_TRAP, "hmny-wrap/test-wrap");
    let r = client.invoke_raw(
        &id("hmny-wrap/test-wrap"),
        &"m".as_bytes().to_vec(),
        vec![1u8],
    );
    match r {
        Err(InvokeError::RuntimeError(message)) => assert_eq!(message, "guest trapped"),
        other => panic!("expected a runtime error, got {:?}", other),
    }
}

#[test]
fn aborting_guest_reports_the_formatted_diagnostic() {
    let mut client = client_with(MODE_ABORT, "hmny-wrap/test-wrap");
    let r = client.invoke_raw(
        &id("hmny-wrap/test-wrap"),
        &"m".as_bytes().to_vec(),
        vec![1u8],
    );
    match r {
        Err(InvokeError::RuntimeError(message)) => {
            assert_eq!(message, "Abort: boom\nFile: lib.rs\nLocation: [7, 42]")
        }
        other => panic!("expected a runtime error, got {:?}", other),
    }
}

#[test]
fn unresolved_subinvocation_never_routes_anywhere() {
    let mut client = client_with(MODE_SUBINVOKE, "hmny-wrap/test-wrap");
    let r = client.invoke_raw(
        &id("hmny-wrap/test-wrap"),
        &"m".as_bytes().to_vec(),
        vec![1u8],
    );
    match r {
        Err(InvokeError::RuntimeError(message)) => assert_eq!(
            message,
            "subinvoke: uri is not registered in the execution context"
        ),
        other => panic!("expected a runtime error, got {:?}", other),
    }
}

#[test]
fn pool_recycles_one_instance_across_calls() {
    let mut client = client_with(MODE_ECHO, "hmny-wrap/test-wrap");
    let uri = id("hmny-wrap/test-wrap");
    let method = "m".as_bytes().to_vec();
    let first = client.invoke_raw(&uri, &method, vec![1u8]).unwrap();
    assert_eq!(first, vec![1u8]);
    match &client.loaded_wraps[0].1 {
        Wrap::Loaded(wrap) => assert_eq!(wrap.cached_instances.len(), 1),
        Wrap::Closure(_) => panic!("expected a loaded wrap"),
    }
    // The recycled instance starts the next call with a fresh mailbox: no
    // method, args, or staged outcome of the first call is observable.
    let second = client.invoke_raw(&uri, &method, vec![9u8, 8]).unwrap();
    assert_eq!(second, vec![9u8, 8]);
    match &client.loaded_wraps[0].1 {
        Wrap::Loaded(wrap) => {
            assert_eq!(wrap.cached_instances.len(), 1);
            assert_eq!(wrap.cached_instances[0].last_used, 2);
        }
        Wrap::Closure(_) => panic!("expected a loaded wrap"),
    }
}

#[test]
fn checkout_is_exclusive_and_grows_on_demand() {
    let module = ModelModule { mode: MODE_ECHO };
    let mut wrap: LoadedWrap<ModelModule, ModelGuest> = LoadedWrap {
        module,
        execution_context: ExecutionContext::new(),
        cached_instances: Vec::new(),
    };
    let mut first = wrap.checkout();
    let mut second = wrap.checkout();
    assert_eq!(wrap.cached_instances.len(), 0);
    // Both checked-out instances complete their calls independently.
    let context = ExecutionContext::new();
    let a = first
        .invoke("m".as_bytes().to_vec(), vec![1u8], &context, 10)
        .unwrap();
    let b = second
        .invoke("m".as_bytes().to_vec(), vec![2u8], &context, 11)
        .unwrap();
    assert_eq!(a, vec![1u8]);
    assert_eq!(b, vec![2u8]);
    assert_eq!(first.last_used, 10);
    assert_eq!(second.last_used, 11);
    wrap.checkin(first);
    wrap.checkin(second);
    assert_eq!(wrap.cached_instances.len(), 2);
}

#[test]
fn instance_mailbox_is_reset_between_calls() {
    let (guest, memory) = ModelModule { mode: MODE_SILENT }.instantiate();
    let mut instance = WrapInstance::new(guest, memory);
    instance.state.invoke = Some(Ok(vec![42u8]));
    instance.state.subinvoke = Some(Err("stale".to_string()));
    // A silent guest stages nothing, so anything but AbiViolation here
    // would be leakage from the staged values above.
    let context = ExecutionContext::new();
    let r = instance.invoke("m".as_bytes().to_vec(), vec![1u8], &context, 5);
    assert!(matches!(r, Err(InvokeError::AbiViolation)));
    assert_eq!(instance.state.method, Some("m".as_bytes().to_vec()));
    assert_eq!(instance.state.args, Some(vec![1u8]));
    assert_eq!(instance.state.subinvoke, None);
}

#[test]
fn unknown_identity_touches_no_pool() {
    let mut client = client_with(MODE_ECHO, "hmny-wrap/test-wrap");
    let r = client.invoke_raw(
        &id("hmny-core/absent"),
        &"m".as_bytes().to_vec(),
        vec![1u8],
    );
    assert!(matches!(r, Err(InvokeError::WrapNotLoaded)));
    assert_eq!(client.clock, 0);
    match &client.loaded_wraps[0].1 {
        Wrap::Loaded(wrap) => assert_eq!(wrap.cached_instances.len(), 0),
        Wrap::Closure(_) => panic!("expected a loaded wrap"),
    }
}

#[test]
fn closure_method_not_found() {
    fn nope(_args: Vec<u8>) -> Result<Vec<u8>, InvokeError> {
        Ok(Vec::new())
    }
    let table: ClosureWrap<Callback> =
        ClosureWrap::new().add_method("known".as_bytes().to_vec(), nope as Callback);
    let mut client: ModelClient = ClientBuilder::new()
        .add_closure(id("hmny-core/test-wrap"), table)
        .load::<ModelModule, ModelGuest>()
        .unwrap();
    let r = client.invoke_raw(
        &id("hmny-core/test-wrap"),
        &"absent".as_bytes().to_vec(),
        vec![1u8],
    );
    assert!(matches!(r, Err(InvokeError::MethodNotFound)));
}

#[test]
fn closure_echo_returns_the_argument_unchanged() {
    fn echo(args: Vec<u8>) -> Result<Vec<u8>, InvokeError> {
        Ok(args)
    }
    let table: ClosureWrap<Callback> =
        ClosureWrap::new().add_method("echo".as_bytes().to_vec(), echo as Callback);
    let mut client: ModelClient = ClientBuilder::new()
        .add_closure(id("hmny-core/test-wrap"), table)
        .load::<ModelModule, ModelGuest>()
        .unwrap();
    let payload = vec![9u8, 9, 9];
    let r = client
        .invoke_raw(
            &id("hmny-core/test-wrap"),
            &"echo".as_bytes().to_vec(),
            payload.clone(),
        )
        .unwrap();
    assert_eq!(r, payload);
}

#[test]
fn add_method_replaces_an_earlier_entry() {
    fn one(_args: Vec<u8>) -> Result<Vec<u8>, InvokeError> {
        Ok(vec![1u8])
    }
    fn two(_args: Vec<u8>) -> Result<Vec<u8>, InvokeError> {
        Ok(vec![2u8])
    }
    let table: ClosureWrap<Callback> = ClosureWrap::new()
        .add_method("m".as_bytes().to_vec(), one as Callback)
        .add_method("m".as_bytes().to_vec(), two as Callback);
    assert_eq!(table.methods.len(), 1);
    let r = table.invoke(&"m".as_bytes().to_vec(), Vec::new()).unwrap();
    assert_eq!(r, vec![2u8]);
}

#[test]
fn invalid_bytecode_fails_the_load() {
    let r = ClientBuilder::<Callback>::new()
        .add_bytes(id("hmny-wrap/test-wrap"), Vec::new())
        .load::<ModelModule, ModelGuest>();
    match r {
        Err(LoadError::InvalidWasm(message)) => {
            assert_eq!(message, "bytecode must be exactly one mode byte")
        }
        _ => panic!("expected an invalid-bytecode load error"),
    }
}

#[test]
fn later_registration_of_an_identity_wins() {
    let mut client: ModelClient = ClientBuilder::new()
        .add_bytes(id("hmny-wrap/test-wrap"), vec![MODE_TRAP])
        .add_bytes(id("hmny-wrap/test-wrap"), vec![MODE_ECHO])
        .load::<ModelModule, ModelGuest>()
        .unwrap();
    assert_eq!(client.loaded_wraps.len(), 1);
    let r = client
        .invoke_raw(
            &id("hmny-wrap/test-wrap"),
            &"m".as_bytes().to_vec(),
            vec![3u8],
        )
        .unwrap();
    assert_eq!(r, vec![3u8]);
}
