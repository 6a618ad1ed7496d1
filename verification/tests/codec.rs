//! The object codec at the boundary: round trips through the external
//! encoder, and the sample-method scenario against a native plugin.

use polywrap_client_hmny::Client;
use polywrap_client_hmny::ClientBuilder;
use polywrap_client_hmny::ClosureWrap;
use polywrap_client_hmny::GuestCode;
use polywrap_client_hmny::GuestMemory;
use polywrap_client_hmny::InvokeError;
use polywrap_client_hmny::PluginId;
use polywrap_client_hmny::State;
use polywrap_client_hmny::WrapModule;
use polywrap_client_hmny::ExecutionContext;
use std::collections::BTreeMap;

type Callback = fn(Vec<u8>) -> Result<Vec<u8>, InvokeError>;

/// A stand-in engine for the type parameters the client carries; these
/// tests only ever dispatch into native plugins.
pub struct NoModule;

pub struct NoGuest;

impl WrapModule<NoGuest> for NoModule {
    fn compile(_bytes: &[u8]) -> Result<Self, String> {
        Err("no engine in this test".to_string())
    }

    fn instantiate(&self) -> (NoGuest, GuestMemory) {
        (NoGuest, GuestMemory::new(0))
    }
}

impl GuestCode for NoGuest {
    fn call_invoke(
        &mut self,
        _state: &mut State,
        _memory: &mut GuestMemory,
        _context: &ExecutionContext,
        _method_len: usize,
        _args_len: usize,
        _env_len: usize,
    ) -> Result<i32, String> {
        Err("no guest in this test".to_string())
    }
}

fn id(text: &str) -> PluginId {
    PluginId::parse(text.as_bytes()).unwrap()
}

#[test]
fn codec_round_trips_a_map() {
    let mut value: BTreeMap<String, String> = BTreeMap::new();
    value.insert("arg".to_string(), "a from sample_method".to_string());
    let bytes = polywrap_msgpack_serde::to_vec(&value).unwrap();
    let back: BTreeMap<String, String> = polywrap_msgpack_serde::from_slice(&bytes).unwrap();
    assert_eq!(back, value);
}

#[test]
fn codec_round_trips_scalars_and_sequences() {
    let n: u64 = 123456789;
    let bytes = polywrap_msgpack_serde::to_vec(&n).unwrap();
    let back: u64 = polywrap_msgpack_serde::from_slice(&bytes).unwrap();
    assert_eq!(back, n);

    let text = "héllo wörld".to_string();
    let bytes = polywrap_msgpack_serde::to_vec(&text).unwrap();
    let back: String = polywrap_msgpack_serde::from_slice(&bytes).unwrap();
    assert_eq!(back, text);

    let seq: Vec<i64> = vec![-3, 0, 7, 1 << 40];
    let bytes = polywrap_msgpack_serde::to_vec(&seq).unwrap();
    let back: Vec<i64> = polywrap_msgpack_serde::from_slice(&bytes).unwrap();
    assert_eq!(back, seq);

    let flag = true;
    let bytes = polywrap_msgpack_serde::to_vec(&flag).unwrap();
    let back: bool = polywrap_msgpack_serde::from_slice(&bytes).unwrap();
    assert_eq!(back, flag);
}

fn sample_method(args: Vec<u8>) -> Result<Vec<u8>, InvokeError> {
    let decoded: BTreeMap<String, String> = polywrap_msgpack_serde::from_slice(&args)
        .map_err(|e| InvokeError::MsgpackDeserialize(e.to_string()))?;
    let arg = decoded
        .get("arg")
        .cloned()
        .ok_or(InvokeError::MethodNotFound)?;
    let mut reply: BTreeMap<String, String> = BTreeMap::new();
    reply.insert(
        "result".to_string(),
        format!("{} from hmny-core/test-wrap", arg),
    );
    polywrap_msgpack_serde::to_vec(&reply).map_err(|e| InvokeError::MsgpackSerialize(e.to_string()))
}

#[test]
fn sample_method_scenario_on_the_native_plugin() {
    let table: ClosureWrap<Callback> =
        ClosureWrap::new().add_method("sampleMethod".as_bytes().to_vec(), sample_method as Callback);
    let mut client: Client<NoModule, NoGuest, Callback> = ClientBuilder::new()
        .add_closure(id("hmny-core/test-wrap"), table)
        .load::<NoModule, NoGuest>()
        .unwrap();

    let mut args: BTreeMap<String, String> = BTreeMap::new();
    args.insert("arg".to_string(), "a from sample_method".to_string());
    let encoded = polywrap_msgpack_serde::to_vec(&args).unwrap();

    let reply = client
        .invoke_raw(
            &id("hmny-core/test-wrap"),
            &"sampleMethod".as_bytes().to_vec(),
            encoded,
        )
        .unwrap();

    let decoded: BTreeMap<String, String> = polywrap_msgpack_serde::from_slice(&reply).unwrap();
    assert_eq!(
        decoded.get("result").unwrap(),
        "a from sample_method from hmny-core/test-wrap"
    );
}

#[test]
fn echo_plugin_round_trips_an_encoded_value() {
    fn echo(args: Vec<u8>) -> Result<Vec<u8>, InvokeError> {
        Ok(args)
    }
    let table: ClosureWrap<Callback> =
        ClosureWrap::new().add_method("echo".as_bytes().to_vec(), echo as Callback);
    let mut client: Client<NoModule, NoGuest, Callback> = ClientBuilder::new()
        .add_closure(id("hmny-core/test-wrap"), table)
        .load::<NoModule, NoGuest>()
        .unwrap();

    let mut value: BTreeMap<String, String> = BTreeMap::new();
    value.insert("k".to_string(), "v".to_string());
    let encoded = polywrap_msgpack_serde::to_vec(&value).unwrap();

    let reply = client
        .invoke_raw(
            &id("hmny-core/test-wrap"),
            &"echo".as_bytes().to_vec(),
            encoded.clone(),
        )
        .unwrap();
    assert_eq!(reply, encoded);
    let back: BTreeMap<String, String> = polywrap_msgpack_serde::from_slice(&reply).unwrap();
    assert_eq!(back, value);
}
