//! The public call path: a client resolves a plugin identity to a loaded
//! wrap, obtains an instance by exclusive checkout, drives one invocation,
//! and returns the instance to the pool - or dispatches into a native
//! plugin's method table. The client owns all runtime state; nothing is
//! process-wide.

use crate::closure::ClosureWrap;
use crate::errors::InvokeError;
use crate::errors::LoadError;
use crate::identity::PluginId;
use crate::instance::GuestCode;
use crate::loaded::LoadedWrap;
use crate::loaded::WrapModule;
use vstd::prelude::*;

verus! {

/// A registered plugin: either a sandboxed loaded wrap or a native
/// closure-backed one. Both satisfy the same invoke(method, bytes) ->
/// bytes contract; the client dispatches on the variant.
pub enum Wrap<M, G, F> {
    /// A compiled guest module with its pool and execution context.
    Loaded(LoadedWrap<M, G>),
    /// A native method table.
    Closure(ClosureWrap<F>),
}

/// Index of the first entry registered under `key`, if any.
pub open spec fn wrap_index<M, G, F>(
    table: Seq<(PluginId, Wrap<M, G, F>)>,
    key: (Seq<u8>, Seq<u8>),
) -> Option<int>
    decreases table.len(),
{
    if table.len() == 0 {
        None
    } else if table[0].0@ == key {
        Some(0)
    } else {
        match wrap_index(table.drop_first(), key) {
            Some(i) => Some(i + 1),
            None => None,
        }
    }
}

/// `wrap_index` finds exactly the first entry whose identity is `key`,
/// and nothing when no entry has it.
pub proof fn lemma_wrap_index<M, G, F>(table: Seq<(PluginId, Wrap<M, G, F>)>, key: (Seq<u8>, Seq<u8>))
    ensures
        wrap_index(table, key) is None ==> forall|j: int|
            0 <= j < table.len() ==> (#[trigger] table[j]).0@ != key,
        wrap_index(table, key) matches Some(i) ==> 0 <= i < table.len() && table[i].0@ == key
            && forall|j: int| 0 <= j < i ==> (#[trigger] table[j]).0@ != key,
    decreases table.len(),
{
    if table.len() != 0 && table[0].0@ != key {
        lemma_wrap_index(table.drop_first(), key);
        assert forall|j: int| 1 <= j < table.len() implies table[j] == table.drop_first()[j - 1] by {}
    }
}

/// The public entry point: the registry of loaded plugins and the logical
/// clock that stamps instance use.
pub struct Client<M, G, F> {
    /// The plugins this client can invoke, each under its identity.
    pub loaded_wraps: Vec<(PluginId, Wrap<M, G, F>)>,
    /// A logical clock: it ticks once per sandboxed invoke and stamps the
    /// instance used, as a staleness signal only.
    pub clock: u64,
}

impl<M: WrapModule<G>, G: GuestCode, F: Fn(Vec<u8>) -> Result<Vec<u8>, InvokeError>> Client<
    M,
    G,
    F,
> {
    /// True when every native plugin's method table is well-formed.
    pub open spec fn wf(self) -> bool {
        forall|i: int|
            0 <= i < self.loaded_wraps@.len() ==> match (#[trigger] self.loaded_wraps@[i]).1 {
                Wrap::Closure(c) => c.wf(),
                Wrap::Loaded(_) => true,
            }
    }

    /// Invokes `method` with encoded arguments on the plugin registered
    /// under `uri`.
    ///
    /// An unknown identity fails as not-loaded and touches nothing, no
    /// pool included. A native plugin answers from its method table, with
    /// method-not-found for a name it lacks, and changes nothing either.
    /// A sandboxed plugin ticks the clock, checks an instance out of its
    /// pool (or instantiates one), drives the call, and checks the
    /// instance back in whether the call succeeded or failed; a returned
    /// success is exactly the payload that instance staged.
    pub fn invoke_raw(&mut self, uri: &PluginId, method: &Vec<u8>, args: Vec<u8>) -> (r: Result<
        Vec<u8>,
        InvokeError,
    >)
        requires
            old(self).wf(),
        ensures
            final(self).wf(),
            match wrap_index(old(self).loaded_wraps@, uri@) {
                None => r == Err::<Vec<u8>, InvokeError>(InvokeError::WrapNotLoaded)
                    && *final(self) == *old(self),
                Some(i) => match old(self).loaded_wraps@[i].1 {
                    Wrap::Closure(c) => {
                        &&& *final(self) == *old(self)
                        &&& c.lookup(method@) is None ==> r == Err::<Vec<u8>, InvokeError>(
                            InvokeError::MethodNotFound,
                        )
                        &&& c.lookup(method@) matches Some(f) ==> call_ensures(f, (args,), r)
                    },
                    Wrap::Loaded(lw) => {
                        &&& final(self).clock == if old(self).clock < u64::MAX {
                            old(self).clock + 1
                        } else {
                            old(self).clock as int
                        }
                        &&& final(self).loaded_wraps@.len() == old(self).loaded_wraps@.len()
                        &&& forall|j: int|
                            0 <= j < old(self).loaded_wraps@.len() && j != i
                                ==> final(self).loaded_wraps@[j] == old(self).loaded_wraps@[j]
                        &&& final(self).loaded_wraps@[i].0 == old(self).loaded_wraps@[i].0
                        &&& final(self).loaded_wraps@[i].1 matches Wrap::Loaded(post) && {
                            &&& post.module == lw.module
                            &&& post.execution_context == lw.execution_context
                            &&& post.cached_instances@.len() == if lw.cached_instances@.len()
                                == 0 {
                                1nat
                            } else {
                                lw.cached_instances@.len() as nat
                            }
                            &&& post.cached_instances@.last().last_used == final(self).clock
                            &&& r matches Ok(b) ==> (
                            post.cached_instances@.last().state.invoke matches Some(Ok(sb)) && sb@
                                == b@)
                        }
                    },
                },
            },
    {
        proof {
            lemma_wrap_index(self.loaded_wraps@, uri@);
        }
        let idx = match find_wrap_index(&self.loaded_wraps, uri) {
            Some(idx) => idx,
            None => {
                return Err(InvokeError::WrapNotLoaded);
            },
        };
        match &self.loaded_wraps[idx].1 {
            Wrap::Closure(closure_wrap) => {
                return closure_wrap.invoke(method, args);
            },
            Wrap::Loaded(_) => {},
        }
        self.clock = if self.clock < u64::MAX {
            self.clock + 1
        } else {
            self.clock
        };
        let now = self.clock;
        let method_copy = vstd::slice::slice_to_vec(method.as_slice());
        match &mut self.loaded_wraps[idx].1 {
            Wrap::Loaded(loaded_wrap) => {
                // Exclusive checkout: the instance leaves the pool before the
                // call and comes back after it, success or failure alike.
                let mut instance = loaded_wrap.checkout();
                let result = instance.invoke(
                    method_copy,
                    args,
                    &loaded_wrap.execution_context,
                    now,
                );
                loaded_wrap.checkin(instance);
                result
            },
            Wrap::Closure(_) => {
                proof {
                    assert(false);
                }
                Err(InvokeError::WrapNotLoaded)
            },
        }
    }
}

/// A plugin waiting to be loaded: raw guest bytecode, or a ready native
/// method table.
pub enum LoadWrapRequest<F> {
    /// Guest bytecode to compile at load time.
    Bytes(Vec<u8>),
    /// A native plugin to register as it is.
    Closure(ClosureWrap<F>),
}

/// The request registered last under `key`, if any: later registrations
/// of the same identity replace earlier ones.
pub open spec fn latest_request<F>(
    requests: Seq<(PluginId, LoadWrapRequest<F>)>,
    key: (Seq<u8>, Seq<u8>),
) -> Option<LoadWrapRequest<F>>
    decreases requests.len(),
{
    if requests.len() == 0 {
        None
    } else if requests.last().0@ == key {
        Some(requests.last().1)
    } else {
        latest_request(requests.drop_last(), key)
    }
}

/// True when the loaded entry `wrap` is what the request `req` asked for:
/// a registered native plugin is taken over unchanged, and bytecode
/// becomes a loaded wrap with an empty pool and an empty capability
/// table.
pub open spec fn request_loaded<M, G, F>(req: LoadWrapRequest<F>, wrap: Wrap<M, G, F>) -> bool {
    match (req, wrap) {
        (LoadWrapRequest::Closure(cw), Wrap::Closure(entry)) => entry == cw,
        (LoadWrapRequest::Bytes(_), Wrap::Loaded(lw)) => lw.cached_instances@.len() == 0
            && lw.execution_context.subinvoke_uri_resolution@.len() == 0,
        _ => false,
    }
}

/// Collects plugins to load and builds a client from them: bytecode is
/// compiled once per registration, native tables are taken as they are,
/// and a later registration of an identity replaces an earlier one.
pub struct ClientBuilder<F> {
    /// The registrations, in the order they were made.
    pub wraps_to_load: Vec<(PluginId, LoadWrapRequest<F>)>,
}

impl<F: Fn(Vec<u8>) -> Result<Vec<u8>, InvokeError>> ClientBuilder<F> {
    /// An empty builder.
    pub fn new() -> (r: Self)
        ensures
            r.wraps_to_load@.len() == 0,
    {
        ClientBuilder { wraps_to_load: Vec::new() }
    }

    /// True when every registered native table is well-formed.
    pub open spec fn wf(self) -> bool {
        forall|i: int|
            0 <= i < self.wraps_to_load@.len() ==> match (#[trigger] self.wraps_to_load@[i]).1 {
                LoadWrapRequest::Closure(c) => c.wf(),
                LoadWrapRequest::Bytes(_) => true,
            }
    }

    /// Registers guest bytecode under `uri`.
    pub fn add_bytes(self, uri: PluginId, bytes: Vec<u8>) -> (r: Self)
        ensures
            r.wraps_to_load@ == self.wraps_to_load@.push((uri, LoadWrapRequest::Bytes(bytes))),
    {
        let mut builder = self;
        builder.wraps_to_load.push((uri, LoadWrapRequest::Bytes(bytes)));
        builder
    }

    /// Registers a native plugin under `uri`.
    pub fn add_closure(self, uri: PluginId, closure_wrap: ClosureWrap<F>) -> (r: Self)
        requires
            closure_wrap.wf(),
        ensures
            r.wraps_to_load@ == self.wraps_to_load@.push(
                (uri, LoadWrapRequest::Closure(closure_wrap)),
            ),
    {
        let mut builder = self;
        builder.wraps_to_load.push((uri, LoadWrapRequest::Closure(closure_wrap)));
        builder
    }

    /// Builds the client: compiles every registered bytecode exactly once
    /// and registers every plugin under its identity, later registrations
    /// replacing earlier ones. Fails with a load error when any bytecode
    /// does not compile.
    pub fn load<M: WrapModule<G>, G: GuestCode>(self) -> (r: Result<Client<M, G, F>, LoadError>)
        requires
            self.wf(),
        ensures
            r matches Ok(c) ==> {
                &&& c.wf()
                &&& c.clock == 0
                &&& forall|i: int, j: int|
                    0 <= i < j < c.loaded_wraps@.len() ==> (#[trigger] c.loaded_wraps@[i]).0@ != (
                    #[trigger] c.loaded_wraps@[j]).0@
                &&& forall|i: int|
                    0 <= i < c.loaded_wraps@.len() ==> match latest_request(
                        self.wraps_to_load@,
                        (#[trigger] c.loaded_wraps@[i]).0@,
                    ) {
                        Some(req) => request_loaded(req, c.loaded_wraps@[i].1),
                        None => false,
                    }
                &&& forall|key: (Seq<u8>, Seq<u8>)|
                    (#[trigger] latest_request(self.wraps_to_load@, key)) is Some <==> exists|i: int|
                        0 <= i < c.loaded_wraps@.len() && (#[trigger] c.loaded_wraps@[i]).0@ == key
            },
            r is Err ==> r matches Err(LoadError::InvalidWasm(_)),
            r is Err ==> exists|i: int|
                0 <= i < self.wraps_to_load@.len() && (#[trigger] self.wraps_to_load@[i]).1
                    is Bytes,
    {
        let ghost requests = self.wraps_to_load@;
        // Registrations are taken from the most recent backwards; an
        // identity that is already in the table keeps its newer entry, so
        // the last registration of each identity wins.
        let mut pending = self.wraps_to_load;
        let mut table: Vec<(PluginId, Wrap<M, G, F>)> = Vec::new();
        proof {
            assert(requests.skip(requests.len() as int) =~= Seq::<(
                PluginId,
                LoadWrapRequest<F>,
            )>::empty());
        }
        while pending.len() > 0
            invariant
                pending@.len() <= requests.len(),
                pending@ =~= requests.take(pending@.len() as int),
                forall|i: int, j: int|
                    0 <= i < j < table@.len() ==> (#[trigger] table@[i]).0@ != (
                    #[trigger] table@[j]).0@,
                forall|i: int|
                    0 <= i < table@.len() ==> match latest_request(
                        requests.skip(pending@.len() as int),
                        (#[trigger] table@[i]).0@,
                    ) {
                        Some(req) => request_loaded(req, table@[i].1),
                        None => false,
                    },
                forall|key: (Seq<u8>, Seq<u8>)|
                    (#[trigger] latest_request(requests.skip(pending@.len() as int), key)) is Some
                        <==> exists|i: int| 0 <= i < table@.len() && (#[trigger] table@[i]).0@
                        == key,
                forall|i: int|
                    0 <= i < table@.len() ==> match (#[trigger] table@[i]).1 {
                        Wrap::Closure(c) => c.wf(),
                        Wrap::Loaded(_) => true,
                    },
                self.wf(),
                requests == self.wraps_to_load@,
            decreases pending.len(),
        {
            let ghost at = pending@.len() - 1;
            let (uri, request) = match pending.pop() {
                Some(item) => item,
                None => vstd::pervasive::unreached(),
            };
            let ghost request_snapshot = request;
            let ghost uri_key = uri@;
            let ghost table_before = table@;
            proof {
                assert(requests.take(at + 1).last() == requests[at]);
                assert(requests.take(at + 1).drop_last() =~= requests.take(at));
                assert(pending@ =~= requests.take(at));
                assert((uri, request) == requests[at]);
                assert(self.wraps_to_load@[at] == requests[at]);
                lemma_latest_skip_one(requests, at);
            }
            let present = match find_wrap_index(&table, &uri) {
                Some(_) => true,
                None => false,
            };
            proof {
                lemma_wrap_index(table@, uri@);
            }
            if !present {
                let entry = match request {
                    LoadWrapRequest::Closure(closure_wrap) => Wrap::Closure(closure_wrap),
                    LoadWrapRequest::Bytes(bytes) => {
                        match LoadedWrap::<M, G>::new_from_bytes(bytes.as_slice()) {
                            Ok(loaded) => Wrap::Loaded(loaded),
                            Err(e) => {
                                proof {
                                    assert(0 <= at < self.wraps_to_load@.len()
                                        && self.wraps_to_load@[at].1 is Bytes);
                                }
                                return Err(e);
                            },
                        }
                    },
                };
                proof {
                    assert(request_loaded(request_snapshot, entry));
                }
                table.push((uri, entry));
                proof {
                    assert(table@.drop_last() =~= table_before);
                    assert(table@.last().0@ == uri_key);
                    assert(request_loaded(request_snapshot, table@.last().1));
                    assert(forall|j: int|
                        0 <= j < table_before.len() ==> #[trigger] table@[j] == table_before[j]);
                }
            }
            proof {
                let suffix_new = requests.skip(at);
                let suffix_old = requests.skip(at + 1);
                assert(requests[at].0@ == uri_key);
                assert(requests[at].1 == request_snapshot);
                if present {
                    assert(table@ == table_before);
                    assert(exists|i: int|
                        0 <= i < table_before.len() && (#[trigger] table_before[i]).0@ == uri_key);
                    assert(latest_request(suffix_old, uri_key) is Some);
                } else {
                    assert(forall|i: int|
                        0 <= i < table_before.len() ==> (#[trigger] table_before[i]).0@
                            != uri_key);
                    assert(latest_request(suffix_old, uri_key) is None);
                    assert(latest_request(suffix_new, uri_key) == Some(request_snapshot));
                }
                assert forall|key: (Seq<u8>, Seq<u8>)|
                    (#[trigger] latest_request(suffix_new, key)) is Some <==> exists|i: int|
                        0 <= i < table@.len() && (#[trigger] table@[i]).0@ == key by {
                    if latest_request(suffix_new, key) is Some {
                        if latest_request(suffix_old, key) is Some {
                            let i = choose|i: int|
                                0 <= i < table_before.len() && (#[trigger] table_before[i]).0@
                                    == key;
                            assert(table@[i].0@ == key);
                        } else {
                            assert(key == uri_key);
                            if present {
                                assert(latest_request(suffix_old, uri_key) is Some);
                            } else {
                                assert(table@[table@.len() - 1].0@ == key);
                            }
                        }
                    }
                    if exists|i: int| 0 <= i < table@.len() && (#[trigger] table@[i]).0@ == key {
                        let i = choose|i: int|
                            0 <= i < table@.len() && (#[trigger] table@[i]).0@ == key;
                        if i < table_before.len() {
                            assert(table_before[i].0@ == key);
                            assert(latest_request(suffix_old, key) is Some);
                        } else {
                            assert(key == uri_key);
                        }
                        assert(latest_request(suffix_new, key) is Some);
                    }
                }
                assert forall|i: int| 0 <= i < table@.len() implies match latest_request(
                    suffix_new,
                    (#[trigger] table@[i]).0@,
                ) {
                    Some(req) => request_loaded(req, table@[i].1),
                    None => false,
                } by {
                    let k = table@[i].0@;
                    if i < table_before.len() {
                        assert(table@[i] == table_before[i]);
                        assert(latest_request(suffix_old, k) is Some);
                        assert(latest_request(suffix_new, k) == latest_request(suffix_old, k));
                    } else {
                        assert(k == uri_key);
                        assert(latest_request(suffix_new, k) == Some(request_snapshot));
                    }
                }
            }
        }
        proof {
            assert(requests.skip(0) =~= requests);
        }
        Ok(Client { loaded_wraps: table, clock: 0 })
    }
}

/// Prepending one request changes `latest_request` only for its own key,
/// and only when no later request already covers that key.
proof fn lemma_latest_skip_one<F>(requests: Seq<(PluginId, LoadWrapRequest<F>)>, at: int)
    requires
        0 <= at < requests.len(),
    ensures
        forall|key: (Seq<u8>, Seq<u8>)|
            #[trigger] latest_request(requests.skip(at), key) == if latest_request(
                requests.skip(at + 1),
                key,
            ) is Some {
                latest_request(requests.skip(at + 1), key)
            } else if requests[at].0@ == key {
                Some(requests[at].1)
            } else {
                None::<LoadWrapRequest<F>>
            },
    decreases requests.len() - at,
{
    assert forall|key: (Seq<u8>, Seq<u8>)|
        #[trigger] latest_request(requests.skip(at), key) == if latest_request(
            requests.skip(at + 1),
            key,
        ) is Some {
            latest_request(requests.skip(at + 1), key)
        } else if requests[at].0@ == key {
            Some(requests[at].1)
        } else {
            None::<LoadWrapRequest<F>>
        } by {
        lemma_latest_prepend(requests, at, key);
    }
}

/// The single-key form of `lemma_latest_skip_one`, by induction on the
/// suffix.
proof fn lemma_latest_prepend<F>(
    requests: Seq<(PluginId, LoadWrapRequest<F>)>,
    at: int,
    key: (Seq<u8>, Seq<u8>),
)
    requires
        0 <= at < requests.len(),
    ensures
        latest_request(requests.skip(at), key) == if latest_request(
            requests.skip(at + 1),
            key,
        ) is Some {
            latest_request(requests.skip(at + 1), key)
        } else if requests[at].0@ == key {
            Some(requests[at].1)
        } else {
            None::<LoadWrapRequest<F>>
        },
    decreases requests.len() - at,
{
    let s = requests.skip(at);
    let t = requests.skip(at + 1);
    if t.len() == 0 {
        assert(s.len() == 1);
        assert(s.last() == requests[at]);
        assert(s.drop_last() =~= Seq::<(PluginId, LoadWrapRequest<F>)>::empty());
        if s.last().0@ != key {
            assert(latest_request(s, key) == latest_request(s.drop_last(), key));
            assert(latest_request(s.drop_last(), key) is None);
        }
    } else {
        assert(s.last() == t.last());
        assert(s.drop_last() =~= requests.subrange(at, requests.len() - 1));
        assert(t.drop_last() =~= requests.subrange(at + 1, requests.len() - 1));
        if s.last().0@ == key {
        } else {
            let shorter = requests.subrange(0, requests.len() - 1);
            lemma_latest_prepend(shorter, at, key);
            assert(shorter.skip(at) =~= s.drop_last());
            assert(shorter.skip(at + 1) =~= t.drop_last());
            assert(shorter[at] == requests[at]);
        }
    }
}

/// Finds the first entry registered under `key`.
fn find_wrap_index<M, G, F>(table: &Vec<(PluginId, Wrap<M, G, F>)>, key: &PluginId) -> (r: Option<
    usize,
>)
    ensures
        match r {
            Some(i) => wrap_index(table@, key@) == Some(i as int),
            None => wrap_index(table@, key@) is None,
        },
{
    let n = table.len();
    proof {
        assert(table@.skip(0) =~= table@);
    }
    let mut i: usize = 0;
    while i < n
        invariant
            i <= n,
            n == table@.len(),
            wrap_index(table@, key@) == match wrap_index(table@.skip(i as int), key@) {
                Some(k) => Some(k + i),
                None => None::<int>,
            },
        decreases n - i,
    {
        proof {
            assert(table@.skip(i as int)[0] == table@[i as int]);
            assert(table@.skip(i as int).drop_first() =~= table@.skip(i + 1));
        }
        if table[i].0 == *key {
            return Some(i);
        }
        i = i + 1;
    }
    proof {
        assert(table@.skip(n as int) =~= Seq::<(PluginId, Wrap<M, G, F>)>::empty());
    }
    None
}

} // verus!
