//! A loaded wrap: the compiled guest module shared by all of its
//! instances, the execution context that bounds what its guests may
//! sub-invoke, and the pool of idle instances. Checkout transfers an
//! instance out of the pool; checkin transfers it back.

use crate::errors::LoadError;
use crate::identity::PluginId;
use crate::instance::GuestCode;
use crate::instance::WrapInstance;
use crate::memory::GuestMemory;
use vstd::prelude::*;

verus! {

/// A compiled guest module: the engine-facing factory for instances. The
/// runtime assumes nothing about it; what an engine compiles or
/// instantiates is outside the verified core.
pub trait WrapModule<G>: Sized {
    /// Compiles guest bytecode into a module, or reports the engine's
    /// diagnostic.
    fn compile(bytes: &[u8]) -> Result<Self, String>;

    /// Instantiates one fresh executable guest with its private linear
    /// memory.
    fn instantiate(&self) -> (G, GuestMemory);
}

/// The per-plugin capability table: the only identities a guest of this
/// wrap may sub-invoke, each under the symbolic name its manifest
/// declared. Immutable once the wrap is loaded.
pub struct ExecutionContext {
    /// Pairs of a symbolic dependency identity and the resolved identity
    /// it stands for.
    pub subinvoke_uri_resolution: Vec<(PluginId, PluginId)>,
}

/// Resolution through the capability table: the resolved identity paired
/// with the latest entry whose symbolic identity equals `key`, or
/// nothing when no entry matches. The latest declaration wins, as an
/// insertion into a map would.
pub open spec fn resolve_model(
    table: Seq<(PluginId, PluginId)>,
    key: (Seq<u8>, Seq<u8>),
) -> Option<(Seq<u8>, Seq<u8>)>
    decreases table.len(),
{
    if table.len() == 0 {
        None
    } else if table.last().0@ == key {
        Some(table.last().1@)
    } else {
        resolve_model(table.drop_last(), key)
    }
}

impl ExecutionContext {
    /// An empty capability table: such a wrap may sub-invoke nothing.
    pub fn new() -> (r: Self)
        ensures
            r.subinvoke_uri_resolution@.len() == 0,
    {
        ExecutionContext { subinvoke_uri_resolution: Vec::new() }
    }

    /// Declares that the symbolic identity `from` resolves to the loaded
    /// identity `to`, replacing any earlier declaration for `from`: every
    /// other symbolic identity resolves as before.
    pub fn add_resolution(&mut self, from: PluginId, to: PluginId)
        ensures
            final(self).subinvoke_uri_resolution@ == old(self).subinvoke_uri_resolution@.push(
                (from, to),
            ),
            forall|k: (Seq<u8>, Seq<u8>)|
                #[trigger] resolve_model(final(self).subinvoke_uri_resolution@, k) == if k == from@ {
                    Some(to@)
                } else {
                    resolve_model(old(self).subinvoke_uri_resolution@, k)
                },
    {
        self.subinvoke_uri_resolution.push((from, to));
        proof {
            let post = self.subinvoke_uri_resolution@;
            assert(post.last() == (from, to));
            assert(post.drop_last() =~= old(self).subinvoke_uri_resolution@);
        }
    }

    /// Looks `key` up in the capability table. This is the sandbox's
    /// capability boundary: a target that resolves to nothing may not be
    /// sub-invoked.
    pub fn resolve(&self, key: &PluginId) -> (r: Option<PluginId>)
        ensures
            match r {
                Some(id) => resolve_model(self.subinvoke_uri_resolution@, key@) == Some(id@),
                None => resolve_model(self.subinvoke_uri_resolution@, key@) is None,
            },
    {
        let table = &self.subinvoke_uri_resolution;
        let n = table.len();
        proof {
            assert(table@.take(n as int) =~= table@);
        }
        let mut i: usize = n;
        while i > 0
            invariant
                i <= n,
                n == table@.len(),
                table@ == self.subinvoke_uri_resolution@,
                resolve_model(table@, key@) == resolve_model(table@.take(i as int), key@),
            decreases i,
        {
            let j = i - 1;
            proof {
                assert(table@.take(i as int).last() == table@[j as int]);
                assert(table@.take(i as int).drop_last() =~= table@.take(j as int));
            }
            if table[j].0 == *key {
                let resolved = table[j].1.duplicate();
                proof {
                    assert(table@.take(i as int).last().0@ == key@);
                    assert(resolve_model(table@.take(i as int), key@) == Some(table@[j as int].1@));
                    assert(resolved@ == table@[j as int].1@);
                    assert(resolve_model(self.subinvoke_uri_resolution@, key@) == Some(resolved@));
                }
                return Some(resolved);
            }
            i = j;
        }
        proof {
            assert(table@.take(0) =~= Seq::<(PluginId, PluginId)>::empty());
        }
        None
    }
}

/// A compiled module together with its execution context and its pool of
/// idle instances.
pub struct LoadedWrap<M, G> {
    /// The compiled guest module, shared by every instance.
    pub module: M,
    /// The capability table shared by every instance of this wrap.
    pub execution_context: ExecutionContext,
    /// The idle instances available for checkout.
    pub cached_instances: Vec<WrapInstance<G>>,
}

impl<M: WrapModule<G>, G: GuestCode> LoadedWrap<M, G> {
    /// Compiles guest bytecode once and wraps it with an empty pool and an
    /// empty capability table. Fails with a load error when the bytecode
    /// does not compile or validate.
    pub fn new_from_bytes(bytes: &[u8]) -> (r: Result<Self, LoadError>)
        ensures
            r matches Ok(w) ==> w.cached_instances@.len() == 0
                && w.execution_context.subinvoke_uri_resolution@.len() == 0,
            r is Err ==> r matches Err(LoadError::InvalidWasm(_)),
    {
        match M::compile(bytes) {
            Ok(module) => Ok(
                LoadedWrap {
                    module,
                    execution_context: ExecutionContext::new(),
                    cached_instances: Vec::new(),
                },
            ),
            Err(diagnostic) => Err(LoadError::InvalidWasm(diagnostic)),
        }
    }

    /// Takes an instance out of the pool, or instantiates a fresh one when
    /// the pool is empty. Ownership transfers to the caller: the returned
    /// instance is no longer in the pool, so no later checkout can hand it
    /// out again before it is checked back in.
    pub fn checkout(&mut self) -> (r: WrapInstance<G>)
        ensures
            final(self).module == old(self).module,
            final(self).execution_context == old(self).execution_context,
            old(self).cached_instances@.len() > 0 ==> {
                &&& final(self).cached_instances@ == old(self).cached_instances@.drop_last()
                &&& r == old(self).cached_instances@.last()
            },
            old(self).cached_instances@.len() == 0 ==> {
                &&& final(self).cached_instances@ == old(self).cached_instances@
                &&& r.last_used == 0
                &&& r.state.all_outcomes_clear()
                &&& r.state.method is None
                &&& r.state.args is None
                &&& r.state.env@ == Seq::<u8>::empty()
            },
    {
        match self.cached_instances.pop() {
            Some(instance) => instance,
            None => {
                let (guest, memory) = self.module.instantiate();
                WrapInstance::new(guest, memory)
            },
        }
    }

    /// Returns an instance to the pool. The pool recycles unconditionally:
    /// an instance comes back after every invoke attempt, whether the call
    /// succeeded or failed.
    pub fn checkin(&mut self, instance: WrapInstance<G>)
        ensures
            final(self).module == old(self).module,
            final(self).execution_context == old(self).execution_context,
            final(self).cached_instances@ == old(self).cached_instances@.push(instance),
    {
        self.cached_instances.push(instance);
    }
}

/// Pool exclusivity: checking an instance out removes exactly one copy of
/// it from the pool, and leaves every other instance where it was. With
/// ownership transferred out, no concurrent checkout can obtain the same
/// instance until it is checked back in.
pub proof fn lemma_checkout_exclusive<T>(pool: Seq<T>)
    requires
        pool.len() > 0,
    ensures
        pool.drop_last().to_multiset() =~= pool.to_multiset().remove(pool.last()),
        pool.drop_last().to_multiset().count(pool.last()) == pool.to_multiset().count(
            pool.last(),
        ) - 1,
{
    broadcast use vstd::seq_lib::group_to_multiset_ensures;

    assert(pool =~= pool.drop_last().push(pool.last()));
    assert(pool.drop_last().push(pool.last()).to_multiset() =~= pool.drop_last().to_multiset().insert(
        pool.last(),
    ));
}

/// Checking an instance back in restores the pool's contents: a checkout
/// followed by a checkin of the same instance leaves the pool's multiset
/// of instances unchanged.
pub proof fn lemma_checkin_restores<T>(pool: Seq<T>)
    requires
        pool.len() > 0,
    ensures
        pool.drop_last().push(pool.last()).to_multiset() =~= pool.to_multiset(),
{
    assert(pool =~= pool.drop_last().push(pool.last()));
}

} // verus!
