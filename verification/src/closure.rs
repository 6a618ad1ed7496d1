//! The native plugin variant: a method table of host-side callbacks that
//! satisfies the same invoke(method, bytes) -> bytes contract as a
//! sandboxed wrap, with no pooling and no guest.

use crate::errors::InvokeError;
use vstd::prelude::*;

verus! {

/// True when `f` may be called on any argument: the shape every callback
/// in a method table must have, since the runtime cannot know what a
/// guest or a caller will hand it.
pub open spec fn callback_total<F: Fn(Vec<u8>) -> Result<Vec<u8>, InvokeError>>(f: F) -> bool {
    forall|args: Vec<u8>| #[trigger] call_requires(f, (args,))
}

/// A native plugin: a table mapping a method name to the callback that
/// implements it.
pub struct ClosureWrap<F> {
    /// The method table; at most one entry per method name.
    pub methods: Vec<(Vec<u8>, F)>,
}

impl<F: Fn(Vec<u8>) -> Result<Vec<u8>, InvokeError>> ClosureWrap<F> {
    /// True when every callback in the table accepts any argument and no
    /// two entries share a method name.
    pub open spec fn wf(self) -> bool {
        &&& forall|i: int|
            0 <= i < self.methods@.len() ==> callback_total(#[trigger] self.methods@[i].1)
        &&& forall|i: int, j: int|
            0 <= i < j < self.methods@.len() ==> self.methods@[i].0@ != self.methods@[j].0@
    }

    /// Index of the entry for `method`, if the table has one.
    pub open spec fn method_index(self, method: Seq<u8>) -> Option<int> {
        if exists|i: int| 0 <= i < self.methods@.len() && self.methods@[i].0@ == method {
            Some(choose|i: int| 0 <= i < self.methods@.len() && self.methods@[i].0@ == method)
        } else {
            None
        }
    }

    /// The callback registered under `method`, if any.
    pub open spec fn lookup(self, method: Seq<u8>) -> Option<F> {
        match self.method_index(method) {
            Some(i) => Some(self.methods@[i].1),
            None => None,
        }
    }

    /// An empty method table.
    pub fn new() -> (r: Self)
        ensures
            r.methods@.len() == 0,
            r.wf(),
    {
        ClosureWrap { methods: Vec::new() }
    }

    /// Adds a method to the table, replacing any earlier entry under the
    /// same name. The callback must accept any argument: the runtime
    /// hands it whatever bytes the caller supplied.
    pub fn add_method(self, method: Vec<u8>, callback: F) -> (r: Self)
        requires
            callback_total(callback),
            self.wf(),
        ensures
            r.wf(),
            r.lookup(method@) == Some(callback),
            forall|m: Seq<u8>| m != method@ ==> #[trigger] r.lookup(m) == self.lookup(m),
    {
        let mut table = self;
        let n = table.methods.len();
        let mut i: usize = 0;
        while i < n
            invariant
                i <= n,
                n == table.methods@.len(),
                table == self,
                table.wf(),
                callback_total(callback),
                forall|j: int| 0 <= j < i ==> table.methods@[j].0@ != method@,
            decreases n - i,
        {
            if slices_equal(table.methods[i].0.as_slice(), method.as_slice()) {
                let replaced = (method, callback);
                table.methods[i] = replaced;
                proof {
                    assert(table.methods@[i as int].0@ == method@);
                    assert forall|x: int|
                        0 <= x < table.methods@.len() implies #[trigger] table.methods@[x].0@
                        == self.methods@[x].0@ by {
                        if x != i {
                            assert(table.methods@[x] == self.methods@[x]);
                        }
                    }
                    assert(table.wf());
                    lemma_lookup_by_names(self, table, i as int, method@, callback);
                }
                return table;
            }
            i = i + 1;
        }
        table.methods.push((method, callback));
        proof {
            let n_old = self.methods@.len() as int;
            assert(table.methods@.len() == n_old + 1);
            assert(table.methods@[n_old].0@ == method@);
            assert forall|x: int| 0 <= x < n_old implies table.methods@[x] == self.methods@[x] by {}
            assert(table.wf());
            lemma_lookup_after_push(self, table, method@, callback);
        }
        table
    }

    /// Looks the method up and runs its callback on the arguments. Absent
    /// methods fail with method-not-found; a present method returns
    /// exactly what its callback returned.
    pub fn invoke(&self, method: &Vec<u8>, args: Vec<u8>) -> (r: Result<Vec<u8>, InvokeError>)
        requires
            self.wf(),
        ensures
            self.lookup(method@) is None ==> r == Err::<Vec<u8>, InvokeError>(
                InvokeError::MethodNotFound,
            ),
            self.lookup(method@) matches Some(f) ==> call_ensures(f, (args,), r),
    {
        let n = self.methods.len();
        let mut i: usize = 0;
        while i < n
            invariant
                i <= n,
                n == self.methods@.len(),
                self.wf(),
                forall|j: int| 0 <= j < i ==> self.methods@[j].0@ != method@,
            decreases n - i,
        {
            if slices_equal(self.methods[i].0.as_slice(), method.as_slice()) {
                let callback = &self.methods[i].1;
                let r = callback(args);
                proof {
                    assert(self.method_index(method@) matches Some(k) && self.methods@[k].0@
                        == method@);
                    let k = self.method_index(method@).unwrap();
                    assert(k == i as int);
                }
                return r;
            }
            i = i + 1;
        }
        proof {
            assert(self.method_index(method@) is None);
        }
        Err(InvokeError::MethodNotFound)
    }
}

/// Round-trip through a native plugin: when the callback registered for
/// a method can only echo its argument back, every result the table's
/// invoke can return for that method is exactly the argument. What the
/// plugin returns is what the caller receives, unchanged.
pub proof fn lemma_echo_round_trip<F: Fn(Vec<u8>) -> Result<Vec<u8>, InvokeError>>(
    table: ClosureWrap<F>,
    method: Seq<u8>,
    args: Vec<u8>,
    r: Result<Vec<u8>, InvokeError>,
)
    requires
        table.wf(),
        table.lookup(method) matches Some(f) && (forall|ret: Result<Vec<u8>, InvokeError>|
            call_ensures(f, (args,), ret) ==> ret == Ok::<Vec<u8>, InvokeError>(args)),
        table.lookup(method) matches Some(f) ==> call_ensures(f, (args,), r),
    ensures
        r == Ok::<Vec<u8>, InvokeError>(args),
{
}

/// After replacing the entry at `at`, whose name is `method`, with the
/// new callback, lookups behave as the contract of `add_method` says.
proof fn lemma_lookup_by_names<F: Fn(Vec<u8>) -> Result<Vec<u8>, InvokeError>>(
    pre: ClosureWrap<F>,
    post: ClosureWrap<F>,
    at: int,
    method: Seq<u8>,
    callback: F,
)
    requires
        pre.wf(),
        post.wf(),
        post.methods@.len() == pre.methods@.len(),
        0 <= at < post.methods@.len(),
        post.methods@[at].1 == callback,
        forall|x: int|
            0 <= x < post.methods@.len() ==> #[trigger] post.methods@[x].0@ == pre.methods@[x].0@,
        forall|x: int| 0 <= x < post.methods@.len() && x != at ==> #[trigger] post.methods@[x]
            == pre.methods@[x],
        post.methods@[at].0@ == method,
    ensures
        post.lookup(method) == Some(callback),
        forall|m: Seq<u8>| m != method ==> #[trigger] post.lookup(m) == pre.lookup(m),
{
    let j = choose|j: int| 0 <= j < post.methods@.len() && post.methods@[j].0@ == method;
    assert(post.methods@[at].0@ == method);
    assert(post.method_index(method) is Some);
    assert(j == at);
    assert forall|m: Seq<u8>| m != method implies #[trigger] post.lookup(m) == pre.lookup(m) by {
        if exists|x: int| 0 <= x < post.methods@.len() && post.methods@[x].0@ == m {
            let x = choose|x: int| 0 <= x < post.methods@.len() && post.methods@[x].0@ == m;
            assert(pre.methods@[x].0@ == m);
            let y = choose|y: int| 0 <= y < pre.methods@.len() && pre.methods@[y].0@ == m;
            assert(post.methods@[y].0@ == m);
            assert(x == y);
            assert(x != at);
            assert(post.methods@[x] == pre.methods@[x]);
        } else {
            assert forall|y: int| 0 <= y < pre.methods@.len() implies #[trigger] pre.methods@[y].0@
                != m by {
                assert(post.methods@[y].0@ == pre.methods@[y].0@);
            }
        }
    }
}

/// After pushing a fresh entry whose name appears nowhere earlier,
/// lookups behave as the contract of `add_method` says.
proof fn lemma_lookup_after_push<F: Fn(Vec<u8>) -> Result<Vec<u8>, InvokeError>>(
    pre: ClosureWrap<F>,
    post: ClosureWrap<F>,
    method: Seq<u8>,
    callback: F,
)
    requires
        pre.wf(),
        post.wf(),
        post.methods@.len() == pre.methods@.len() + 1,
        post.methods@.last().0@ == method,
        post.methods@.last().1 == callback,
        forall|x: int| 0 <= x < pre.methods@.len() ==> #[trigger] post.methods@[x]
            == pre.methods@[x],
        forall|x: int| 0 <= x < pre.methods@.len() ==> #[trigger] pre.methods@[x].0@ != method,
    ensures
        post.lookup(method) == Some(callback),
        forall|m: Seq<u8>| m != method ==> #[trigger] post.lookup(m) == pre.lookup(m),
{
    let last = pre.methods@.len() as int;
    assert(post.methods@[last].0@ == method);
    assert(post.method_index(method) is Some);
    let j = choose|j: int| 0 <= j < post.methods@.len() && post.methods@[j].0@ == method;
    assert(j == last);
    assert forall|m: Seq<u8>| m != method implies #[trigger] post.lookup(m) == pre.lookup(m) by {
        if exists|x: int| 0 <= x < post.methods@.len() && post.methods@[x].0@ == m {
            let x = choose|x: int| 0 <= x < post.methods@.len() && post.methods@[x].0@ == m;
            assert(x != last);
            assert(pre.methods@[x].0@ == m);
            let y = choose|y: int| 0 <= y < pre.methods@.len() && pre.methods@[y].0@ == m;
            assert(post.methods@[y].0@ == m);
            assert(x == y);
        } else {
            assert forall|y: int| 0 <= y < pre.methods@.len() implies #[trigger] pre.methods@[y].0@
                != m by {
                assert(post.methods@[y].0@ == pre.methods@[y].0@);
            }
        }
    }
}

/// Byte-for-byte equality of two slices.
pub fn slices_equal(a: &[u8], b: &[u8]) -> (r: bool)
    ensures
        r == (a@ == b@),
{
    if a.len() != b.len() {
        proof {
            assert(a@.len() != b@.len());
        }
        return false;
    }
    let n = a.len();
    let mut i: usize = 0;
    while i < n
        invariant
            i <= n,
            n == a@.len(),
            n == b@.len(),
            forall|j: int| 0 <= j < i ==> a@[j] == b@[j],
        decreases n - i,
    {
        if *vstd::slice::slice_index_get(a, i) != *vstd::slice::slice_index_get(b, i) {
            return false;
        }
        i = i + 1;
    }
    proof {
        assert(a@ =~= b@);
    }
    true
}

} // verus!
