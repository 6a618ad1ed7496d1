//! Plugin identities: the comparable key under which a wrap is registered
//! and through which sub-invocation targets are resolved. Identity text
//! follows the addressing scheme's grammar: optional leading slashes, an
//! optional `wrap://` scheme that may stand only at the front, an
//! authority of a lowercase letter followed by at least one more of
//! `a-z`, `0-9`, `-`, `_` or `.`, a slash, and a path that runs to the
//! first newline. Two corners of the scheme's regex engine are not
//! modelled: after a scheme at the front with a malformed authority it
//! would retry at a later `wrap://` occurrence, where this parser
//! rejects; and it reads text where this parser reads the guest's raw
//! bytes.

use vstd::prelude::*;
use vstd::slice::slice_index_get;
use vstd::slice::slice_subrange;
use vstd::slice::slice_to_vec;

verus! {

/// The identity of a logical plugin. Immutable once constructed.
pub struct PluginId {
    /// The authority part, the text before the first slash.
    pub authority: Vec<u8>,
    /// The path part, the text after the first slash.
    pub path: Vec<u8>,
}

impl View for PluginId {
    type V = (Seq<u8>, Seq<u8>);

    open spec fn view(&self) -> (Seq<u8>, Seq<u8>) {
        (self.authority@, self.path@)
    }
}

/// The scheme prefix that identity text may carry at its front: the
/// bytes of `wrap://`.
pub open spec fn wrap_scheme_prefix() -> Seq<u8> {
    seq![119u8, 114u8, 97u8, 112u8, 58u8, 47u8, 47u8]
}

/// A lowercase letter: what an authority must start with.
pub open spec fn is_lower_alpha(b: u8) -> bool {
    97 <= b <= 122
}

/// A byte the authority may contain after its first: `a-z`, `0-9`, `-`,
/// `_` or `.`.
pub open spec fn is_authority_byte(b: u8) -> bool {
    is_lower_alpha(b) || (48 <= b <= 57) || b == 45 || b == 95 || b == 46
}

/// Index of the first occurrence of `b` in `s`, or -1 when absent.
pub open spec fn find_byte(s: Seq<u8>, b: u8) -> int
    decreases s.len(),
{
    if s.len() == 0 {
        -1
    } else if s[0] == b {
        0
    } else if find_byte(s.drop_first(), b) < 0 {
        -1
    } else {
        find_byte(s.drop_first(), b) + 1
    }
}

/// `find_byte` returns -1 exactly when `b` is absent, and otherwise the
/// first index holding `b`.
pub proof fn lemma_find_byte(s: Seq<u8>, b: u8)
    ensures
        find_byte(s, b) == -1 ==> forall|j: int| 0 <= j < s.len() ==> s[j] != b,
        find_byte(s, b) != -1 ==> {
            let r = find_byte(s, b);
            &&& 0 <= r < s.len()
            &&& s[r] == b
            &&& forall|j: int| 0 <= j < r ==> s[j] != b
        },
    decreases s.len(),
{
    if s.len() != 0 && s[0] != b {
        lemma_find_byte(s.drop_first(), b);
        assert forall|j: int| 1 <= j < s.len() implies s[j] == s.drop_first()[j - 1] by {}
    }
}

/// Index of the first byte of `s` that the authority may not contain, or
/// -1 when every byte is an authority byte.
pub open spec fn first_non_authority(s: Seq<u8>) -> int
    decreases s.len(),
{
    if s.len() == 0 {
        -1
    } else if !is_authority_byte(s[0]) {
        0
    } else if first_non_authority(s.drop_first()) < 0 {
        -1
    } else {
        first_non_authority(s.drop_first()) + 1
    }
}

/// `first_non_authority` returns -1 exactly when every byte may stand in
/// an authority, and otherwise the first index of one that may not.
pub proof fn lemma_first_non_authority(s: Seq<u8>)
    ensures
        first_non_authority(s) == -1 ==> forall|j: int|
            0 <= j < s.len() ==> is_authority_byte(#[trigger] s[j]),
        first_non_authority(s) != -1 ==> {
            let r = first_non_authority(s);
            &&& 0 <= r < s.len()
            &&& !is_authority_byte(s[r])
            &&& forall|j: int| 0 <= j < r ==> is_authority_byte(#[trigger] s[j])
        },
    decreases s.len(),
{
    if s.len() != 0 && is_authority_byte(s[0]) {
        lemma_first_non_authority(s.drop_first());
        assert forall|j: int| 1 <= j < s.len() implies s[j] == s.drop_first()[j - 1] by {}
    }
}

/// The text without its leading slashes.
pub open spec fn strip_slashes(s: Seq<u8>) -> Seq<u8>
    decreases s.len(),
{
    if s.len() > 0 && s[0] == 47 {
        strip_slashes(s.drop_first())
    } else {
        s
    }
}

/// `strip_slashes` drops exactly the leading run of slashes.
pub proof fn lemma_strip_slashes(s: Seq<u8>, k: int)
    requires
        0 <= k <= s.len(),
        forall|j: int| 0 <= j < k ==> s[j] == 47,
        k == s.len() || s[k] != 47,
    ensures
        strip_slashes(s) == s.skip(k),
    decreases k,
{
    if k == 0 {
        assert(s.skip(0) =~= s);
    } else {
        assert(s[0] == 47);
        lemma_strip_slashes(s.drop_first(), k - 1);
        assert(s.drop_first().skip(k - 1) =~= s.skip(k));
    }
}

/// True when the scheme prefix stands at index `i` of `s`.
pub open spec fn has_scheme_at(s: Seq<u8>, i: int) -> bool {
    0 <= i && i + 7 <= s.len() && s.subrange(i, i + 7) == wrap_scheme_prefix()
}

/// True when the scheme prefix stands anywhere in `s`.
pub open spec fn contains_scheme(s: Seq<u8>) -> bool {
    exists|i: int| has_scheme_at(s, i)
}

impl PluginId {
    /// What parsing scheme-less identity text yields: the authority run
    /// must be closed by a slash, and the path runs from there to the
    /// first newline.
    pub open spec fn parse_body(t: Seq<u8>) -> Option<(Seq<u8>, Seq<u8>)> {
        let p = first_non_authority(t);
        if t.len() > 0 && is_lower_alpha(t[0]) && p >= 2 && t[p] == 47 {
            let rest = t.subrange(p + 1, t.len() as int);
            let q = find_byte(rest, 10);
            if q >= 0 {
                Some((t.subrange(0, p), rest.subrange(0, q)))
            } else {
                Some((t.subrange(0, p), rest))
            }
        } else {
            None
        }
    }

    /// What parsing identity text yields: leading slashes are dropped, a
    /// scheme prefix at the front is stripped, one anywhere else rejects
    /// the text, and the remainder must split into an authority and a
    /// path.
    pub open spec fn parse_spec(s: Seq<u8>) -> Option<(Seq<u8>, Seq<u8>)> {
        let t = strip_slashes(s);
        if has_scheme_at(t, 0) {
            Self::parse_body(t.skip(7))
        } else if contains_scheme(t) {
            None
        } else {
            Self::parse_body(t)
        }
    }

    /// Parses identity text by the addressing grammar.
    pub fn parse(bytes: &[u8]) -> (r: Option<PluginId>)
        ensures
            match (r, Self::parse_spec(bytes@)) {
                (Some(id), Some(p)) => id.authority@ == p.0 && id.path@ == p.1,
                (None, None) => true,
                _ => false,
            },
    {
        let n = bytes.len();
        let mut start: usize = 0;
        while start < n && *slice_index_get(bytes, start) == 47
            invariant
                start <= n,
                n == bytes@.len(),
                forall|j: int| 0 <= j < start ==> bytes@[j] == 47,
            decreases n - start,
        {
            start = start + 1;
        }
        proof {
            lemma_strip_slashes(bytes@, start as int);
        }
        let stripped = slice_subrange(bytes, start, n);
        let r = Self::parse_stripped(stripped);
        proof {
            assert(stripped@ == strip_slashes(bytes@));
        }
        r
    }

    /// Parses identity text whose leading slashes are already gone.
    fn parse_stripped(bytes: &[u8]) -> (r: Option<PluginId>)
        requires
            bytes@.len() == 0 || bytes@[0] != 47,
        ensures
            ({
                let spec_r = if has_scheme_at(bytes@, 0) {
                    Self::parse_body(bytes@.skip(7))
                } else if contains_scheme(bytes@) {
                    None
                } else {
                    Self::parse_body(bytes@)
                };
                match (r, spec_r) {
                    (Some(id), Some(p)) => id.authority@ == p.0 && id.path@ == p.1,
                    (None, None) => true,
                    _ => false,
                }
            }),
    {
        let n = bytes.len();
        if scheme_at(bytes, 0) {
            return Self::parse_split(slice_subrange(bytes, 7, n));
        }
        if n >= 7 {
            let last = n - 7;
            let mut i: usize = 0;
            while i <= last
                invariant
                    i <= last + 1,
                    last == n - 7,
                    n == bytes@.len(),
                    !has_scheme_at(bytes@, 0),
                    forall|j: int| 0 <= j < i ==> !has_scheme_at(bytes@, j),
                decreases last + 1 - i,
            {
                if scheme_at(bytes, i) {
                    return None;
                }
                i = i + 1;
            }
            proof {
                assert forall|j: int| !has_scheme_at(bytes@, j) by {
                    if 0 <= j && j + 7 <= bytes@.len() {
                        assert(j < i);
                    }
                }
                assert(!contains_scheme(bytes@));
            }
        } else {
            proof {
                assert forall|j: int| !has_scheme_at(bytes@, j) by {}
                assert(!contains_scheme(bytes@));
            }
        }
        Self::parse_split(bytes)
    }

    /// Splits scheme-less text at the end of the authority run.
    fn parse_split(bytes: &[u8]) -> (r: Option<PluginId>)
        ensures
            match (r, Self::parse_body(bytes@)) {
                (Some(id), Some(p)) => id.authority@ == p.0 && id.path@ == p.1,
                (None, None) => true,
                _ => false,
            },
    {
        let n = bytes.len();
        proof {
            lemma_first_non_authority(bytes@);
        }
        if n == 0 || !is_lower_alpha_byte(*slice_index_get(bytes, 0)) {
            return None;
        }
        let mut p: usize = 0;
        while p < n && is_authority_byte_exec(*slice_index_get(bytes, p))
            invariant
                p <= n,
                n == bytes@.len(),
                forall|j: int| 0 <= j < p ==> is_authority_byte(#[trigger] bytes@[j]),
            decreases n - p,
        {
            p = p + 1;
        }
        proof {
            if p < n {
                assert(first_non_authority(bytes@) == p);
            } else {
                assert(first_non_authority(bytes@) == -1);
            }
        }
        if p >= n || p < 2 || *slice_index_get(bytes, p) != 47 {
            return None;
        }
        let rest = slice_subrange(bytes, p + 1, n);
        proof {
            lemma_find_byte(rest@, 10);
        }
        let rest_len = rest.len();
        let mut q: usize = 0;
        while q < rest_len && *slice_index_get(rest, q) != 10
            invariant
                q <= rest_len,
                rest_len == rest@.len(),
                forall|j: int| 0 <= j < q ==> rest@[j] != 10,
            decreases rest_len - q,
        {
            q = q + 1;
        }
        proof {
            if q < rest_len {
                assert(find_byte(rest@, 10) == q);
            } else {
                assert(find_byte(rest@, 10) == -1);
            }
        }
        let authority = slice_to_vec(slice_subrange(bytes, 0, p));
        let path = slice_to_vec(slice_subrange(rest, 0, q));
        proof {
            let body = Self::parse_body(bytes@);
            assert(authority@ =~= body.unwrap().0);
            assert(path@ =~= body.unwrap().1);
        }
        Some(PluginId { authority, path })
    }

    /// An independent copy of this identity.
    pub fn duplicate(&self) -> (r: PluginId)
        ensures
            r.authority@ == self.authority@,
            r.path@ == self.path@,
    {
        PluginId {
            authority: slice_to_vec(self.authority.as_slice()),
            path: slice_to_vec(self.path.as_slice()),
        }
    }
}

/// True when the scheme prefix stands at index `at` of `bytes`.
fn scheme_at(bytes: &[u8], at: usize) -> (r: bool)
    ensures
        r == has_scheme_at(bytes@, at as int),
{
    let n = bytes.len();
    if at > n || n - at < 7 {
        return false;
    }
    let r = *slice_index_get(bytes, at) == 119 && *slice_index_get(bytes, at + 1) == 114
        && *slice_index_get(bytes, at + 2) == 97 && *slice_index_get(bytes, at + 3) == 112
        && *slice_index_get(bytes, at + 4) == 58 && *slice_index_get(bytes, at + 5) == 47
        && *slice_index_get(bytes, at + 6) == 47;
    proof {
        assert(bytes@.subrange(at as int, at + 7) =~= wrap_scheme_prefix() <==> (bytes@[at as int]
            == 119 && bytes@[at + 1] == 114 && bytes@[at + 2] == 97 && bytes@[at + 3] == 112
            && bytes@[at + 4] == 58 && bytes@[at + 5] == 47 && bytes@[at + 6] == 47)) by {
            if bytes@.subrange(at as int, at + 7) == wrap_scheme_prefix() {
                assert forall|k: int| 0 <= k < 7 implies bytes@[at + k] == wrap_scheme_prefix()[k]
                    by {
                    assert(bytes@.subrange(at as int, at + 7)[k] == bytes@[at + k]);
                }
            }
        }
    }
    r
}

/// True when the byte is a lowercase letter.
fn is_lower_alpha_byte(b: u8) -> (r: bool)
    ensures
        r == is_lower_alpha(b),
{
    97 <= b && b <= 122
}

/// True when the byte may stand in an authority.
fn is_authority_byte_exec(b: u8) -> (r: bool)
    ensures
        r == is_authority_byte(b),
{
    (97 <= b && b <= 122) || (48 <= b && b <= 57) || b == 45 || b == 95 || b == 46
}

impl PartialEq for PluginId {
    /// Two identities are equal when authority and path agree byte for
    /// byte.
    fn eq(&self, other: &PluginId) -> (r: bool) {
        let r = self.authority == other.authority && self.path == other.path;
        proof {
            assert(self.authority@ =~= other.authority@ <==> (self.authority@.len()
                == other.authority@.len() && forall|i: int|
                0 <= i < self.authority@.len() ==> self.authority@[i] == other.authority@[i]));
            assert(self.path@ =~= other.path@ <==> (self.path@.len() == other.path@.len()
                && forall|i: int| 0 <= i < self.path@.len() ==> self.path@[i] == other.path@[i]));
        }
        r
    }
}

impl vstd::std_specs::cmp::PartialEqSpecImpl for PluginId {
    open spec fn obeys_eq_spec() -> bool {
        true
    }

    open spec fn eq_spec(&self, other: &PluginId) -> bool {
        self.authority@ == other.authority@ && self.path@ == other.path@
    }
}

} // verus!
