//! The identity map: a process-lifetime bijection between backend-native
//! transient identifiers (strings, backend-defined) and stable 128-bit
//! peripheral identifiers.
//!
//! Backends expose devices through unstable identity primitives: a MAC
//! address, an opaque session handle, an ephemeral browser-assigned id.
//! Resolving such a native identifier here either finds the stable id it was
//! given before, or mints a fresh one, exactly once per native identifier.
//! Entries are never evicted: native identifiers are not reliably
//! recycle-safe across backends, so the bijection persists for the process
//! lifetime.

use vstd::prelude::*;
use vstd::set_lib::lemma_len_subset;

verus! {

#[verifier::external_type_specification]
#[verifier::external_body]
#[verifier::reject_recursive_types(L)]
#[verifier::reject_recursive_types(R)]
#[verifier::reject_recursive_types(LS)]
#[verifier::reject_recursive_types(RS)]
pub struct ExBiHashMap<L, R, LS, RS>(bimap::BiHashMap<L, R, LS, RS>);

/// The pairs held by a `bimap::BiHashMap<u128, String>`, as a map keyed by
/// the native identifier (the bimap's right value) whose entries are the
/// stable ids (the bimap's left values).
pub uninterp spec fn id_map_entries(m: bimap::BiHashMap<u128, String>) -> Map<Seq<char>, u128>;

/// The entries of an identity map that holds nothing.
pub open spec fn no_entries() -> Map<Seq<char>, u128> {
    Map::empty()
}

/// Relies on `bimap::BiHashMap::new`: the fresh bimap holds no pairs.
#[verifier::external_body]
fn bimap_new() -> (r: bimap::BiHashMap<u128, String>)
    ensures
        id_map_entries(r) == no_entries(),
{
    bimap::BiHashMap::new()
}

/// Relies on `bimap::BiHashMap::get_by_right`: returns the left value paired
/// with the given right value, if such a pair is in the bimap.
#[verifier::external_body]
fn bimap_get_by_right(m: &bimap::BiHashMap<u128, String>, native: &String) -> (r: Option<u128>)
    ensures
        r == id_map_entries(*m).index_opt(native@),
{
    m.get_by_right(native).copied()
}

/// Relies on `bimap::BiHashMap::insert_no_overwrite`: the pair is inserted
/// exactly when neither the left value nor the right value is already in a
/// pair, and the bimap is left unchanged otherwise.
#[verifier::external_body]
fn bimap_try_insert(m: &mut bimap::BiHashMap<u128, String>, id: u128, native: &String) -> (ok:
    bool)
    ensures
        ok == (!id_map_entries(*old(m)).contains_key(native@) && !id_map_entries(
            *old(m),
        ).contains_value(id)),
        ok ==> id_map_entries(*final(m)) == id_map_entries(*old(m)).insert(native@, id),
        !ok ==> id_map_entries(*final(m)) == id_map_entries(*old(m)),
{
    m.insert_no_overwrite(id, native.clone()).is_ok()
}

/// Relies on `bimap::BiHashMap::len`: the number of pairs in the bimap.
#[verifier::external_body]
fn bimap_len(m: &bimap::BiHashMap<u128, String>) -> (n: usize)
    ensures
        n == id_map_entries(*m).dom().len(),
{
    m.len()
}

/// Relies on `uuid::Uuid::new_v4`: a fresh random 128-bit value.
/// Nothing is promised of a random value; the caller checks it against the
/// map before using it.
#[verifier::external_body]
fn mint_candidate() -> (r: u128) {
    uuid::Uuid::new_v4().as_u128()
}

/// The set of 128-bit values strictly below `m`.
pub open spec fn ids_below(m: u128) -> Set<u128> {
    Set::new(|v: u128| v < m)
}

proof fn lemma_ids_below_len(m: u128)
    ensures
        ids_below(m).finite(),
        ids_below(m).len() == m as nat,
    decreases m as nat,
{
    if m == 0 {
        assert(ids_below(0) =~= Set::<u128>::empty());
    } else {
        let p = (m - 1) as u128;
        lemma_ids_below_len(p);
        assert(ids_below(m) =~= ids_below(p).insert(p));
    }
}

/// What one resolution promises: `post` is the map after resolving `native`
/// in the map `pre`, and `id` is the stable id handed back. A native
/// identifier already mapped keeps its id and leaves the map unchanged; an
/// unseen one is bound to an id that no other native identifier holds.
pub open spec fn resolve_post(
    pre: Map<Seq<char>, u128>,
    post: Map<Seq<char>, u128>,
    native: Seq<char>,
    id: u128,
) -> bool {
    &&& post.contains_key(native)
    &&& post[native] == id
    &&& (pre.contains_key(native) ==> post == pre && id == pre[native])
    &&& (!pre.contains_key(native) ==> !pre.contains_value(id) && post == pre.insert(native, id))
}

/// The bijection between native identifiers and stable ids.
#[derive(Debug)]
pub struct IdentityMap {
    inner: bimap::BiHashMap<u128, String>,
}

impl IdentityMap {
    /// The entries of the map: native identifier to stable id.
    pub closed spec fn entries(self) -> Map<Seq<char>, u128> {
        id_map_entries(self.inner)
    }

    /// Well-formedness: finitely many entries, and no stable id is held by
    /// two native identifiers.
    pub open spec fn wf(self) -> bool {
        &&& self.entries().dom().finite()
        &&& self.entries().is_injective()
    }

    /// An empty identity map.
    pub fn new() -> (r: IdentityMap)
        ensures
            r.wf(),
            r.entries() == no_entries(),
    {
        IdentityMap { inner: bimap_new() }
    }

    /// The stable id of a native identifier: the one it already maps to, or
    /// a freshly minted one, bound to it from now on. Never fails.
    pub fn resolve(&mut self, native: &String) -> (id: u128)
        requires
            old(self).wf(),
            native@.len() > 0,
        ensures
            final(self).wf(),
            resolve_post(old(self).entries(), final(self).entries(), native@, id),
    {
        if let Some(id) = bimap_get_by_right(&self.inner, native) {
            return id;
        }
        let candidate = mint_candidate();
        if bimap_try_insert(&mut self.inner, candidate, native) {
            return candidate;
        }
        // The random candidate was already in use. Deterministic fallback:
        // with n pairs in the map, one of the n + 1 smallest ids is free.
        let ghost m0 = self.entries();
        let n = bimap_len(&self.inner);
        let bound: u128 = n as u128 + 1;
        let mut k: u128 = 0;
        while k < bound
            invariant
                self.wf(),
                self.entries() == m0,
                m0 == old(self).entries(),
                !m0.contains_key(native@),
                m0.dom().len() == n,
                n as u128 + 1 == bound,
                k <= bound,
                forall|j: u128| j < k ==> m0.contains_value(j),
            decreases bound - k,
        {
            if bimap_try_insert(&mut self.inner, k, native) {
                return k;
            }
            k = k + 1;
        }
        proof {
            m0.lemma_values_len();
            lemma_ids_below_len(bound);
            assert forall|j: u128| ids_below(bound).contains(j) implies m0.values().contains(
                j,
            ) by {
                assert(m0.contains_value(j));
            }
            lemma_len_subset(ids_below(bound), m0.values());
            assert(false);
        }
        vstd::pervasive::unreached()
    }

    /// Whether a native identifier has been seen before. Read-only.
    pub fn lookup(&self, native: &String) -> (r: Option<u128>)
        ensures
            r == self.entries().index_opt(native@),
    {
        bimap_get_by_right(&self.inner, native)
    }
}

/// Resolving the same native identifier a second time yields the stable id
/// the first resolution minted, and leaves the map unchanged.
pub proof fn lemma_resolve_stable(
    m0: Map<Seq<char>, u128>,
    m1: Map<Seq<char>, u128>,
    m2: Map<Seq<char>, u128>,
    native: Seq<char>,
    id1: u128,
    id2: u128,
)
    requires
        resolve_post(m0, m1, native, id1),
        resolve_post(m1, m2, native, id2),
    ensures
        id2 == id1,
        m2 == m1,
{
}

/// Resolving two distinct native identifiers, one after the other, yields
/// two distinct stable ids: the map stays injective, a fresh id is never
/// one already held, and an id already held is never handed to another
/// native identifier.
pub proof fn lemma_resolve_distinct(
    m0: Map<Seq<char>, u128>,
    m1: Map<Seq<char>, u128>,
    m2: Map<Seq<char>, u128>,
    native1: Seq<char>,
    native2: Seq<char>,
    id1: u128,
    id2: u128,
)
    requires
        m0.is_injective(),
        resolve_post(m0, m1, native1, id1),
        resolve_post(m1, m2, native2, id2),
        native1 != native2,
    ensures
        id1 != id2,
{
    if !m0.contains_key(native1) {
        assert forall|x: Seq<char>, y: Seq<char>|
            x != y && m1.dom().contains(x) && m1.dom().contains(y) implies #[trigger] m1[x]
            != #[trigger] m1[y] by {
            if x == native1 {
                assert(m0.dom().contains(y) && m0[y] == m1[y]);
                assert(m0.contains_value(m1[y]));
            } else if y == native1 {
                assert(m0.dom().contains(x) && m0[x] == m1[x]);
                assert(m0.contains_value(m1[x]));
            }
        }
    }
    assert(m1.is_injective());
    assert(m1.contains_key(native1) && m1[native1] == id1);
    if m1.contains_key(native2) {
        assert(id2 == m1[native2]);
    } else {
        assert(!m1.contains_value(id2));
        assert(m1.contains_value(id1));
    }
}

} // verus!
