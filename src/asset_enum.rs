//! Closed enumerations of asset keys, each variant bound to one content path,
//! and the dictionary that maps those keys to loaded-resource handles.
use vstd::prelude::*;
use std::marker::PhantomData;

verus! {

/// A closed set of symbolic asset keys. Variant `0` is the reserved
/// undefined key, which names no content; every other variant names exactly
/// one relative content path.
pub trait AssetEnum: Sized + Copy {
    /// Position of the variant in the enumeration; the undefined key is `0`.
    spec fn key_index(self) -> nat;

    /// Number of variants, the undefined key included.
    spec fn key_count() -> nat;

    /// The content path bound to the variant (empty for the undefined key).
    spec fn key_path(self) -> Seq<char>;

    /// Position of the variant.
    fn index(&self) -> (r: usize)
        ensures
            r == self.key_index(),
            r < Self::key_count(),
    ;

    /// Number of variants, the undefined key included.
    fn variant_count() -> (r: usize)
        ensures
            r == Self::key_count(),
            r >= 1,
    ;

    /// The content path bound to the variant.
    fn path(&self) -> (r: &'static str)
        ensures
            r@ == self.key_path(),
    ;

    /// The static table of (variant, path) pairs: every defined variant
    /// once, in enumeration order, the undefined key never.
    fn get_list() -> (r: Vec<(Self, &'static str)>)
        ensures
            r@.len() + 1 == Self::key_count(),
            forall|i: int|
                0 <= i < r@.len() ==> #[trigger] r@[i].0.key_index() == i + 1 && r@[i].1@
                    == r@[i].0.key_path(),
    ;

    /// Distinct variants have distinct positions.
    proof fn lemma_index_injective(a: Self, b: Self)
        ensures
            a.key_index() == b.key_index() ==> a == b,
            a.key_index() < Self::key_count(),
    ;
}

/// The reserved undefined key of an enumeration.
pub open spec fn is_undefined<K: AssetEnum>(k: K) -> bool {
    k.key_index() == 0
}

/// Maps each defined key of an enumeration to the handle of its loaded (or
/// loading) resource. The undefined key is never mapped.
#[verifier::reject_recursive_types(K)]
pub struct AssetDictionary<K: AssetEnum, H> {
    slots: Vec<Option<H>>,
    keys: PhantomData<K>,
}

impl<K: AssetEnum, H> View for AssetDictionary<K, H> {
    type V = Map<K, H>;

    closed spec fn view(&self) -> Map<K, H> {
        Map::new(
            |k: K| !is_undefined(k) && self.slots@[k.key_index() as int] is Some,
            |k: K| self.slots@[k.key_index() as int]->0,
        )
    }
}

impl<K: AssetEnum, H> AssetDictionary<K, H> {
    #[verifier::type_invariant]
    spec fn well_formed(self) -> bool {
        &&& self.slots@.len() == K::key_count()
        &&& self.slots@[0] is None
    }

    /// An empty dictionary: no key resolves yet.
    pub fn new() -> (r: Self)
        ensures
            r@ == Map::<K, H>::empty(),
    {
        let n = K::variant_count();
        let mut slots: Vec<Option<H>> = Vec::new();
        let mut i: usize = 0;
        while i < n
            invariant
                i <= n,
                n == K::key_count(),
                slots@.len() == i,
                forall|j: int| 0 <= j < i ==> slots@[j] is None,
            decreases n - i,
        {
            slots.push(None);
            i = i + 1;
        }
        let r = AssetDictionary { slots, keys: PhantomData };
        assert forall|k: K| !#[trigger] r@.contains_key(k) by {
            K::lemma_index_injective(k, k);
        }
        assert(r@ =~= Map::<K, H>::empty());
        r
    }

    /// The handle bound to `key`, if one was registered.
    pub fn get_handle(&self, key: &K) -> (r: Option<&H>)
        ensures
            r is Some <==> self@.contains_key(*key),
            r is Some ==> *r->0 == self@[*key],
    {
        proof {
            use_type_invariant(self);
        }
        let i = key.index();
        match &self.slots[i] {
            Some(h) => Some(h),
            None => None,
        }
    }

    /// Binds a defined key to a handle, replacing any earlier binding.
    pub(crate) fn insert(&mut self, key: K, handle: H)
        requires
            !is_undefined(key),
        ensures
            final(self)@ == old(self)@.insert(key, handle),
    {
        proof {
            use_type_invariant(&*self);
        }
        let i = key.index();
        self.slots[i] = Some(handle);
        proof {
            assert forall|k: K| #[trigger] self@.contains_key(k) == old(self)@.insert(key, handle).contains_key(k)
                && (self@.contains_key(k) ==> self@[k] == old(self)@.insert(key, handle)[k]) by {
                K::lemma_index_injective(k, key);
            }
            assert(self@ =~= old(self)@.insert(key, handle));
        }
    }
}

/// Issues one load request per entry of the enumeration's table, in table
/// order, and binds each defined key to the handle its request returned.
pub fn load_asset_enum<K: AssetEnum, H, F: Fn(&'static str) -> H>(
    dict: &mut AssetDictionary<K, H>,
    load: F,
)
    requires
        forall|p: &'static str| load.requires((p,)),
    ensures
        forall|k: K|
            !is_undefined(k) ==> #[trigger] final(dict)@.contains_key(k) && exists|p: &'static str|
                p@ == k.key_path() && load.ensures((p,), final(dict)@[k]),
        forall|k: K| is_undefined(k) ==> !#[trigger] final(dict)@.contains_key(k),
{
    let list = K::get_list();
    let mut i: usize = 0;
    while i < list.len()
        invariant
            i <= list@.len(),
            list@.len() + 1 == K::key_count(),
            forall|j: int|
                0 <= j < list@.len() ==> #[trigger] list@[j].0.key_index() == j + 1 && list@[j].1@
                    == list@[j].0.key_path(),
            forall|p: &'static str| load.requires((p,)),
            forall|j: int|
                0 <= j < i ==> #[trigger] dict@.contains_key(list@[j].0) && exists|p: &'static str|
                    p@ == list@[j].0.key_path() && load.ensures((p,), dict@[list@[j].0]),
        decreases list@.len() - i,
    {
        let (key, path) = list[i];
        let handle = load(path);
        proof {
            assert(list@[i as int].0.key_index() == i + 1);
        }
        dict.insert(key, handle);
        proof {
            assert forall|j: int| 0 <= j < i + 1 implies #[trigger] dict@.contains_key(list@[j].0)
                && exists|p: &'static str|
                p@ == list@[j].0.key_path() && load.ensures((p,), dict@[list@[j].0]) by {
                if j == i {
                    assert(path@ == list@[j].0.key_path());
                } else {
                    assert(list@[j].0.key_index() != list@[i as int].0.key_index());
                }
            }
        }
        i = i + 1;
    }
    assert forall|k: K| !is_undefined(k) implies #[trigger] dict@.contains_key(k) && exists|
        p: &'static str,
    | p@ == k.key_path() && load.ensures((p,), dict@[k]) by {
        K::lemma_index_injective(k, k);
        let j = k.key_index() - 1;
        assert(list@[j].0.key_index() == j + 1);
        K::lemma_index_injective(k, list@[j].0);
    }
    assert forall|k: K| is_undefined(k) implies !#[trigger] dict@.contains_key(k) by {
        lemma_undefined_never_resolves(*dict, k);
    }
}

/// The table of an enumeration lists every defined key exactly once and
/// never the undefined key.
pub proof fn lemma_table_lists_each_key_once<K: AssetEnum>(table: Seq<(K, &'static str)>)
    requires
        table.len() + 1 == K::key_count(),
        forall|i: int| 0 <= i < table.len() ==> #[trigger] table[i].0.key_index() == i + 1,
    ensures
        forall|i: int| 0 <= i < table.len() ==> !is_undefined(#[trigger] table[i].0),
        forall|k: K|
            !is_undefined(k) ==> exists|i: int|
                0 <= i < table.len() && #[trigger] table[i].0 == k && forall|j: int|
                    0 <= j < table.len() && #[trigger] table[j].0 == k ==> j == i,
{
    assert forall|k: K| !is_undefined(k) implies exists|i: int|
        0 <= i < table.len() && #[trigger] table[i].0 == k && forall|j: int|
            0 <= j < table.len() && #[trigger] table[j].0 == k ==> j == i by {
        K::lemma_index_injective(k, k);
        let i = k.key_index() - 1;
        assert(table[i].0.key_index() == i + 1);
        K::lemma_index_injective(k, table[i].0);
        assert forall|j: int| 0 <= j < table.len() && #[trigger] table[j].0 == k implies j == i by {
            assert(table[j].0.key_index() == j + 1);
        }
    }
}

/// Resolving the undefined key always misses, in every dictionary.
pub proof fn lemma_undefined_never_resolves<K: AssetEnum, H>(dict: AssetDictionary<K, H>, k: K)
    requires
        is_undefined(k),
    ensures
        !dict@.contains_key(k),
{
}

} // verus!
