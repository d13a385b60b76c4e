//! A string interner: each distinct name gets a small id, the names are kept once.
use vstd::prelude::*;

use rustc_hash::{FxBuildHasher, FxHashMap};

verus! {

/// rustc-hash's hash builder, which the interner's map is built with.
#[verifier::external_type_specification]
#[verifier::external_body]
pub struct ExFxBuildHasher(FxBuildHasher);

/// The id of an interned name: its position in the interner.
#[derive(Debug, Clone, Copy, PartialEq, Eq, Hash, Structural)]
pub struct StrId(pub u32);

impl StrId {
    /// The id 0.
    pub fn default() -> (r: StrId)
        ensures
            r.0 == 0,
    {
        StrId(0)
    }

    /// Change the id.
    pub fn set(&mut self, value: u32)
        ensures
            final(self).0 == value,
    {
        self.0 = value;
    }

    /// The id as an index.
    pub fn index(&self) -> (r: usize)
        ensures
            r == self.0,
    {
        self.0 as usize
    }
}

/// What a map from names to ids holds, as names (byte sequences) to ids.
pub uninterp spec fn name_ids(m: FxHashMap<Vec<u8>, u32>) -> Map<Seq<u8>, u32>;

/// `FxHashMap::default`: an empty map.
#[verifier::external_body]
fn name_ids_new() -> (r: FxHashMap<Vec<u8>, u32>)
    ensures
        name_ids(r) =~= Map::empty(),
{
    FxHashMap::default()
}

/// `HashMap::get` on the names: the id stored under a name equal to `k`, if any.
#[verifier::external_body]
fn name_ids_get(m: &FxHashMap<Vec<u8>, u32>, k: &[u8]) -> (r: Option<u32>)
    ensures
        r == (if name_ids(*m).contains_key(k@) {
            Some(name_ids(*m)[k@])
        } else {
            None
        }),
{
    m.get(k).copied()
}

/// `HashMap::insert` on the names: afterwards `k` is stored with the id `v`, the other names
/// keep theirs.
#[verifier::external_body]
fn name_ids_insert(m: &mut FxHashMap<Vec<u8>, u32>, k: Vec<u8>, v: u32)
    ensures
        name_ids(*final(m)) == name_ids(*old(m)).insert(k@, v),
{
    m.insert(k, v);
}

/// The position of the first occurrence of `name` in `names`, if any.
pub open spec fn position_of<T>(names: Seq<T>, name: T) -> Option<nat>
    decreases names.len(),
{
    if names.len() == 0 {
        None
    } else if names.last() == name {
        match position_of(names.drop_last(), name) {
            Some(i) => Some(i),
            None => Some((names.len() - 1) as nat),
        }
    } else {
        position_of(names.drop_last(), name)
    }
}

/// The table after interning `name`, and the id that `name` gets: the id it has, or the next
/// (ids are `u32`, the position taken modulo 2^32).
pub open spec fn spec_intern(names: Seq<Seq<u8>>, name: Seq<u8>) -> (Seq<Seq<u8>>, u32) {
    match position_of(names, name) {
        Some(i) => (names, i as u32),
        None => (names.push(name), names.len() as u32),
    }
}

/// `position_of` finds exactly the indices that hold the name, the first of them.
pub proof fn lemma_position_of<T>(names: Seq<T>, name: T)
    ensures
        position_of(names, name) matches Some(i) ==> i < names.len() && names[i as int] == name
            && forall|j: int| 0 <= j < i ==> names[j] != name,
        position_of(names, name) is None ==> forall|j: int|
            0 <= j < names.len() ==> names[j] != name,
    decreases names.len(),
{
    if names.len() > 0 {
        let d = names.drop_last();
        lemma_position_of(d, name);
        assert forall|j: int| 0 <= j < d.len() implies d[j] == names[j] by {}
        assert(names.last() == names[names.len() - 1]);
    }
}

/// Interns names; ids are given in order, from 0.
#[derive(Debug)]
pub struct Interner {
    map: FxHashMap<Vec<u8>, u32>,
    vec: Vec<Vec<u8>>,
}

impl View for Interner {
    type V = Seq<Seq<u8>>;

    closed spec fn view(&self) -> Seq<Seq<u8>> {
        self.vec@.map_values(|v: Vec<u8>| v@)
    }
}

impl Interner {
    /// The map and the table agree and no name is held twice.
    pub closed spec fn wf(&self) -> bool {
        &&& forall|i: int, j: int| 0 <= i < j < self@.len() ==> self@[i] != self@[j]
        &&& forall|k: Seq<u8>| #[trigger]
            name_ids(self.map).contains_key(k) <==> self@.contains(k)
        &&& forall|i: int| 0 <= i < self@.len() ==> #[trigger] name_ids(self.map)[self@[i]] == i as u32
    }

    /// An empty interner. The capacity is a hint only.
    pub fn with_capacity(cap: usize) -> (r: Interner)
        ensures
            r.wf(),
            r@ == Seq::<Seq<u8>>::empty(),
    {
        let r = Interner { map: name_ids_new(), vec: Vec::new() };
        assert(r@ =~= Seq::<Seq<u8>>::empty());
        r
    }

    /// Number of names held.
    pub fn len(&self) -> (r: usize)
        ensures
            r == self@.len(),
    {
        self.vec.len()
    }

    /// The id of `name`, which is added if it is new.
    pub fn intern(&mut self, name: &[u8]) -> (r: StrId)
        requires
            old(self).wf(),
        ensures
            final(self).wf(),
            (final(self)@, r.0) == spec_intern(old(self)@, name@),
    {
        proof {
            lemma_position_of(self@, name@);
        }
        match name_ids_get(&self.map, name) {
            Some(id) => {
                proof {
                    assert(self@.contains(name@));
                    let i = choose|i: int| 0 <= i < self@.len() && self@[i] == name@;
                    assert(name_ids(self.map)[self@[i]] == i as u32);
                    if let Some(p) = position_of(self@, name@) {
                        assert(p == i);
                    }
                }
                StrId(id)
            },
            None => {
                proof {
                    if let Some(p) = position_of(self@, name@) {
                        assert(self@.contains(self@[p as int]));
                    }
                }
                let id = self.generate_id();
                self.insert(name, id);
                id
            },
        }
    }

    /// Add `name` under the id `v`, which must be the next id, for a name not yet held.
    pub fn insert(&mut self, name: &[u8], v: StrId)
        requires
            old(self).wf(),
            !old(self)@.contains(name@),
            v.0 == old(self)@.len() as u32,
        ensures
            final(self).wf(),
            final(self)@ == old(self)@.push(name@),
    {
        let ghost old_names = self@;
        let owned = vstd::slice::slice_to_vec(name);
        let kept = vstd::slice::slice_to_vec(name);
        name_ids_insert(&mut self.map, owned, v.0);
        self.vec.push(kept);
        assert(self@ =~= old_names.push(name@));
        assert forall|k: Seq<u8>| #[trigger]
            name_ids(self.map).contains_key(k) <==> self@.contains(k) by {
            if k == name@ {
                assert(self@[old_names.len() as int] == k);
            }
            if self@.contains(k) && k != name@ {
                let i = choose|i: int| 0 <= i < self@.len() && self@[i] == k;
                assert(old_names[i] == k);
            }
            if old_names.contains(k) {
                let i = choose|i: int| 0 <= i < old_names.len() && old_names[i] == k;
                assert(self@[i] == k);
            }
        }
        assert forall|i: int| 0 <= i < self@.len() implies #[trigger] name_ids(self.map)[self@[i]]
            == i as u32 by {
            if i < old_names.len() {
                assert(self@[i] == old_names[i]);
                assert(old_names.contains(old_names[i]));
            }
        }
    }

    /// The name with the id `id`.
    pub fn lookup(&self, id: StrId) -> (r: &[u8])
        requires
            id.0 < self@.len(),
        ensures
            r@ == self@[id.0 as int],
    {
        self.vec[id.0 as usize].as_slice()
    }

    /// The id the next new name gets.
    pub fn generate_id(&self) -> (r: StrId)
        ensures
            r.0 == self@.len() as u32,
    {
        StrId(#[verifier::truncate] (self.vec.len() as u32))
    }
}

/// Interning a name and looking its id up gives the name back; interning it again gives the
/// same id and leaves the table as it is.
pub proof fn lemma_intern_lookup(names: Seq<Seq<u8>>, name: Seq<u8>)
    requires
        names.len() + 1 < u32::MAX,
    ensures
        ({
            let (t, id) = spec_intern(names, name);
            &&& id < t.len()
            &&& t[id as int] == name
            &&& spec_intern(t, name) == (t, id)
        }),
{
    lemma_position_of(names, name);
    let (t, id) = spec_intern(names, name);
    lemma_position_of(t, name);
    if position_of(names, name) is None {
        assert(t[names.len() as int] == name);
        if let Some(p) = position_of(t, name) {
            assert(p == names.len());
        }
    }
}

} // verus!
