//! Access sets: a ledger of read and write membership over a key type.
use vstd::prelude::*;
use std::any::TypeId;

verus! {

/// `std::any::TypeId`, the identity of a type, as an opaque value: all that is
/// used of it is whether two of them are equal.
#[verifier::external_type_specification]
#[verifier::external_body]
pub struct ExTypeId(std::any::TypeId);

/// `TypeId`'s `==`, which is true exactly when the two values are the same
/// identifier.
#[verifier::external_body]
fn same_type_id(a: &TypeId, b: &TypeId) -> (r: bool)
    ensures
        r == (*a == *b),
{
    a == b
}

/// A key of an access set: a value that can be compared for identity.
pub trait AccessKey: Copy {
    /// Whether two keys are the same key.
    fn same(&self, other: &Self) -> (r: bool)
        ensures
            r == (*self == *other),
    ;
}

impl AccessKey for u64 {
    fn same(&self, other: &Self) -> (r: bool) {
        *self == *other
    }
}

impl AccessKey for TypeId {
    fn same(&self, other: &Self) -> (r: bool) {
        same_type_id(self, other)
    }
}

/// One component type within one archetype of the store.
#[derive(Clone, Copy, Debug, PartialEq, Eq, Hash)]
pub struct ArchetypeComponent {
    pub archetype_index: u32,
    pub component: TypeId,
}

impl ArchetypeComponent {
    /// The key of `component` in the archetype `archetype_index`.
    pub fn new(archetype_index: u32, component: TypeId) -> (r: ArchetypeComponent)
        ensures
            r == (ArchetypeComponent { archetype_index, component }),
    {
        ArchetypeComponent { archetype_index, component }
    }
}

impl AccessKey for ArchetypeComponent {
    fn same(&self, other: &Self) -> (r: bool) {
        self.archetype_index == other.archetype_index && same_type_id(
            &self.component,
            &other.component,
        )
    }
}

/// Whether `key` occurs in `v`.
pub(crate) fn contains_key<T: AccessKey>(v: &Vec<T>, key: &T) -> (r: bool)
    ensures
        r == v@.contains(*key),
{
    let mut i: usize = 0;
    while i < v.len()
        invariant
            i <= v.len(),
            forall|j: int| 0 <= j < i ==> v@[j] != *key,
        decreases v.len() - i,
    {
        if v[i].same(key) {
            return true;
        }
        i += 1;
    }
    false
}

/// Adds `key` to `v` unless it is there already.
fn insert_key<T: AccessKey>(v: &mut Vec<T>, key: T)
    ensures
        forall|k: T| #[trigger] final(v)@.contains(k) <==> (old(v)@.contains(k) || k == key),
{
    if !contains_key(v, &key) {
        let ghost before = v@;
        v.push(key);
        proof {
            assert forall|k: T| #[trigger] v@.contains(k) <==> (before.contains(k) || k == key) by {
                if before.contains(k) {
                    let j = choose|j: int| 0 <= j < before.len() && before[j] == k;
                    assert(v@[j] == k);
                }
                if k == key {
                    assert(v@[before.len() as int] == k);
                }
                if v@.contains(k) {
                    let j = choose|j: int| 0 <= j < v@.len() && v@[j] == k;
                    if j < before.len() {
                        assert(before[j] == k);
                    }
                }
            }
        }
    }
}

/// Adds every key of `other` to `v`.
fn extend_keys<T: AccessKey>(v: &mut Vec<T>, other: &Vec<T>)
    ensures
        forall|k: T| #[trigger]
            final(v)@.contains(k) <==> (old(v)@.contains(k) || other@.contains(k)),
{
    let ghost before = v@;
    let mut i: usize = 0;
    while i < other.len()
        invariant
            i <= other.len(),
            forall|k: T| #[trigger]
                v@.contains(k) <==> (before.contains(k) || exists|j: int|
                    0 <= j < i && other@[j] == k),
        decreases other.len() - i,
    {
        let ghost mid = v@;
        insert_key(v, other[i]);
        proof {
            assert forall|k: T| #[trigger]
                v@.contains(k) <==> (before.contains(k) || exists|j: int|
                    0 <= j < i + 1 && other@[j] == k) by {
                if mid.contains(k) && !before.contains(k) {
                    let j = choose|j: int| 0 <= j < i && other@[j] == k;
                    assert(0 <= j < i + 1 && other@[j] == k);
                }
                if k == other@[i as int] {
                    assert(0 <= i < i + 1 && other@[i as int] == k);
                }
                if exists|j: int| 0 <= j < i + 1 && other@[j] == k {
                    let j = choose|j: int| 0 <= j < i + 1 && other@[j] == k;
                    if j < i {
                        assert(0 <= j < i && other@[j] == k);
                    }
                }
            }
        }
        i += 1;
    }
}

/// The first key of `a` that also occurs in `b`, if there is one.
fn common_key<T: AccessKey>(a: &Vec<T>, b: &Vec<T>) -> (r: Option<T>)
    ensures
        r is None <==> forall|k: T| !(a@.contains(k) && b@.contains(k)),
        r matches Some(k) ==> a@.contains(k) && b@.contains(k),
{
    let mut i: usize = 0;
    while i < a.len()
        invariant
            i <= a.len(),
            forall|j: int| 0 <= j < i ==> !b@.contains(#[trigger] a@[j]),
        decreases a.len() - i,
    {
        if contains_key(b, &a[i]) {
            assert(a@.contains(a@[i as int]));
            return Some(a[i]);
        }
        i += 1;
    }
    None
}

/// A ledger of the keys a piece of work reads and of those it writes.
pub struct TypeAccess<T: AccessKey> {
    reads: Vec<T>,
    writes: Vec<T>,
}

impl<T: AccessKey> TypeAccess<T> {
    /// The keys that are read.
    pub closed spec fn reads(&self) -> Set<T> {
        Set::new(|k: T| self.reads@.contains(k))
    }

    /// The keys that are written.
    pub closed spec fn writes(&self) -> Set<T> {
        Set::new(|k: T| self.writes@.contains(k))
    }

    /// The keys that are touched at all.
    pub open spec fn reads_and_writes(&self) -> Set<T> {
        self.reads().union(self.writes())
    }

    /// `k` is written by one side and touched by the other.
    pub open spec fn conflict_at(&self, other: &TypeAccess<T>, k: T) -> bool {
        ||| self.writes().contains(k) && other.reads_and_writes().contains(k)
        ||| self.reads_and_writes().contains(k) && other.writes().contains(k)
    }

    /// No key is written by one side and touched by the other.
    pub open spec fn compatible(&self, other: &TypeAccess<T>) -> bool {
        forall|k: T| !self.conflict_at(other, k)
    }

    /// Two ledgers with the same membership.
    pub open spec fn same_access(&self, other: &TypeAccess<T>) -> bool {
        self.reads() == other.reads() && self.writes() == other.writes()
    }

    /// The empty ledger.
    pub fn new() -> (r: TypeAccess<T>)
        ensures
            r.reads() == Set::<T>::empty(),
            r.writes() == Set::<T>::empty(),
    {
        let r = TypeAccess { reads: Vec::new(), writes: Vec::new() };
        assert(r.reads() =~= Set::<T>::empty());
        assert(r.writes() =~= Set::<T>::empty());
        r
    }

    /// Empties both memberships.
    pub fn clear(&mut self)
        ensures
            final(self).reads() == Set::<T>::empty(),
            final(self).writes() == Set::<T>::empty(),
    {
        self.reads.clear();
        self.writes.clear();
        assert(self.reads() =~= Set::<T>::empty());
        assert(self.writes() =~= Set::<T>::empty());
    }

    /// Records that `key` is read.
    pub fn add_read(&mut self, key: T)
        ensures
            final(self).reads() == old(self).reads().insert(key),
            final(self).writes() == old(self).writes(),
    {
        insert_key(&mut self.reads, key);
        assert(self.reads() =~= old(self).reads().insert(key));
    }

    /// Records that `key` is written.
    pub fn add_write(&mut self, key: T)
        ensures
            final(self).reads() == old(self).reads(),
            final(self).writes() == old(self).writes().insert(key),
    {
        insert_key(&mut self.writes, key);
        assert(self.writes() =~= old(self).writes().insert(key));
    }

    /// Adds the memberships of `other` to this ledger.
    pub fn union(&mut self, other: &TypeAccess<T>)
        ensures
            final(self).reads() == old(self).reads().union(other.reads()),
            final(self).writes() == old(self).writes().union(other.writes()),
    {
        extend_keys(&mut self.reads, &other.reads);
        extend_keys(&mut self.writes, &other.writes);
        assert(self.reads() =~= old(self).reads().union(other.reads()));
        assert(self.writes() =~= old(self).writes().union(other.writes()));
    }

    /// Whether `key` is read.
    pub fn is_read(&self, key: &T) -> (r: bool)
        ensures
            r == self.reads().contains(*key),
    {
        contains_key(&self.reads, key)
    }

    /// Whether `key` is written.
    pub fn is_write(&self, key: &T) -> (r: bool)
        ensures
            r == self.writes().contains(*key),
    {
        contains_key(&self.writes, key)
    }

    /// Whether `key` is read or written.
    pub fn is_read_or_write(&self, key: &T) -> (r: bool)
        ensures
            r == self.reads_and_writes().contains(*key),
    {
        contains_key(&self.reads, key) || contains_key(&self.writes, key)
    }

    /// A key that is written by one side and touched by the other, if any.
    pub fn get_conflict(&self, other: &TypeAccess<T>) -> (r: Option<T>)
        ensures
            r is None <==> self.compatible(other),
            r matches Some(k) ==> self.conflict_at(other, k),
    {
        if let Some(k) = common_key(&self.writes, &other.reads) {
            assert(self.conflict_at(other, k));
            return Some(k);
        }
        if let Some(k) = common_key(&self.writes, &other.writes) {
            assert(self.conflict_at(other, k));
            return Some(k);
        }
        if let Some(k) = common_key(&self.reads, &other.writes) {
            assert(self.conflict_at(other, k));
            return Some(k);
        }
        None
    }

    /// Whether the two ledgers may be used at the same time: false exactly when
    /// a key written by one is read or written by the other.
    pub fn is_compatible(&self, other: &TypeAccess<T>) -> (r: bool)
        ensures
            r == self.compatible(other),
    {
        self.get_conflict(other).is_none()
    }
}

} // verus!
