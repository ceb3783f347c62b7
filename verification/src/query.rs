//! Query access expressions and their resolution against the archetypes of a
//! store.
use vstd::prelude::*;
use std::any::TypeId;
use bevy_hecs::World;
use crate::access::{contains_key, AccessKey, ArchetypeComponent, TypeAccess};

verus! {

/// `bevy_hecs::World`, the store, as an opaque type: the ledger reads of it
/// only which component types each archetype holds.
#[verifier::external_type_specification]
#[verifier::external_body]
pub struct ExWorld(bevy_hecs::World);

/// The component types that each archetype of a store holds, by archetype
/// index.
pub uninterp spec fn world_archetypes(world: World) -> Seq<Seq<TypeId>>;

/// The number of archetypes of the store: the length of the iterator that
/// `World::archetypes` returns.
#[verifier::external_body]
fn archetype_count(world: &World) -> (n: usize)
    ensures
        n == world_archetypes(*world).len(),
{
    world.archetypes().len()
}

/// The component types of the archetype at position `index` of
/// `World::archetypes`: the `TypeInfo::id` of each entry of
/// `Archetype::types`, in that order.
#[verifier::external_body]
fn archetype_types(world: &World, index: usize) -> (types: Vec<TypeId>)
    requires
        index < world_archetypes(*world).len(),
    ensures
        types@ == world_archetypes(*world)[index as int],
{
    world.archetypes().nth(index).unwrap().types().iter().map(|ty| ty.id()).collect()
}

/// What a query touches: leaf terms joined by "all of" and "any of".
pub enum QueryAccess {
    /// Reads a component type, which the archetype must hold.
    Read(TypeId, &'static str),
    /// Writes a component type, which the archetype must hold.
    Write(TypeId, &'static str),
    /// The archetype must hold the component type; nothing is accessed.
    With(TypeId),
    /// The archetype must not hold the component type; nothing is accessed.
    Without(TypeId),
    /// Reads a component type to see whether it changed.
    Changed(TypeId, &'static str),
    /// Reads a component type to see whether it was added.
    Added(TypeId, &'static str),
    /// Reads a component type to see whether it was mutated.
    Mutated(TypeId, &'static str),
    /// Every part must match; the parts' accesses are joined.
    And(Vec<QueryAccess>),
    /// Some part must match; the accesses of the matching parts are joined.
    Or(Vec<QueryAccess>),
}

impl QueryAccess {
    /// Whether an archetype holding the component types `arch` matches.
    pub open spec fn matches(self, arch: Seq<TypeId>) -> bool
        decreases self,
    {
        match self {
            QueryAccess::Read(c, _) => arch.contains(c),
            QueryAccess::Write(c, _) => arch.contains(c),
            QueryAccess::With(c) => arch.contains(c),
            QueryAccess::Without(c) => !arch.contains(c),
            QueryAccess::Changed(c, _) => arch.contains(c),
            QueryAccess::Added(c, _) => arch.contains(c),
            QueryAccess::Mutated(c, _) => arch.contains(c),
            QueryAccess::And(v) => forall|i: int|
                0 <= i < v@.len() ==> (#[trigger] v@[i]).matches(arch),
            QueryAccess::Or(v) => exists|i: int|
                0 <= i < v@.len() && (#[trigger] v@[i]).matches(arch),
        }
    }

    /// Whether component type `c` is read in an archetype holding `arch`.
    pub open spec fn reads(self, arch: Seq<TypeId>, c: TypeId) -> bool
        decreases self,
    {
        match self {
            QueryAccess::Read(x, _) => x == c && arch.contains(x),
            QueryAccess::Write(_, _) => false,
            QueryAccess::With(_) => false,
            QueryAccess::Without(_) => false,
            QueryAccess::Changed(x, _) => x == c && arch.contains(x),
            QueryAccess::Added(x, _) => x == c && arch.contains(x),
            QueryAccess::Mutated(x, _) => x == c && arch.contains(x),
            QueryAccess::And(v) => self.matches(arch) && exists|i: int|
                0 <= i < v@.len() && (#[trigger] v@[i]).reads(arch, c),
            QueryAccess::Or(v) => exists|i: int|
                0 <= i < v@.len() && (#[trigger] v@[i]).reads(arch, c),
        }
    }

    /// Whether component type `c` is written in an archetype holding `arch`.
    pub open spec fn writes(self, arch: Seq<TypeId>, c: TypeId) -> bool
        decreases self,
    {
        match self {
            QueryAccess::Write(x, _) => x == c && arch.contains(x),
            QueryAccess::And(v) => self.matches(arch) && exists|i: int|
                0 <= i < v@.len() && (#[trigger] v@[i]).writes(arch, c),
            QueryAccess::Or(v) => exists|i: int|
                0 <= i < v@.len() && (#[trigger] v@[i]).writes(arch, c),
            _ => false,
        }
    }

    /// Whether the key `k` is read in the store `world`.
    pub open spec fn world_reads(self, world: &World, k: ArchetypeComponent) -> bool {
        k.archetype_index < world_archetypes(*world).len() && self.reads(
            world_archetypes(*world)[k.archetype_index as int],
            k.component,
        )
    }

    /// Whether the key `k` is written in the store `world`.
    pub open spec fn world_writes(self, world: &World, k: ArchetypeComponent) -> bool {
        k.archetype_index < world_archetypes(*world).len() && self.writes(
            world_archetypes(*world)[k.archetype_index as int],
            k.component,
        )
    }

    /// The name that the first leaf for component type `c` carries, in the
    /// order in which the expression is written; `None` if no leaf names `c`.
    pub open spec fn name_of(self, c: TypeId) -> Option<&'static str>
        decreases self,
    {
        match self {
            QueryAccess::Read(x, n) => leaf_name_of(x, n, c),
            QueryAccess::Write(x, n) => leaf_name_of(x, n, c),
            QueryAccess::Changed(x, n) => leaf_name_of(x, n, c),
            QueryAccess::Added(x, n) => leaf_name_of(x, n, c),
            QueryAccess::Mutated(x, n) => leaf_name_of(x, n, c),
            QueryAccess::With(_) => None,
            QueryAccess::Without(_) => None,
            QueryAccess::And(v) => first_name_from(v, c, 0),
            QueryAccess::Or(v) => first_name_from(v, c, 0),
        }
    }

    /// Whether an archetype holding `arch` matches this expression.
    pub fn matches_archetype(&self, arch: &Vec<TypeId>) -> (r: bool)
        ensures
            r == self.matches(arch@),
        decreases self,
    {
        match self {
            QueryAccess::Read(c, _) => contains_key(arch, c),
            QueryAccess::Write(c, _) => contains_key(arch, c),
            QueryAccess::With(c) => contains_key(arch, c),
            QueryAccess::Without(c) => !contains_key(arch, c),
            QueryAccess::Changed(c, _) => contains_key(arch, c),
            QueryAccess::Added(c, _) => contains_key(arch, c),
            QueryAccess::Mutated(c, _) => contains_key(arch, c),
            QueryAccess::And(v) => parts_match(v, arch, true),
            QueryAccess::Or(v) => parts_match(v, arch, false),
        }
    }

    /// Adds to `into` what this expression touches in the archetype `index`,
    /// which holds the component types `arch`.
    pub fn get_archetype_access(
        &self,
        arch: &Vec<TypeId>,
        index: u32,
        into: &mut TypeAccess<ArchetypeComponent>,
    )
        ensures
            forall|k: ArchetypeComponent| #[trigger]
                final(into).reads().contains(k) <==> (old(into).reads().contains(k) || (
                k.archetype_index == index && self.reads(arch@, k.component))),
            forall|k: ArchetypeComponent| #[trigger]
                final(into).writes().contains(k) <==> (old(into).writes().contains(k) || (
                k.archetype_index == index && self.writes(arch@, k.component))),
        decreases self,
    {
        match self {
            QueryAccess::Read(c, _) => add_leaf_read(arch, index, *c, into),
            QueryAccess::Changed(c, _) => add_leaf_read(arch, index, *c, into),
            QueryAccess::Added(c, _) => add_leaf_read(arch, index, *c, into),
            QueryAccess::Mutated(c, _) => add_leaf_read(arch, index, *c, into),
            QueryAccess::Write(c, _) => {
                if contains_key(arch, c) {
                    into.add_write(ArchetypeComponent::new(index, *c));
                }
            },
            QueryAccess::With(_) => {},
            QueryAccess::Without(_) => {},
            QueryAccess::And(v) => {
                if parts_match(v, arch, true) {
                    add_parts(v, arch, index, into);
                }
            },
            QueryAccess::Or(v) => add_parts(v, arch, index, into),
        }
    }

    /// Adds to `into` what this expression touches in every archetype of
    /// `world` that it matches. What `into` held before stays. An archetype
    /// is known by its position in the store, as far as a key can name it.
    pub fn get_world_archetype_access(
        &self,
        world: &World,
        into: &mut TypeAccess<ArchetypeComponent>,
    )
        ensures
            forall|k: ArchetypeComponent| #[trigger]
                final(into).reads().contains(k) <==> (old(into).reads().contains(k)
                    || self.world_reads(world, k)),
            forall|k: ArchetypeComponent| #[trigger]
                final(into).writes().contains(k) <==> (old(into).writes().contains(k)
                    || self.world_writes(world, k)),
    {
        let ghost before = *into;
        let n = archetype_count(world);
        let mut i: usize = 0;
        while i < n && i <= 0xFFFF_FFFFusize
            invariant
                n == world_archetypes(*world).len(),
                i <= n,
                forall|k: ArchetypeComponent| #[trigger]
                    into.reads().contains(k) <==> (before.reads().contains(k) || (
                    k.archetype_index < i && self.world_reads(world, k))),
                forall|k: ArchetypeComponent| #[trigger]
                    into.writes().contains(k) <==> (before.writes().contains(k) || (
                    k.archetype_index < i && self.world_writes(world, k))),
            decreases n - i,
        {
            let arch = archetype_types(world, i);
            self.get_archetype_access(&arch, i as u32, into);
            i += 1;
        }
    }

    /// The name that the first leaf for component type `c` carries, if a
    /// leaf names it.
    pub fn get_type_name(&self, c: TypeId) -> (r: Option<&'static str>)
        ensures
            r == self.name_of(c),
        decreases self,
    {
        match self {
            QueryAccess::Read(x, n) => leaf_name(*x, n, c),
            QueryAccess::Write(x, n) => leaf_name(*x, n, c),
            QueryAccess::Changed(x, n) => leaf_name(*x, n, c),
            QueryAccess::Added(x, n) => leaf_name(*x, n, c),
            QueryAccess::Mutated(x, n) => leaf_name(*x, n, c),
            QueryAccess::With(_) => None,
            QueryAccess::Without(_) => None,
            QueryAccess::And(v) => first_name(v, c),
            QueryAccess::Or(v) => first_name(v, c),
        }
    }
}

/// The name of a leaf for component type `x`, asked for `c`.
pub open spec fn leaf_name_of(x: TypeId, name: &'static str, c: TypeId) -> Option<&'static str> {
    if x == c {
        Some(name)
    } else {
        None
    }
}

/// The name that the first expression at or behind position `from` with a
/// leaf for component type `c` gives to it.
pub open spec fn first_name_from(v: Vec<QueryAccess>, c: TypeId, from: nat) -> Option<&'static str>
    decreases v, v@.len() - from,
{
    if from >= v@.len() {
        None
    } else {
        match v@[from as int].name_of(c) {
            Some(n) => Some(n),
            None => first_name_from(v, c, from + 1),
        }
    }
}

/// The name that the first of the expressions `v` with a leaf for component
/// type `c` gives to it.
pub open spec fn first_name_of(v: Vec<QueryAccess>, c: TypeId) -> Option<&'static str> {
    first_name_from(v, c, 0)
}

/// The name of a leaf for component type `x`, asked for `c`.
fn leaf_name(x: TypeId, name: &'static str, c: TypeId) -> (r: Option<&'static str>)
    ensures
        r == leaf_name_of(x, name, c),
{
    if x.same(&c) {
        Some(name)
    } else {
        None
    }
}

/// The name that the first of the expressions `v` with a leaf for component
/// type `c` gives to it.
pub fn first_name(v: &Vec<QueryAccess>, c: TypeId) -> (r: Option<&'static str>)
    ensures
        r == first_name_of(*v, c),
    decreases v,
{
    let mut i: usize = 0;
    while i < v.len()
        invariant
            i <= v.len(),
            first_name_from(*v, c, i as nat) == first_name_of(*v, c),
        decreases v.len() - i,
    {
        let found = v[i].get_type_name(c);
        if found.is_some() {
            return found;
        }
        i += 1;
    }
    None
}

/// Records a read of component type `c` in archetype `index` if the
/// archetype holds it.
fn add_leaf_read(arch: &Vec<TypeId>, index: u32, c: TypeId, into: &mut TypeAccess<ArchetypeComponent>)
    ensures
        forall|k: ArchetypeComponent| #[trigger]
            final(into).reads().contains(k) <==> (old(into).reads().contains(k) || (
            k.archetype_index == index && k.component == c && arch@.contains(c))),
        final(into).writes() == old(into).writes(),
{
    if contains_key(arch, &c) {
        into.add_read(ArchetypeComponent::new(index, c));
    }
}

/// Adds to `into` what each part touches in the archetype `index`.
fn add_parts(
    v: &Vec<QueryAccess>,
    arch: &Vec<TypeId>,
    index: u32,
    into: &mut TypeAccess<ArchetypeComponent>,
)
    ensures
        forall|k: ArchetypeComponent| #[trigger]
            final(into).reads().contains(k) <==> (old(into).reads().contains(k) || (
            k.archetype_index == index && exists|i: int|
                0 <= i < v@.len() && (#[trigger] v@[i]).reads(arch@, k.component))),
        forall|k: ArchetypeComponent| #[trigger]
            final(into).writes().contains(k) <==> (old(into).writes().contains(k) || (
            k.archetype_index == index && exists|i: int|
                0 <= i < v@.len() && (#[trigger] v@[i]).writes(arch@, k.component))),
    decreases v,
{
    let ghost before = *into;
    let mut n: usize = 0;
    while n < v.len()
        invariant
            n <= v.len(),
            forall|k: ArchetypeComponent| #[trigger]
                into.reads().contains(k) <==> (before.reads().contains(k) || (
                k.archetype_index == index && exists|i: int|
                    0 <= i < n && (#[trigger] v@[i]).reads(arch@, k.component))),
            forall|k: ArchetypeComponent| #[trigger]
                into.writes().contains(k) <==> (before.writes().contains(k) || (
                k.archetype_index == index && exists|i: int|
                    0 <= i < n && (#[trigger] v@[i]).writes(arch@, k.component))),
        decreases v.len() - n,
    {
        v[n].get_archetype_access(arch, index, into);
        n += 1;
    }
}

/// Whether every part matches (`all`), or some part does (not `all`).
fn parts_match(v: &Vec<QueryAccess>, arch: &Vec<TypeId>, all: bool) -> (r: bool)
    ensures
        all ==> r == forall|i: int| 0 <= i < v@.len() ==> (#[trigger] v@[i]).matches(arch@),
        !all ==> r == exists|i: int| 0 <= i < v@.len() && (#[trigger] v@[i]).matches(arch@),
    decreases v,
{
    let mut i: usize = 0;
    while i < v.len()
        invariant
            i <= v.len(),
            forall|j: int| 0 <= j < i ==> (#[trigger] v@[j]).matches(arch@) == all,
        decreases v.len() - i,
    {
        if v[i].matches_archetype(arch) != all {
            return !all;
        }
        i += 1;
    }
    all
}

/// If the expression at position `i` names component type `c`, the lookup
/// from any position up to `i` finds a name.
pub proof fn lemma_first_name_found(v: Vec<QueryAccess>, c: TypeId, from: nat, i: int)
    requires
        from <= i < v@.len(),
        v@[i].name_of(c) is Some,
    ensures
        first_name_from(v, c, from) is Some,
    decreases i - from,
{
    if from < i && v@[from as int].name_of(c) is None {
        lemma_first_name_found(v, c, from + 1, i);
    }
}

/// A component type that an expression reads or writes in some archetype is
/// named by one of its leaves.
pub proof fn lemma_touched_component_is_named(q: QueryAccess, arch: Seq<TypeId>, c: TypeId)
    requires
        q.reads(arch, c) || q.writes(arch, c),
    ensures
        q.name_of(c) is Some,
    decreases q,
{
    match q {
        QueryAccess::And(v) => {
            let i = if q.reads(arch, c) {
                choose|i: int| 0 <= i < v@.len() && (#[trigger] v@[i]).reads(arch, c)
            } else {
                choose|i: int| 0 <= i < v@.len() && (#[trigger] v@[i]).writes(arch, c)
            };
            lemma_touched_component_is_named(v@[i], arch, c);
            lemma_first_name_found(v, c, 0, i);
        },
        QueryAccess::Or(v) => {
            let i = if q.reads(arch, c) {
                choose|i: int| 0 <= i < v@.len() && (#[trigger] v@[i]).reads(arch, c)
            } else {
                choose|i: int| 0 <= i < v@.len() && (#[trigger] v@[i]).writes(arch, c)
            };
            lemma_touched_component_is_named(v@[i], arch, c);
            lemma_first_name_found(v, c, 0, i);
        },
        _ => {},
    }
}

} // verus!
