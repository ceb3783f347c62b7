//! The state ledger of one unit of work: the accesses its query parameters
//! declare, resolved and checked for conflicts before every run.
use vstd::prelude::*;
use std::any::TypeId;
use std::sync::Arc;
use crate::access::{ArchetypeComponent, TypeAccess};
use crate::commands::Commands;
use bevy_hecs::World;
use crate::query::{
    first_name, first_name_of, lemma_first_name_found, lemma_touched_component_is_named,
    world_archetypes, QueryAccess,
};

verus! {

/// The identity of a unit of work.
#[derive(Clone, Copy, Debug, PartialEq, Eq, Structural, Hash)]
pub struct SystemId(pub usize);

/// Whether some expression of the slot reads the key `k` in `world`.
pub open spec fn slot_reads(slot: Seq<QueryAccess>, world: &World, k: ArchetypeComponent) -> bool {
    exists|q: int| 0 <= q < slot.len() && (#[trigger] slot[q]).world_reads(world, k)
}

/// Whether some expression of the slot writes the key `k` in `world`.
pub open spec fn slot_writes(slot: Seq<QueryAccess>, world: &World, k: ArchetypeComponent) -> bool {
    exists|q: int| 0 <= q < slot.len() && (#[trigger] slot[q]).world_writes(world, k)
}

/// The keys that a slot reads in `world`.
pub open spec fn slot_read_set(slot: Seq<QueryAccess>, world: &World) -> Set<ArchetypeComponent> {
    Set::new(|k: ArchetypeComponent| slot_reads(slot, world, k))
}

/// The keys that a slot writes in `world`.
pub open spec fn slot_write_set(slot: Seq<QueryAccess>, world: &World) -> Set<ArchetypeComponent> {
    Set::new(|k: ArchetypeComponent| slot_writes(slot, world, k))
}

/// The key `k` is written by one slot and read or written by the other.
pub open spec fn slots_clash_at(
    a: Seq<QueryAccess>,
    b: Seq<QueryAccess>,
    world: &World,
    k: ArchetypeComponent,
) -> bool {
    ||| slot_writes(a, world, k) && (slot_reads(b, world, k) || slot_writes(b, world, k))
    ||| (slot_reads(a, world, k) || slot_writes(a, world, k)) && slot_writes(b, world, k)
}

/// Some key is written by one slot and read or written by the other.
pub open spec fn slots_clash(a: Seq<QueryAccess>, b: Seq<QueryAccess>, world: &World) -> bool {
    exists|k: ArchetypeComponent| slots_clash_at(a, b, world, k)
}

/// The keys that the first `m` slots read in `world`.
pub open spec fn prefix_read_set(slots: Seq<Vec<QueryAccess>>, world: &World, m: int) -> Set<
    ArchetypeComponent,
> {
    Set::new(
        |k: ArchetypeComponent|
            exists|j: int| 0 <= j < m && j < slots.len() && slot_reads(#[trigger] slots[j]@, world, k),
    )
}

/// The keys that the first `m` slots write in `world`.
pub open spec fn prefix_write_set(slots: Seq<Vec<QueryAccess>>, world: &World, m: int) -> Set<
    ArchetypeComponent,
> {
    Set::new(
        |k: ArchetypeComponent|
            exists|j: int| 0 <= j < m && j < slots.len() && slot_writes(#[trigger] slots[j]@, world, k),
    )
}

/// No slot before `m` clashes with an earlier one.
pub open spec fn clash_free(slots: Seq<Vec<QueryAccess>>, world: &World, m: int) -> bool {
    forall|a: int, b: int|
        0 <= b < a < m && a < slots.len() ==> !slots_clash(
            #[trigger] slots[a]@,
            #[trigger] slots[b]@,
            world,
        )
}

/// Resolves the expressions of one slot against `world` into a fresh ledger.
pub fn resolve_slot(accesses: &Vec<QueryAccess>, world: &World) -> (slot: TypeAccess<
    ArchetypeComponent,
>)
    ensures
        slot.reads() == slot_read_set(accesses@, world),
        slot.writes() == slot_write_set(accesses@, world),
{
    let mut slot: TypeAccess<ArchetypeComponent> = TypeAccess::new();
    let mut q: usize = 0;
    while q < accesses.len()
        invariant
            q <= accesses.len(),
            forall|k: ArchetypeComponent| #[trigger]
                slot.reads().contains(k) <==> exists|p: int|
                    0 <= p < q && (#[trigger] accesses@[p]).world_reads(world, k),
            forall|k: ArchetypeComponent| #[trigger]
                slot.writes().contains(k) <==> exists|p: int|
                    0 <= p < q && (#[trigger] accesses@[p]).world_writes(world, k),
        decreases accesses.len() - q,
    {
        accesses[q].get_world_archetype_access(world, &mut slot);
        q += 1;
    }
    assert(slot.reads() =~= slot_read_set(accesses@, world));
    assert(slot.writes() =~= slot_write_set(accesses@, world));
    slot
}

/// What `update` reports when a slot clashes with the slots before it.
#[derive(Debug)]
pub struct QueryConflict {
    /// The name of the unit.
    pub system_name: String,
    /// The first slot that clashes with the slots before it.
    pub query_index: usize,
    /// The declared type name of that slot.
    pub query_type_name: &'static str,
    /// The name of a component type on which it clashes, where a leaf of the
    /// slot names it.
    pub component_name: Option<&'static str>,
    /// The first earlier slot that clashes with it.
    pub prior_query_index: Option<usize>,
    /// The declared type name of that earlier slot.
    pub prior_query_type_name: Option<&'static str>,
}

/// The ledger of one unit of work.
pub struct SystemState {
    pub id: SystemId,
    pub name: String,
    pub is_initialized: bool,
    /// Everything the query slots touch, as of the last `update`.
    pub archetype_component_access: TypeAccess<ArchetypeComponent>,
    /// The resources the unit touches, fixed at initialization.
    pub resource_access: TypeAccess<TypeId>,
    /// What each query slot touches, as of the last `update`.
    pub query_archetype_component_accesses: Vec<TypeAccess<ArchetypeComponent>>,
    /// The expressions of each query slot. A slot with several expressions is
    /// a parameter set: its expressions may overlap with each other.
    pub query_accesses: Vec<Vec<QueryAccess>>,
    /// The declared type name of each query slot.
    pub query_type_names: Vec<&'static str>,
    /// The commands that the unit has queued for the next flush.
    pub commands: Commands,
    /// A second queue, shared with parameters that queue commands on their
    /// own.
    pub arc_commands: Option<Arc<parking_lot::Mutex<Commands>>>,
    /// The slot that the next query parameter will take.
    pub current_query_index: usize,
}

impl SystemState {
    /// Every query slot has its expressions, its ledger and its type name.
    pub open spec fn wf(&self) -> bool {
        &&& self.query_accesses@.len() == self.query_archetype_component_accesses@.len()
        &&& self.query_accesses@.len() == self.query_type_names@.len()
    }

    /// What is declared once and never changed by a run: everything but the
    /// resolved ledgers.
    pub open spec fn same_declaration(&self, other: &SystemState) -> bool {
        &&& self.id == other.id
        &&& self.name == other.name
        &&& self.is_initialized == other.is_initialized
        &&& self.resource_access == other.resource_access
        &&& self.query_accesses == other.query_accesses
        &&& self.query_type_names == other.query_type_names
        &&& self.current_query_index == other.current_query_index
        &&& self.commands == other.commands
        &&& self.arc_commands == other.arc_commands
    }

    /// Everything but what the unit's own command queue holds is the same;
    /// the shared queue is the same queue.
    pub open spec fn same_ledgers(&self, other: &SystemState) -> bool {
        &&& self.id == other.id
        &&& self.name == other.name
        &&& self.is_initialized == other.is_initialized
        &&& self.archetype_component_access == other.archetype_component_access
        &&& self.resource_access == other.resource_access
        &&& self.query_archetype_component_accesses == other.query_archetype_component_accesses
        &&& self.query_accesses == other.query_accesses
        &&& self.query_type_names == other.query_type_names
        &&& self.current_query_index == other.current_query_index
        &&& self.arc_commands == other.arc_commands
    }

    /// The first `m` slots hold what their expressions resolve to in `world`.
    pub open spec fn resolved_through(&self, world: &World, m: int) -> bool {
        forall|i: int|
            0 <= i < m && i < self.query_accesses@.len() ==> {
                &&& (#[trigger] self.query_archetype_component_accesses@[i]).reads()
                    == slot_read_set(self.query_accesses@[i]@, world)
                &&& self.query_archetype_component_accesses@[i].writes() == slot_write_set(
                    self.query_accesses@[i]@,
                    world,
                )
            }
    }

    /// The aggregate ledger holds what the first `m` slots resolve to.
    pub open spec fn aggregates(&self, world: &World, m: int) -> bool {
        &&& self.archetype_component_access.reads() == prefix_read_set(
            self.query_accesses@,
            world,
            m,
        )
        &&& self.archetype_component_access.writes() == prefix_write_set(
            self.query_accesses@,
            world,
            m,
        )
    }

    /// What one `update` against `world` makes of the ledger `pre`: the ledger
    /// `self` and the result `r`.
    pub open spec fn updated_from(
        &self,
        pre: &SystemState,
        world: &World,
        r: Result<(), QueryConflict>,
    ) -> bool {
        let slots = pre.query_accesses@;
        &&& self.wf()
        &&& self.same_declaration(pre)
        &&& match r {
            Ok(_) => {
                &&& clash_free(slots, world, slots.len() as int)
                &&& self.resolved_through(world, slots.len() as int)
                &&& self.aggregates(world, slots.len() as int)
            },
            Err(e) => {
                &&& e.query_index < slots.len()
                &&& clash_free(slots, world, e.query_index as int)
                &&& self.resolved_through(world, e.query_index + 1)
                &&& self.aggregates(world, e.query_index as int)
                &&& forall|i: int|
                    e.query_index < i < slots.len()
                        ==> #[trigger] self.query_archetype_component_accesses@[i]
                        == pre.query_archetype_component_accesses@[i]
                &&& e.prior_query_index matches Some(p) && p < e.query_index && slots_clash(
                    slots[e.query_index as int]@,
                    slots[p as int]@,
                    world,
                ) && (forall|j: int|
                    0 <= j < p ==> !slots_clash(
                        slots[e.query_index as int]@,
                        (#[trigger] slots[j])@,
                        world,
                    )) && e.prior_query_type_name == Some(pre.query_type_names@[p as int])
                &&& e.system_name@ == pre.name@
                &&& e.query_type_name == pre.query_type_names@[e.query_index as int]
                &&& exists|k: ArchetypeComponent| #[trigger]
                    slot_conflicts_with_prefix(slots, world, e.query_index as int, k)
                        && e.component_name == first_name_of(
                        slots[e.query_index as int],
                        k.component,
                    )
            },
        }
    }

    /// A ledger without query slots and without resources.
    pub fn new(id: SystemId, name: String) -> (s: SystemState)
        ensures
            s.wf(),
            s.id == id,
            s.name == name,
            !s.is_initialized,
            s.query_accesses@.len() == 0,
            s.current_query_index == 0,
            s.commands@ == Seq::<u64>::empty(),
            s.arc_commands is None,
            s.archetype_component_access.reads_and_writes() == Set::<ArchetypeComponent>::empty(),
            s.resource_access.reads_and_writes() == Set::<TypeId>::empty(),
    {
        let s = SystemState {
            id,
            name,
            is_initialized: false,
            archetype_component_access: TypeAccess::new(),
            resource_access: TypeAccess::new(),
            query_archetype_component_accesses: Vec::new(),
            query_accesses: Vec::new(),
            query_type_names: Vec::new(),
            commands: Commands::new(),
            arc_commands: None,
            current_query_index: 0,
        };
        assert(s.archetype_component_access.reads_and_writes() =~= Set::<
            ArchetypeComponent,
        >::empty());
        assert(s.resource_access.reads_and_writes() =~= Set::<TypeId>::empty());
        s
    }

    /// Appends a query slot with its declared type name and its expressions,
    /// and returns the slot's index.
    pub fn add_query(&mut self, declared_name: &'static str, accesses: Vec<QueryAccess>) -> (index:
        usize)
        requires
            old(self).wf(),
        ensures
            final(self).wf(),
            index == old(self).query_accesses@.len(),
            final(self).query_accesses@ == old(self).query_accesses@.push(accesses),
            final(self).query_type_names@ == old(self).query_type_names@.push(declared_name),
            final(self).query_archetype_component_accesses@.len() == index + 1,
            final(self).query_archetype_component_accesses@[index as int].reads_and_writes()
                == Set::<ArchetypeComponent>::empty(),
            forall|i: int|
                0 <= i < index ==> final(self).query_archetype_component_accesses@[i] == old(
                    self,
                ).query_archetype_component_accesses@[i],
            final(self).id == old(self).id,
            final(self).name == old(self).name,
            final(self).is_initialized == old(self).is_initialized,
            final(self).archetype_component_access == old(self).archetype_component_access,
            final(self).resource_access == old(self).resource_access,
            final(self).current_query_index == old(self).current_query_index,
            final(self).commands == old(self).commands,
            final(self).arc_commands == old(self).arc_commands,
    {
        let index = self.query_accesses.len();
        let slot: TypeAccess<ArchetypeComponent> = TypeAccess::new();
        assert(slot.reads_and_writes() =~= Set::<ArchetypeComponent>::empty());
        self.query_accesses.push(accesses);
        self.query_type_names.push(declared_name);
        self.query_archetype_component_accesses.push(slot);
        index
    }

    /// The first slot before `i` whose ledger is incompatible with that of
    /// slot `i`.
    fn first_incompatible_prior(&self, i: usize) -> (r: Option<usize>)
        requires
            self.wf(),
            i < self.query_accesses@.len(),
        ensures
            r matches Some(p) ==> p < i && !self.query_archetype_component_accesses@[i as int].compatible(
                &self.query_archetype_component_accesses@[p as int],
            ) && forall|j: int|
                0 <= j < p ==> self.query_archetype_component_accesses@[i as int].compatible(
                    &#[trigger] self.query_archetype_component_accesses@[j],
                ),
            r is None ==> forall|j: int|
                0 <= j < i ==> self.query_archetype_component_accesses@[i as int].compatible(
                    &#[trigger] self.query_archetype_component_accesses@[j],
                ),
    {
        let mut p: usize = 0;
        while p < i
            invariant
                self.wf(),
                i < self.query_accesses@.len(),
                p <= i,
                forall|j: int|
                    0 <= j < p ==> self.query_archetype_component_accesses@[i as int].compatible(
                        &#[trigger] self.query_archetype_component_accesses@[j],
                    ),
            decreases i - p,
        {
            if !self.query_archetype_component_accesses[i].is_compatible(
                &self.query_archetype_component_accesses[p],
            ) {
                return Some(p);
            }
            p += 1;
        }
        None
    }

    /// Resolves every query slot against `world` and checks each slot against
    /// the slots before it. Stops at the first slot that clashes and reports
    /// it; otherwise the aggregate ledger holds what all slots touch.
    pub fn update(&mut self, world: &World) -> (r: Result<(), QueryConflict>)
        requires
            old(self).wf(),
        ensures
            final(self).updated_from(old(self), world, r),
    {
        let ghost pre = *self;
        let ghost slots = self.query_accesses@;
        self.archetype_component_access.clear();
        let n = self.query_accesses.len();
        let mut i: usize = 0;
        proof {
            assert(self.archetype_component_access.reads() =~= prefix_read_set(slots, world, 0));
            assert(self.archetype_component_access.writes() =~= prefix_write_set(slots, world, 0));
        }
        let mut conflict: Option<QueryConflict> = None;
        while i < n && conflict.is_none()
            invariant
                self.wf(),
                self.same_declaration(&pre),
                conflict matches Some(e) ==> self.updated_from(&pre, world, Err(e)),
                pre.wf(),
                slots == self.query_accesses@,
                n == slots.len(),
                i <= n,
                clash_free(slots, world, i as int),
                self.resolved_through(world, i as int),
                self.aggregates(world, i as int),
                forall|a: int|
                    (i < a < n || (a == i && i < n && conflict is None))
                        ==> #[trigger] self.query_archetype_component_accesses@[a]
                        == pre.query_archetype_component_accesses@[a],
            decreases n - i + (if conflict is None { 1int } else { 0int }),
        {
            let slot = resolve_slot(&self.query_accesses[i], world);
            self.query_archetype_component_accesses[i] = slot;
            proof {
                assert(self.resolved_through(world, i + 1));
            }
            if !self.query_archetype_component_accesses[i].is_compatible(
                &self.archetype_component_access,
            ) {
                let key = self.query_archetype_component_accesses[i].get_conflict(
                    &self.archetype_component_access,
                );
                let component_name = match key {
                    Some(k) => first_name(&self.query_accesses[i], k.component),
                    None => None,
                };
                let prior = self.first_incompatible_prior(i);
                let prior_name = match prior {
                    Some(p) => Some(self.query_type_names[p]),
                    None => None,
                };
                let e = QueryConflict {
                    system_name: self.name.clone(),
                    query_index: i,
                    query_type_name: self.query_type_names[i],
                    component_name,
                    prior_query_index: prior,
                    prior_query_type_name: prior_name,
                };
                proof {
                    let cur = self.query_archetype_component_accesses@[i as int];
                    let agg = self.archetype_component_access;
                    let k0 = choose|k: ArchetypeComponent| cur.conflict_at(&agg, k);
                    lemma_conflict_with_prefix(&cur, &agg, slots, world, i as int, k0);
                    let j0 = choose|j: int|
                        0 <= j < i && slots_clash_at(slots[i as int]@, #[trigger] slots[j]@, world, k0);
                    assert(slots_clash(slots[i as int]@, slots[j0]@, world));
                    assert forall|j: int| 0 <= j < i implies cur.compatible(
                        &#[trigger] self.query_archetype_component_accesses@[j],
                    ) == !slots_clash(slots[i as int]@, slots[j]@, world) by {
                        lemma_compatible_iff_no_clash(
                            &cur,
                            &self.query_archetype_component_accesses@[j],
                            slots[i as int]@,
                            slots[j]@,
                            world,
                        );
                    }
                    assert(!cur.compatible(&self.query_archetype_component_accesses@[j0]));
                    if let Some(k) = key {
                        lemma_conflict_with_prefix(&cur, &agg, slots, world, i as int, k);
                    }
                    if let Some(p) = prior {
                        assert forall|j: int| 0 <= j < p implies !slots_clash(
                            slots[i as int]@,
                            (#[trigger] slots[j])@,
                            world,
                        ) by {
                            assert(cur.compatible(&self.query_archetype_component_accesses@[j]));
                        }
                    }
                    assert(e.prior_query_index matches Some(p) && p < i && slots_clash(
                        slots[i as int]@,
                        slots[p as int]@,
                        world,
                    ));
                    assert(key is Some);
                    assert(slot_conflicts_with_prefix(slots, world, i as int, key->Some_0));
                }
                conflict = Some(e);
            } else {
                let ghost agg_before = self.archetype_component_access;
                self.archetype_component_access.union(&self.query_archetype_component_accesses[i]);
                proof {
                    let cur = self.query_archetype_component_accesses@[i as int];
                    assert(self.archetype_component_access.reads() =~= prefix_read_set(
                        slots,
                        world,
                        i + 1,
                    ));
                    assert(self.archetype_component_access.writes() =~= prefix_write_set(
                        slots,
                        world,
                        i + 1,
                    ));
                    assert forall|b: int| 0 <= b < i implies !slots_clash(
                        slots[i as int]@,
                        #[trigger] slots[b]@,
                        world,
                    ) by {
                        if slots_clash(slots[i as int]@, slots[b]@, world) {
                            let k = choose|k: ArchetypeComponent|
                                slots_clash_at(slots[i as int]@, slots[b]@, world, k);
                            assert(slot_conflicts_with_prefix(slots, world, i as int, k));
                            lemma_conflict_with_prefix(
                                &cur,
                                &agg_before,
                                slots,
                                world,
                                i as int,
                                k,
                            );
                        }
                    }
                }
                i += 1;
            }
        }
        match conflict {
            Some(e) => Err(e),
            None => Ok(()),
        }
    }

    /// This ledger with the slot cursor back at the first slot.
    pub open spec fn cursor_reset(self) -> SystemState {
        SystemState { current_query_index: 0, ..self }
    }

    /// Starts a new cycle: the next query parameter takes the first slot.
    pub fn reset_indices(&mut self)
        ensures
            *final(self) == old(self).cursor_reset(),
    {
        self.current_query_index = 0;
    }
}

/// The key `k` is written by slot `i` and touched by a slot before it, or
/// touched by slot `i` and written by a slot before it.
pub open spec fn slot_conflicts_with_prefix(
    slots: Seq<Vec<QueryAccess>>,
    world: &World,
    i: int,
    k: ArchetypeComponent,
) -> bool {
    exists|j: int| 0 <= j < i && slots_clash_at(slots[i]@, #[trigger] slots[j]@, world, k)
}

/// A resolved slot conflicts with the aggregate of the slots before it on
/// exactly the keys on which it clashes with one of them.
pub proof fn lemma_conflict_with_prefix(
    cur: &TypeAccess<ArchetypeComponent>,
    agg: &TypeAccess<ArchetypeComponent>,
    slots: Seq<Vec<QueryAccess>>,
    world: &World,
    i: int,
    k: ArchetypeComponent,
)
    requires
        0 <= i < slots.len(),
        cur.reads() == slot_read_set(slots[i]@, world),
        cur.writes() == slot_write_set(slots[i]@, world),
        agg.reads() == prefix_read_set(slots, world, i),
        agg.writes() == prefix_write_set(slots, world, i),
    ensures
        cur.conflict_at(agg, k) <==> slot_conflicts_with_prefix(slots, world, i, k),
{
    if cur.conflict_at(agg, k) {
        if agg.reads().contains(k) && cur.writes().contains(k) {
            let j = choose|j: int|
                0 <= j < i && j < slots.len() && slot_reads(#[trigger] slots[j]@, world, k);
            assert(slots_clash_at(slots[i]@, slots[j]@, world, k));
        } else {
            let j = choose|j: int|
                0 <= j < i && j < slots.len() && slot_writes(#[trigger] slots[j]@, world, k);
            assert(slots_clash_at(slots[i]@, slots[j]@, world, k));
        }
    }
    if slot_conflicts_with_prefix(slots, world, i, k) {
        let j = choose|j: int|
            0 <= j < i && slots_clash_at(slots[i]@, #[trigger] slots[j]@, world, k);
        if slot_reads(slots[j]@, world, k) {
            assert(agg.reads().contains(k));
        }
        if slot_writes(slots[j]@, world, k) {
            assert(agg.writes().contains(k));
        }
    }
}

/// Two resolved slots are compatible exactly when their expressions do not
/// clash.
pub proof fn lemma_compatible_iff_no_clash(
    a: &TypeAccess<ArchetypeComponent>,
    b: &TypeAccess<ArchetypeComponent>,
    sa: Seq<QueryAccess>,
    sb: Seq<QueryAccess>,
    world: &World,
)
    requires
        a.reads() == slot_read_set(sa, world),
        a.writes() == slot_write_set(sa, world),
        b.reads() == slot_read_set(sb, world),
        b.writes() == slot_write_set(sb, world),
    ensures
        a.compatible(b) <==> !slots_clash(sa, sb, world),
{
    assert forall|k: ArchetypeComponent| a.conflict_at(b, k) <==> slots_clash_at(
        sa,
        sb,
        world,
        k,
    ) by {}
    if !a.compatible(b) {
        let k = choose|k: ArchetypeComponent| a.conflict_at(b, k);
        assert(slots_clash_at(sa, sb, world, k));
    }
    if slots_clash(sa, sb, world) {
        let k = choose|k: ArchetypeComponent| slots_clash_at(sa, sb, world, k);
        assert(a.conflict_at(b, k));
    }
}

/// Two slots that write the same key cannot pass `update`: it reports a
/// conflict.
pub proof fn lemma_write_write_is_reported(
    pre: &SystemState,
    post: &SystemState,
    world: &World,
    r: Result<(), QueryConflict>,
    i: int,
    j: int,
    k: ArchetypeComponent,
)
    requires
        post.updated_from(pre, world, r),
        0 <= i < j < pre.query_accesses@.len(),
        slot_writes(pre.query_accesses@[i]@, world, k),
        slot_writes(pre.query_accesses@[j]@, world, k),
    ensures
        r is Err,
{
    let slots = pre.query_accesses@;
    assert(slots_clash_at(slots[j]@, slots[i]@, world, k));
    assert(slots_clash(slots[j]@, slots[i]@, world));
}

/// A slot that reads a key and another slot that writes it cannot pass
/// `update`, in whichever order they are declared.
pub proof fn lemma_read_write_is_reported(
    pre: &SystemState,
    post: &SystemState,
    world: &World,
    r: Result<(), QueryConflict>,
    i: int,
    j: int,
    k: ArchetypeComponent,
)
    requires
        post.updated_from(pre, world, r),
        0 <= i < pre.query_accesses@.len(),
        0 <= j < pre.query_accesses@.len(),
        i != j,
        slot_reads(pre.query_accesses@[i]@, world, k),
        slot_writes(pre.query_accesses@[j]@, world, k),
    ensures
        r is Err,
{
    let slots = pre.query_accesses@;
    if i < j {
        assert(slots_clash_at(slots[j]@, slots[i]@, world, k));
        assert(slots_clash(slots[j]@, slots[i]@, world));
    } else {
        assert(slots_clash_at(slots[i]@, slots[j]@, world, k));
        assert(slots_clash(slots[i]@, slots[j]@, world));
    }
}

/// Slots that only read pass `update`, however much they overlap.
pub proof fn lemma_reads_never_clash(
    pre: &SystemState,
    post: &SystemState,
    world: &World,
    r: Result<(), QueryConflict>,
)
    requires
        post.updated_from(pre, world, r),
        forall|i: int, k: ArchetypeComponent|
            0 <= i < pre.query_accesses@.len() ==> !#[trigger] slot_writes(
                pre.query_accesses@[i]@,
                world,
                k,
            ),
    ensures
        r is Ok,
{
    let slots = pre.query_accesses@;
    if let Err(e) = r {
        let p = e.prior_query_index->Some_0 as int;
        let k = choose|k: ArchetypeComponent|
            slots_clash_at(slots[e.query_index as int]@, slots[p]@, world, k);
        assert(!slot_writes(slots[e.query_index as int]@, world, k));
        assert(!slot_writes(slots[p]@, world, k));
    }
}

/// The expressions of one slot may overlap with each other: a ledger with a
/// single slot passes `update` whatever that slot holds.
pub proof fn lemma_single_slot_never_clashes(
    pre: &SystemState,
    post: &SystemState,
    world: &World,
    r: Result<(), QueryConflict>,
)
    requires
        post.updated_from(pre, world, r),
        pre.query_accesses@.len() <= 1,
    ensures
        r is Ok,
{
}

/// `update` is reproducible: a second `update` against the same store gives
/// the same result, the same aggregate ledger and the same slot ledgers as
/// the first.
pub proof fn lemma_update_reproducible(
    s0: &SystemState,
    s1: &SystemState,
    s2: &SystemState,
    world: &World,
    r1: Result<(), QueryConflict>,
    r2: Result<(), QueryConflict>,
)
    requires
        s1.updated_from(s0, world, r1),
        s2.updated_from(s1, world, r2),
    ensures
        s2.archetype_component_access.same_access(&s1.archetype_component_access),
        forall|i: int|
            0 <= i < s0.query_accesses@.len() ==> (
            #[trigger] s2.query_archetype_component_accesses@[i]).same_access(
                &s1.query_archetype_component_accesses@[i],
            ),
        r1 is Ok <==> r2 is Ok,
        r1 matches Err(e1) ==> r2 matches Err(e2) && e1.query_index == e2.query_index
            && e1.prior_query_index == e2.prior_query_index && e1.query_type_name
            == e2.query_type_name && e1.prior_query_type_name == e2.prior_query_type_name
            && e1.system_name@ == e2.system_name@,
{
    let slots = s0.query_accesses@;
    assert(s1.query_accesses@ == slots);
    match (r1, r2) {
        (Ok(_), Ok(_)) => {},
        (Ok(_), Err(e2)) => {
            let p = e2.prior_query_index->Some_0 as int;
            assert(slots_clash(slots[e2.query_index as int]@, slots[p]@, world));
        },
        (Err(e1), Ok(_)) => {
            let p = e1.prior_query_index->Some_0 as int;
            assert(slots_clash(slots[e1.query_index as int]@, slots[p]@, world));
        },
        (Err(e1), Err(e2)) => {
            let p1 = e1.prior_query_index->Some_0 as int;
            let p2 = e2.prior_query_index->Some_0 as int;
            assert(slots_clash(slots[e1.query_index as int]@, slots[p1]@, world));
            assert(slots_clash(slots[e2.query_index as int]@, slots[p2]@, world));
            assert(e1.query_index == e2.query_index);
            assert(p1 == p2);
        },
    }
}

/// Two slots that each ask for mutable access to the component type `c`
/// cannot pass `update` once an archetype holds `c`.
pub proof fn lemma_shared_mutable_component_is_reported(
    pre: &SystemState,
    post: &SystemState,
    world: &World,
    r: Result<(), QueryConflict>,
    i: int,
    qi: int,
    j: int,
    qj: int,
    c: TypeId,
    a: int,
)
    requires
        post.updated_from(pre, world, r),
        0 <= i < j < pre.query_accesses@.len(),
        0 <= qi < pre.query_accesses@[i]@.len(),
        0 <= qj < pre.query_accesses@[j]@.len(),
        pre.query_accesses@[i]@[qi] matches QueryAccess::Write(x, _) && x == c,
        pre.query_accesses@[j]@[qj] matches QueryAccess::Write(x, _) && x == c,
        0 <= a < world_archetypes(*world).len(),
        a <= u32::MAX,
        world_archetypes(*world)[a].contains(c),
    ensures
        r is Err,
{
    let k = ArchetypeComponent { archetype_index: a as u32, component: c };
    assert(pre.query_accesses@[i]@[qi].world_writes(world, k));
    assert(pre.query_accesses@[j]@[qj].world_writes(world, k));
    lemma_write_write_is_reported(pre, post, world, r, i, j, k);
}

/// A slot that asks for immutable access to the component type `c` and
/// another that asks for mutable access to it cannot pass `update` once an
/// archetype holds `c`, in whichever order they are declared.
pub proof fn lemma_immutable_and_mutable_component_is_reported(
    pre: &SystemState,
    post: &SystemState,
    world: &World,
    r: Result<(), QueryConflict>,
    i: int,
    qi: int,
    j: int,
    qj: int,
    c: TypeId,
    a: int,
)
    requires
        post.updated_from(pre, world, r),
        0 <= i < pre.query_accesses@.len(),
        0 <= j < pre.query_accesses@.len(),
        i != j,
        0 <= qi < pre.query_accesses@[i]@.len(),
        0 <= qj < pre.query_accesses@[j]@.len(),
        pre.query_accesses@[i]@[qi] matches QueryAccess::Read(x, _) && x == c,
        pre.query_accesses@[j]@[qj] matches QueryAccess::Write(x, _) && x == c,
        0 <= a < world_archetypes(*world).len(),
        a <= u32::MAX,
        world_archetypes(*world)[a].contains(c),
    ensures
        r is Err,
{
    let k = ArchetypeComponent { archetype_index: a as u32, component: c };
    assert(pre.query_accesses@[i]@[qi].world_reads(world, k));
    assert(pre.query_accesses@[j]@[qj].world_writes(world, k));
    lemma_read_write_is_reported(pre, post, world, r, i, j, k);
}

/// A conflict always names the component type it is about: the clashing
/// slot touches the key, so one of its leaves names the key's component.
pub proof fn lemma_conflict_names_component(
    pre: &SystemState,
    post: &SystemState,
    world: &World,
    e: QueryConflict,
)
    requires
        post.updated_from(pre, world, Err(e)),
    ensures
        e.component_name is Some,
{
    let slots = pre.query_accesses@;
    let i = e.query_index as int;
    let k = choose|k: ArchetypeComponent| #[trigger]
        slot_conflicts_with_prefix(slots, world, i, k) && e.component_name == first_name_of(
            slots[i],
            k.component,
        );
    let j = choose|j: int| 0 <= j < i && slots_clash_at(slots[i]@, #[trigger] slots[j]@, world, k);
    let q = if slot_reads(slots[i]@, world, k) {
        choose|q: int| 0 <= q < slots[i]@.len() && (#[trigger] slots[i]@[q]).world_reads(world, k)
    } else {
        choose|q: int| 0 <= q < slots[i]@.len() && (#[trigger] slots[i]@[q]).world_writes(world, k)
    };
    lemma_touched_component_is_named(
        slots[i]@[q],
        world_archetypes(*world)[k.archetype_index as int],
        k.component,
    );
    lemma_first_name_found(slots[i], k.component, 0, q);
}

} // verus!
