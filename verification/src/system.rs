//! The executable unit: a ledger, the parameters it was declared with, and
//! the phases a scheduler drives it through.
use vstd::prelude::*;
use crate::access::{contains_key, ArchetypeComponent, TypeAccess};
use crate::commands::{drain_shared, flush_order};
use std::any::TypeId;
use bevy_hecs::World;
use crate::query::QueryAccess;
use crate::state::{QueryConflict, SystemId, SystemState};

verus! {

/// When the deferred work of a unit is applied.
#[derive(Clone, Copy, Debug, PartialEq, Eq, Structural)]
pub enum ThreadLocalExecution {
    Immediate,
    NextFlush,
}

/// What one parameter of a unit declares when the unit is initialized.
pub enum SystemParam {
    /// A query, or a set of queries that may overlap with each other: one
    /// query slot with the given declared type name and expressions.
    Query(&'static str, Vec<QueryAccess>),
    /// Reads a resource, which must exist.
    Res(TypeId),
    /// Writes a resource, which must exist.
    ResMut(TypeId),
    /// Reads a resource and is present only in cycles in which it changed.
    ChangedRes(TypeId),
    /// Reads a resource to see whether it changed, and is present either way.
    OptionalChangedRes(TypeId),
    /// Reads several resources and is present in cycles in which at least
    /// one of them changed.
    AnyChangedRes(Vec<TypeId>),
    /// Queues deferred commands; touches nothing while the unit runs.
    Commands,
}

/// What decides, cycle by cycle, whether a parameter is present.
pub enum ParamGate {
    /// Present in every cycle.
    Always,
    /// Present when the resource changed.
    Changed(TypeId),
    /// Present when one of the resources changed.
    AnyChanged(Vec<TypeId>),
}

impl ParamGate {
    /// Whether the parameter is present in a cycle in which the resources
    /// `changed` have changed since the unit last saw them.
    pub open spec fn open(self, changed: Seq<TypeId>) -> bool {
        match self {
            ParamGate::Always => true,
            ParamGate::Changed(id) => changed.contains(id),
            ParamGate::AnyChanged(ids) => exists|i: int|
                0 <= i < ids@.len() && changed.contains(#[trigger] ids@[i]),
        }
    }

    /// Whether the parameter is present, given the resources that changed.
    pub fn is_open(&self, changed: &Vec<TypeId>) -> (r: bool)
        ensures
            r == self.open(changed@),
    {
        match self {
            ParamGate::Always => true,
            ParamGate::Changed(id) => contains_key(changed, id),
            ParamGate::AnyChanged(ids) => any_changed(ids, changed),
        }
    }
}

/// Whether one of the resources `ids` is among those that changed.
fn any_changed(ids: &Vec<TypeId>, changed: &Vec<TypeId>) -> (r: bool)
    ensures
        r == exists|i: int| 0 <= i < ids@.len() && changed@.contains(#[trigger] ids@[i]),
{
    let mut i: usize = 0;
    while i < ids.len()
        invariant
            i <= ids.len(),
            forall|j: int| 0 <= j < i ==> !changed@.contains(#[trigger] ids@[j]),
        decreases ids.len() - i,
    {
        if contains_key(changed, &ids[i]) {
            return true;
        }
        i += 1;
    }
    false
}

/// Whether every gate is open: the body of a unit runs only then.
pub open spec fn gates_open(gates: Seq<ParamGate>, changed: Seq<TypeId>) -> bool {
    forall|i: int| 0 <= i < gates.len() ==> (#[trigger] gates[i]).open(changed)
}

impl SystemParam {
    /// What decides whether the parameter is present.
    pub open spec fn gate(self) -> ParamGate {
        match self {
            SystemParam::ChangedRes(id) => ParamGate::Changed(id),
            SystemParam::AnyChangedRes(ids) => ParamGate::AnyChanged(ids),
            _ => ParamGate::Always,
        }
    }

    /// The resource without which the parameter cannot be initialized.
    pub open spec fn required(self) -> Option<TypeId> {
        match self {
            SystemParam::Res(id) => Some(id),
            SystemParam::ResMut(id) => Some(id),
            _ => None,
        }
    }
}

/// The query slots that the parameters declare, in declaration order.
pub open spec fn declared_slots(params: Seq<SystemParam>) -> Seq<Vec<QueryAccess>>
    decreases params.len(),
{
    if params.len() == 0 {
        Seq::empty()
    } else {
        match params[0] {
            SystemParam::Query(_, accesses) => seq![accesses] + declared_slots(params.skip(1)),
            _ => declared_slots(params.skip(1)),
        }
    }
}

/// The declared type names of those slots.
pub open spec fn declared_names(params: Seq<SystemParam>) -> Seq<&'static str>
    decreases params.len(),
{
    if params.len() == 0 {
        Seq::empty()
    } else {
        match params[0] {
            SystemParam::Query(name, _) => seq![name] + declared_names(params.skip(1)),
            _ => declared_names(params.skip(1)),
        }
    }
}

/// The resources that the parameters read.
pub open spec fn declared_reads(params: Seq<SystemParam>) -> Set<TypeId>
    decreases params.len(),
{
    if params.len() == 0 {
        Set::empty()
    } else {
        match params[0] {
            SystemParam::Res(id) => declared_reads(params.skip(1)).insert(id),
            SystemParam::ChangedRes(id) => declared_reads(params.skip(1)).insert(id),
            SystemParam::OptionalChangedRes(id) => declared_reads(params.skip(1)).insert(id),
            SystemParam::AnyChangedRes(ids) => declared_reads(params.skip(1)).union(
                Set::new(|id: TypeId| ids@.contains(id)),
            ),
            _ => declared_reads(params.skip(1)),
        }
    }
}

/// The resources that the parameters write.
pub open spec fn declared_writes(params: Seq<SystemParam>) -> Set<TypeId>
    decreases params.len(),
{
    if params.len() == 0 {
        Set::empty()
    } else {
        match params[0] {
            SystemParam::ResMut(id) => declared_writes(params.skip(1)).insert(id),
            _ => declared_writes(params.skip(1)),
        }
    }
}

/// The gates of the parameters, in declaration order.
pub open spec fn declared_gates(params: Seq<SystemParam>) -> Seq<ParamGate> {
    Seq::new(params.len(), |i: int| params[i].gate())
}

/// Whether every gate is open, given the resources that changed.
pub fn all_present(gates: &Vec<ParamGate>, changed: &Vec<TypeId>) -> (r: bool)
    ensures
        r == gates_open(gates@, changed@),
{
    let mut i: usize = 0;
    while i < gates.len()
        invariant
            i <= gates.len(),
            forall|j: int| 0 <= j < i ==> (#[trigger] gates@[j]).open(changed@),
        decreases gates.len() - i,
    {
        if !gates[i].is_open(changed) {
            return false;
        }
        i += 1;
    }
    true
}

/// Records a read of every resource in `ids`.
fn add_reads(access: &mut TypeAccess<TypeId>, ids: &Vec<TypeId>)
    ensures
        final(access).reads() == old(access).reads().union(Set::new(|id: TypeId| ids@.contains(id))),
        final(access).writes() == old(access).writes(),
{
    let ghost before = *access;
    let mut i: usize = 0;
    while i < ids.len()
        invariant
            i <= ids.len(),
            access.writes() == before.writes(),
            forall|id: TypeId| #[trigger]
                access.reads().contains(id) <==> (before.reads().contains(id) || exists|j: int|
                    0 <= j < i && ids@[j] == id),
        decreases ids.len() - i,
    {
        access.add_read(ids[i]);
        i += 1;
    }
    assert(access.reads() =~= before.reads().union(Set::new(|id: TypeId| ids@.contains(id))));
}

/// What `initialize` reports when a parameter needs a resource that does not
/// exist.
#[derive(Clone, Copy, Debug, PartialEq, Eq)]
pub struct MissingResource {
    /// The position of the first parameter that cannot be initialized.
    pub param_index: usize,
    /// The resource it needs.
    pub resource: TypeId,
}

/// Every parameter before `m` finds the resource it needs in `resources`.
pub open spec fn requirements_met(params: Seq<SystemParam>, resources: Seq<TypeId>, m: int) -> bool {
    forall|j: int|
        0 <= j < m && j < params.len() ==> ((#[trigger] params[j]).required() matches Some(id)
            ==> resources.contains(id))
}

/// The first parameter that needs a resource which `resources` lacks.
pub fn first_missing(params: &Vec<SystemParam>, resources: &Vec<TypeId>) -> (r: Option<
    MissingResource,
>)
    ensures
        r is None <==> requirements_met(params@, resources@, params@.len() as int),
        r matches Some(e) ==> e.param_index < params@.len()
            && params@[e.param_index as int].required() == Some(e.resource)
            && !resources@.contains(e.resource) && requirements_met(
            params@,
            resources@,
            e.param_index as int,
        ),
{
    let mut i: usize = 0;
    while i < params.len()
        invariant
            i <= params.len(),
            requirements_met(params@, resources@, i as int),
        decreases params.len() - i,
    {
        let needed = match &params[i] {
            SystemParam::Res(id) => Some(*id),
            SystemParam::ResMut(id) => Some(*id),
            _ => None,
        };
        if let Some(id) = needed {
            if !contains_key(resources, &id) {
                return Some(MissingResource { param_index: i, resource: id });
            }
        }
        i += 1;
    }
    None
}

/// What initializing the parameters `params` makes of the ledger `pre`: the
/// ledger `post`.
pub open spec fn initialized_from(post: &SystemState, pre: &SystemState, params: Seq<SystemParam>) -> bool {
    &&& post.wf()
    &&& post.is_initialized
    &&& post.query_accesses@ == pre.query_accesses@ + declared_slots(params)
    &&& post.query_type_names@ == pre.query_type_names@ + declared_names(params)
    &&& post.resource_access.reads() == pre.resource_access.reads().union(declared_reads(params))
    &&& post.resource_access.writes() == pre.resource_access.writes().union(
        declared_writes(params),
    )
    &&& forall|i: int|
        0 <= i < pre.query_archetype_component_accesses@.len()
            ==> #[trigger] post.query_archetype_component_accesses@[i]
            == pre.query_archetype_component_accesses@[i]
    &&& forall|i: int|
        pre.query_archetype_component_accesses@.len() <= i
            < post.query_archetype_component_accesses@.len() ==> (
        #[trigger] post.query_archetype_component_accesses@[i]).reads_and_writes() == Set::<
            ArchetypeComponent,
        >::empty()
    &&& post.id == pre.id
    &&& post.name == pre.name
    &&& post.archetype_component_access == pre.archetype_component_access
    &&& post.commands == pre.commands
    &&& post.arc_commands == pre.arc_commands
    &&& post.current_query_index == pre.current_query_index
}

/// A unit of work: its ledger and the parameters that are still to be
/// initialized.
pub struct FuncSystem {
    pub state: SystemState,
    /// The parameters that `initialize` has not seen yet, in declaration
    /// order.
    pub pending: Vec<SystemParam>,
    /// The gates of the initialized parameters, in declaration order.
    pub gates: Vec<ParamGate>,
}

/// What can be made into a unit of work.
pub trait IntoSystem<Params> {
    fn system(self) -> FuncSystem;
}

/// The description of a unit: its identity, its name and its parameters in
/// declaration order.
pub struct SystemDescriptor {
    pub id: SystemId,
    pub name: String,
    pub params: Vec<SystemParam>,
}

impl IntoSystem<Vec<SystemParam>> for SystemDescriptor {
    /// The unit before initialization: nothing is declared in its ledger yet.
    fn system(self) -> (unit: FuncSystem)
        ensures
            unit.state.wf(),
            unit.state.id == self.id,
            unit.state.name == self.name,
            !unit.state.is_initialized,
            unit.state.query_accesses@.len() == 0,
            unit.state.current_query_index == 0,
            unit.state.commands@ == Seq::<u64>::empty(),
            unit.state.arc_commands is None,
            unit.state.archetype_component_access.reads_and_writes() == Set::<
                ArchetypeComponent,
            >::empty(),
            unit.state.resource_access.reads_and_writes() == Set::<TypeId>::empty(),
            unit.pending == self.params,
            unit.gates@.len() == 0,
    {
        FuncSystem {
            state: SystemState::new(self.id, self.name),
            pending: self.params,
            gates: Vec::new(),
        }
    }
}

impl FuncSystem {
    /// The display name of the unit.
    pub fn name(&self) -> (r: String)
        ensures
            r@ == self.state.name@,
    {
        self.state.name.clone()
    }

    /// The identity of the unit.
    pub fn id(&self) -> (r: SystemId)
        ensures
            r == self.state.id,
    {
        self.state.id
    }

    /// What the query slots touch, as of the last `update`.
    pub fn archetype_component_access(&self) -> (r: &TypeAccess<ArchetypeComponent>)
        ensures
            *r == self.state.archetype_component_access,
    {
        &self.state.archetype_component_access
    }

    /// The resources the unit touches.
    pub fn resource_access(&self) -> (r: &TypeAccess<TypeId>)
        ensures
            *r == self.state.resource_access,
    {
        &self.state.resource_access
    }

    /// Deferred work of a unit is applied at the next flush.
    pub fn thread_local_execution(&self) -> (r: ThreadLocalExecution)
        ensures
            r == ThreadLocalExecution::NextFlush,
    {
        ThreadLocalExecution::NextFlush
    }

    /// Initializes the parameters in declaration order: each query parameter
    /// gets the next query slot, each resource parameter enters the resource
    /// ledger. Fails, and changes nothing, if a parameter needs a resource
    /// that `resources` does not hold.
    pub fn initialize(&mut self, resources: &Vec<TypeId>) -> (r: Result<(), MissingResource>)
        requires
            old(self).state.wf(),
        ensures
            r is Ok <==> requirements_met(
                old(self).pending@,
                resources@,
                old(self).pending@.len() as int,
            ),
            match r {
                Ok(_) => final(self).pending@.len() == 0 && initialized_from(
                    &final(self).state,
                    &old(self).state,
                    old(self).pending@,
                ) && final(self).gates@ == old(self).gates@ + declared_gates(old(self).pending@),
                Err(e) => *final(self) == *old(self) && e.param_index < old(self).pending@.len()
                    && old(self).pending@[e.param_index as int].required() == Some(e.resource)
                    && !resources@.contains(e.resource) && requirements_met(
                    old(self).pending@,
                    resources@,
                    e.param_index as int,
                ),
            },
    {
        if let Some(e) = first_missing(&self.pending, resources) {
            return Err(e);
        }
        let ghost pre = *self;
        while self.pending.len() > 0
            invariant
                self.state.wf(),
                pre.state.wf(),
                self.gates@ + declared_gates(self.pending@) == pre.gates@ + declared_gates(
                    pre.pending@,
                ),
                self.state.query_accesses@ + declared_slots(self.pending@)
                    == pre.state.query_accesses@ + declared_slots(pre.pending@),
                self.state.query_type_names@ + declared_names(self.pending@)
                    == pre.state.query_type_names@ + declared_names(pre.pending@),
                self.state.resource_access.reads().union(declared_reads(self.pending@))
                    == pre.state.resource_access.reads().union(declared_reads(pre.pending@)),
                self.state.resource_access.writes().union(declared_writes(self.pending@))
                    == pre.state.resource_access.writes().union(declared_writes(pre.pending@)),
                pre.state.query_archetype_component_accesses@.len()
                    <= self.state.query_archetype_component_accesses@.len(),
                forall|i: int|
                    0 <= i < pre.state.query_archetype_component_accesses@.len()
                        ==> #[trigger] self.state.query_archetype_component_accesses@[i]
                        == pre.state.query_archetype_component_accesses@[i],
                forall|i: int|
                    pre.state.query_archetype_component_accesses@.len() <= i
                        < self.state.query_archetype_component_accesses@.len() ==> (
                    #[trigger] self.state.query_archetype_component_accesses@[i]).reads_and_writes()
                        == Set::<ArchetypeComponent>::empty(),
                self.state.id == pre.state.id,
                self.state.name == pre.state.name,
                self.state.is_initialized == pre.state.is_initialized,
                self.state.archetype_component_access == pre.state.archetype_component_access,
                self.state.commands == pre.state.commands,
                self.state.arc_commands == pre.state.arc_commands,
                self.state.current_query_index == pre.state.current_query_index,
            decreases self.pending.len(),
        {
            let ghost before = self.pending@;
            let ghost state_before = self.state;
            let ghost gates_before = self.gates@;
            let param = self.pending.remove(0);
            assert(self.pending@ =~= before.skip(1));
            assert(param == before[0]);
            assert(declared_gates(before) =~= seq![param.gate()] + declared_gates(self.pending@));
            match param {
                SystemParam::Query(name, accesses) => {
                    self.gates.push(ParamGate::Always);
                    self.state.add_query(name, accesses);
                    assert(self.state.query_accesses@ + declared_slots(self.pending@)
                        =~= state_before.query_accesses@ + declared_slots(before));
                    assert(self.state.query_type_names@ + declared_names(self.pending@)
                        =~= state_before.query_type_names@ + declared_names(before));
                },
                SystemParam::Res(id) => {
                    self.gates.push(ParamGate::Always);
                    self.state.resource_access.add_read(id);
                    assert(self.state.resource_access.reads().union(declared_reads(self.pending@))
                        =~= state_before.resource_access.reads().union(declared_reads(before)));
                },
                SystemParam::ResMut(id) => {
                    self.gates.push(ParamGate::Always);
                    self.state.resource_access.add_write(id);
                    assert(self.state.resource_access.writes().union(
                        declared_writes(self.pending@),
                    ) =~= state_before.resource_access.writes().union(declared_writes(before)));
                },
                SystemParam::ChangedRes(id) => {
                    self.gates.push(ParamGate::Changed(id));
                    self.state.resource_access.add_read(id);
                    assert(self.state.resource_access.reads().union(declared_reads(self.pending@))
                        =~= state_before.resource_access.reads().union(declared_reads(before)));
                },
                SystemParam::OptionalChangedRes(id) => {
                    self.gates.push(ParamGate::Always);
                    self.state.resource_access.add_read(id);
                    assert(self.state.resource_access.reads().union(declared_reads(self.pending@))
                        =~= state_before.resource_access.reads().union(declared_reads(before)));
                },
                SystemParam::AnyChangedRes(ids) => {
                    add_reads(&mut self.state.resource_access, &ids);
                    assert(self.state.resource_access.reads().union(declared_reads(self.pending@))
                        =~= state_before.resource_access.reads().union(declared_reads(before)));
                    self.gates.push(ParamGate::AnyChanged(ids));
                },
                SystemParam::Commands => {
                    self.gates.push(ParamGate::Always);
                },
            }
            assert(self.gates@ + declared_gates(self.pending@) =~= gates_before + declared_gates(
                before,
            ));
        }
        self.state.is_initialized = true;
        proof {
            assert(self.gates@ =~= self.gates@ + declared_gates(self.pending@));
            assert(self.state.query_accesses@ =~= self.state.query_accesses@ + declared_slots(
                self.pending@,
            ));
            assert(self.state.query_type_names@ =~= self.state.query_type_names@ + declared_names(
                self.pending@,
            ));
            assert(self.state.resource_access.reads() =~= self.state.resource_access.reads().union(
                declared_reads(self.pending@),
            ));
            assert(self.state.resource_access.writes()
                =~= self.state.resource_access.writes().union(declared_writes(self.pending@)));
        }
        Ok(())
    }

    /// Whether `initialize` has succeeded.
    pub fn is_initialized(&self) -> (r: bool)
        ensures
            r == self.state.is_initialized,
    {
        self.state.is_initialized
    }

    /// Resolves and checks the query slots against `world`.
    pub fn update(&mut self, world: &World) -> (r: Result<(), QueryConflict>)
        requires
            old(self).state.wf(),
        ensures
            final(self).state.updated_from(&old(self).state, world, r),
            final(self).pending == old(self).pending,
            final(self).gates == old(self).gates,
    {
        self.state.update(world)
    }

    /// One cycle up to the body of the unit: resets the slot cursor, resolves
    /// and checks the query slots, and says whether the body is to run. It
    /// runs only if no slot clashes and every parameter is present, given the
    /// resources `changed` that changed since the unit last saw them.
    pub fn run(&mut self, world: &World, changed: &Vec<TypeId>) -> (r: Result<bool, QueryConflict>)
        requires
            old(self).state.wf(),
        ensures
            final(self).pending == old(self).pending,
            final(self).gates == old(self).gates,
            match r {
                Ok(invoke) => {
                    &&& invoke == gates_open(old(self).gates@, changed@)
                    &&& final(self).state.updated_from(
                        &old(self).state.cursor_reset(),
                        world,
                        Ok(()),
                    )
                },
                Err(e) => final(self).state.updated_from(
                    &old(self).state.cursor_reset(),
                    world,
                    Err(e),
                ),
            },
    {
        self.state.reset_indices();
        match self.state.update(world) {
            Ok(_) => Ok(all_present(&self.gates, changed)),
            Err(e) => Err(e),
        }
    }

    /// The flush: takes out the unit's own queued commands and, if there is
    /// a shared queue, what that holds, in the order in which they are to be
    /// applied to the store. The shared queue stays with the unit.
    pub fn run_thread_local(&mut self) -> (commands: Vec<u64>)
        ensures
            final(self).state.commands@ == Seq::<u64>::empty(),
            old(self).state.commands@.is_prefix_of(commands@),
            old(self).state.arc_commands is None ==> commands@ == old(self).state.commands@,
            final(self).pending == old(self).pending,
            final(self).gates == old(self).gates,
            final(self).state.same_ledgers(&old(self).state),
    {
        let own = self.state.commands.take();
        let shared = match &self.state.arc_commands {
            Some(queue) => Some(drain_shared(queue)),
            None => None,
        };
        flush_order(own, shared)
    }
}

} // verus!
