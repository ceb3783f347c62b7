use std::any::TypeId;

use bevy_hecs::World;
use system_ledger::access::{ArchetypeComponent, TypeAccess};
use system_ledger::query::QueryAccess;
use system_ledger::state::{SystemId, SystemState};
use system_ledger::system::{
    FuncSystem, IntoSystem, SystemDescriptor, SystemParam, ThreadLocalExecution,
};

#[derive(Debug, Eq, PartialEq)]
struct A;
struct B;
struct C;
struct D;

fn a() -> TypeId {
    TypeId::of::<A>()
}

fn b() -> TypeId {
    TypeId::of::<B>()
}

fn c() -> TypeId {
    TypeId::of::<C>()
}

fn d() -> TypeId {
    TypeId::of::<D>()
}

fn number() -> TypeId {
    TypeId::of::<i32>()
}

fn res_bool() -> TypeId {
    TypeId::of::<bool>()
}

fn res_i32() -> TypeId {
    TypeId::of::<i32>()
}

/// The key of `component` in the archetype of the entities spawned as the
/// `spawned`-th distinct bundle: the store keeps the archetype without
/// components in front of them.
fn key(spawned: u32, component: TypeId) -> ArchetypeComponent {
    ArchetypeComponent::new(spawned + 1, component)
}

fn unit(name: &str, params: Vec<SystemParam>) -> FuncSystem {
    SystemDescriptor { id: SystemId(7), name: name.to_string(), params }.system()
}

/// Initializes the unit and runs its first cycle, in which every resource
/// counts as changed; a conflict panics, as a scheduler would.
fn run_system(world: &World, resources: &Vec<TypeId>, system: &mut FuncSystem) -> bool {
    assert!(system.initialize(resources).is_ok());
    match system.run(world, resources) {
        Ok(invoke) => invoke,
        Err(e) => panic!(
            "System {} has conflicting queries. {} conflicts with the component access [{}] in this prior query: {}",
            e.system_name,
            e.query_type_name,
            e.component_name.unwrap_or("Unknown"),
            e.prior_query_type_name.unwrap_or("Unknown")
        ),
    }
}

#[test]
fn query_system_gets() {
    let world = {
        let mut world = World::default();
        world.spawn((A,));
        world.spawn((A, B,));
        world.spawn((A, C,));
        world.spawn((A, D,));
        world
    };
    let resources = vec![res_bool()];
    let mut system = unit(
        "query_system",
        vec![
            SystemParam::ResMut(res_bool()),
            SystemParam::Query("Query<Entity, With<A>>", vec![QueryAccess::With(a())]),
            SystemParam::Query("Query<&B>", vec![QueryAccess::Read(b(), "B")]),
            SystemParam::Query(
                "Query<(&A, &C)>",
                vec![QueryAccess::And(vec![QueryAccess::Read(a(), "A"), QueryAccess::Read(c(), "C")])],
            ),
            SystemParam::Query("Query<&D>", vec![QueryAccess::Read(d(), "D")]),
        ],
    );
    let ran = run_system(&world, &resources, &mut system);

    let slots = &system.state.query_archetype_component_accesses;
    let b_query = &slots[1];
    let a_c_query = &slots[2];
    let d_query = &slots[3];
    assert!(!b_query.is_read_or_write(&key(0, b())), "entity 0 should not have B");
    assert!(b_query.is_read_or_write(&key(1, b())), "entity 1 should have B");
    assert!(
        !b_query.is_read_or_write(&key(1, a())),
        "entity 1 should have A, but b_query shouldn't have access to it"
    );
    assert!(
        !b_query.is_read_or_write(&key(3, d())),
        "entity 3 should have D, but it shouldn't be accessible from b_query"
    );
    assert!(
        !b_query.is_read_or_write(&key(2, c())),
        "entity 2 has C, but it shouldn't be accessible from b_query"
    );
    assert!(
        a_c_query.is_read_or_write(&key(2, c())),
        "entity 2 has C, and it should be accessible from a_c_query"
    );
    assert!(
        !a_c_query.is_read_or_write(&key(3, d())),
        "entity 3 should have D, but it shouldn't be accessible from b_query"
    );
    assert!(d_query.is_read_or_write(&key(3, d())), "entity 3 should have D");

    assert!(ran, "system ran");
}

#[test]
fn or_query_set_system() {
    let world = {
        let mut world = World::default();
        world.spawn((A, B,));
        world
    };
    let resources = vec![res_bool()];
    let mut system = unit(
        "query_system",
        vec![
            SystemParam::ResMut(res_bool()),
            SystemParam::Query(
                "QuerySet",
                vec![
                    QueryAccess::Or(vec![
                        QueryAccess::Changed(a(), "A"),
                        QueryAccess::Changed(b(), "B"),
                    ]),
                    QueryAccess::Or(vec![QueryAccess::Added(a(), "A"), QueryAccess::Added(b(), "B")]),
                    QueryAccess::Or(vec![
                        QueryAccess::Mutated(a(), "A"),
                        QueryAccess::Mutated(b(), "B"),
                    ]),
                ],
            ),
        ],
    );
    let ran = run_system(&world, &resources, &mut system);
    let set = &system.state.query_archetype_component_accesses[0];
    assert!(set.is_read(&key(0, a())));
    assert!(set.is_read(&key(0, b())));
    assert!(!set.is_write(&key(0, a())));
    assert!(ran, "system ran");
}

#[test]
fn changed_resource_system() {
    let world = {
        let mut world = World::default();
        world.spawn((0i32,));
        world
    };
    let resources = vec![res_bool()];
    let mut system = unit(
        "incr_e_on_flip",
        vec![
            SystemParam::ChangedRes(res_bool()),
            SystemParam::Query("Query<&mut i32>", vec![QueryAccess::Write(number(), "i32")]),
        ],
    );
    assert!(system.initialize(&resources).is_ok());
    let mut ent = 0;

    // the resource was just inserted: it counts as changed
    if system.run(&world, &vec![res_bool()]).unwrap() {
        ent += 1;
    }
    assert_eq!(ent, 1);

    if system.run(&world, &vec![]).unwrap() {
        ent += 1;
    }
    assert_eq!(ent, 1);

    if system.run(&world, &vec![res_bool()]).unwrap() {
        ent += 1;
    }
    assert_eq!(ent, 2);
}

#[test]
fn changed_resource_or_system() {
    let world = {
        let mut world = World::default();
        world.spawn((0i32,));
        world
    };
    let resources = vec![res_bool(), res_i32()];
    let mut system = unit(
        "incr_e_on_flip",
        vec![
            SystemParam::AnyChangedRes(vec![res_bool(), res_i32()]),
            SystemParam::Query("Query<&mut i32>", vec![QueryAccess::Write(number(), "i32")]),
        ],
    );
    assert!(system.initialize(&resources).is_ok());
    assert!(system.resource_access().is_read(&res_bool()));
    assert!(system.resource_access().is_read(&res_i32()));
    assert!(!system.resource_access().is_write(&res_i32()));
    let mut ent = 0;

    // both resources were just inserted
    if system.run(&world, &vec![res_bool(), res_i32()]).unwrap() {
        ent += 1;
    }
    assert_eq!(ent, 1);

    if system.run(&world, &vec![]).unwrap() {
        ent += 1;
    }
    assert_eq!(ent, 1);

    if system.run(&world, &vec![res_bool()]).unwrap() {
        ent += 1;
    }
    assert_eq!(ent, 2);

    if system.run(&world, &vec![]).unwrap() {
        ent += 1;
    }
    assert_eq!(ent, 2);

    if system.run(&world, &vec![res_i32()]).unwrap() {
        ent += 1;
    }
    assert_eq!(ent, 3);
}

#[test]
#[should_panic]
fn conflicting_query_mut_system() {
    let world = {
        let mut world = World::default();
        world.spawn((A,));
        world
    };
    let mut system = unit(
        "sys",
        vec![
            SystemParam::Query("Query<&mut A>", vec![QueryAccess::Write(a(), "A")]),
            SystemParam::Query("Query<&mut A>", vec![QueryAccess::Write(a(), "A")]),
        ],
    );
    run_system(&world, &vec![], &mut system);
}

#[test]
#[should_panic]
fn conflicting_query_immut_system() {
    let world = {
        let mut world = World::default();
        world.spawn((A,));
        world
    };
    let mut system = unit(
        "sys",
        vec![
            SystemParam::Query("Query<&A>", vec![QueryAccess::Read(a(), "A")]),
            SystemParam::Query("Query<&mut A>", vec![QueryAccess::Write(a(), "A")]),
        ],
    );
    run_system(&world, &vec![], &mut system);
}

#[test]
fn query_set_system() {
    let world = {
        let mut world = World::default();
        world.spawn((A,));
        world
    };
    let mut system = unit(
        "sys",
        vec![SystemParam::Query(
            "QuerySet<(Query<&mut A>, Query<&B>)>",
            vec![QueryAccess::Write(a(), "A"), QueryAccess::Read(b(), "B")],
        )],
    );
    run_system(&world, &vec![], &mut system);
}

#[test]
#[should_panic]
fn conflicting_query_with_query_set_system() {
    let world = {
        let mut world = World::default();
        world.spawn((A,));
        world
    };
    let mut system = unit(
        "sys",
        vec![
            SystemParam::Query("Query<&mut A>", vec![QueryAccess::Write(a(), "A")]),
            SystemParam::Query(
                "QuerySet<(Query<&mut A>, Query<&B>)>",
                vec![QueryAccess::Write(a(), "A"), QueryAccess::Read(b(), "B")],
            ),
        ],
    );
    run_system(&world, &vec![], &mut system);
}

#[test]
#[should_panic]
fn conflicting_query_sets_system() {
    let world = {
        let mut world = World::default();
        world.spawn((A,));
        world
    };
    let mut system = unit(
        "sys",
        vec![
            SystemParam::Query("QuerySet<(Query<&mut A>,)>", vec![QueryAccess::Write(a(), "A")]),
            SystemParam::Query(
                "QuerySet<(Query<&mut A>, Query<&B>)>",
                vec![QueryAccess::Write(a(), "A"), QueryAccess::Read(b(), "B")],
            ),
        ],
    );
    run_system(&world, &vec![], &mut system);
}

#[test]
fn conflict_names_both_queries_and_the_component() {
    let world = {
        let mut world = World::default();
        world.spawn((B,));
        world.spawn((A, B,));
        world
    };
    let mut state = SystemState::new(SystemId(3), "movement".to_string());
    state.add_query("Query<&B>", vec![QueryAccess::Read(b(), "B")]);
    state.add_query("Query<&A>", vec![QueryAccess::Read(a(), "A")]);
    state.add_query("Query<&mut A>", vec![QueryAccess::Write(a(), "A")]);
    state.add_query("Query<&D>", vec![QueryAccess::Read(d(), "D")]);
    let e = state.update(&world).unwrap_err();
    assert_eq!(e.system_name, "movement");
    assert_eq!(e.query_index, 2);
    assert_eq!(e.query_type_name, "Query<&mut A>");
    assert_eq!(e.component_name, Some("A"));
    assert_eq!(e.prior_query_index, Some(1));
    assert_eq!(e.prior_query_type_name, Some("Query<&A>"));
    // the aggregate holds the slots before the clash, and nothing of it
    assert!(state.archetype_component_access.is_read(&key(0, b())));
    assert!(state.archetype_component_access.is_read(&key(1, a())));
    assert!(!state.archetype_component_access.is_write(&key(1, a())));
    // the clashing slot itself was resolved
    assert!(state.query_archetype_component_accesses[2].is_write(&key(1, a())));
    // the slots behind it were not
    assert!(!state.query_archetype_component_accesses[3].is_read(&key(1, d())));
}

#[test]
fn first_clashing_prior_slot_is_named() {
    let world = {
        let mut world = World::default();
        world.spawn((A,));
        world
    };
    let mut state = SystemState::new(SystemId(3), "s".to_string());
    state.add_query("first", vec![QueryAccess::Read(a(), "A")]);
    state.add_query("second", vec![QueryAccess::Read(a(), "A")]);
    state.add_query("third", vec![QueryAccess::Write(a(), "A")]);
    let e = state.update(&world).unwrap_err();
    assert_eq!(e.query_index, 2);
    assert_eq!(e.prior_query_index, Some(0));
    assert_eq!(e.prior_query_type_name, Some("first"));
}

#[test]
fn component_name_comes_from_the_clashing_slot() {
    let world = {
        let mut world = World::default();
        world.spawn((A, B,));
        world
    };
    let mut state = SystemState::new(SystemId(3), "s".to_string());
    state.add_query("first", vec![QueryAccess::Write(a(), "A")]);
    state.add_query(
        "second",
        vec![
            QueryAccess::With(a()),
            QueryAccess::And(vec![QueryAccess::Read(b(), "B"), QueryAccess::Write(a(), "alias")]),
            QueryAccess::Write(a(), "later"),
        ],
    );
    let e = state.update(&world).unwrap_err();
    assert_eq!(e.component_name, Some("alias"));
}

#[test]
fn immutable_queries_do_not_conflict() {
    let world = {
        let mut world = World::default();
        world.spawn((A,));
        world
    };
    let mut system = unit(
        "sys",
        vec![
            SystemParam::Query("Query<&A>", vec![QueryAccess::Read(a(), "A")]),
            SystemParam::Query("Query<&A>", vec![QueryAccess::Read(a(), "A")]),
        ],
    );
    assert!(run_system(&world, &vec![], &mut system));
}

#[test]
fn no_conflict_when_no_archetype_holds_the_component() {
    let world = {
        let mut world = World::default();
        world.spawn((B,));
        world
    };
    let mut system = unit(
        "sys",
        vec![
            SystemParam::Query("Query<&mut A>", vec![QueryAccess::Write(a(), "A")]),
            SystemParam::Query("Query<&mut A>", vec![QueryAccess::Write(a(), "A")]),
        ],
    );
    assert!(run_system(&world, &vec![], &mut system));
}

#[test]
fn update_twice_gives_the_same_access() {
    let world = {
        let mut world = World::default();
        world.spawn((A,));
        world.spawn((A, B,));
        world.spawn((C,));
        world
    };
    let mut state = SystemState::new(SystemId(1), "s".to_string());
    state.add_query("q0", vec![QueryAccess::Write(a(), "A")]);
    state.add_query("q1", vec![QueryAccess::Read(b(), "B"), QueryAccess::Read(c(), "C")]);
    assert!(state.update(&world).is_ok());
    let keys = vec![key(0, a()), key(1, a()), key(1, b()), key(2, c()), key(0, b()), key(2, a())];
    let first: Vec<(bool, bool)> = keys
        .iter()
        .map(|k| (state.archetype_component_access.is_read(k), state.archetype_component_access.is_write(k)))
        .collect();
    assert_eq!(
        first,
        vec![(false, true), (false, true), (true, false), (true, false), (false, false), (false, false)]
    );
    assert!(state.update(&world).is_ok());
    let second: Vec<(bool, bool)> = keys
        .iter()
        .map(|k| (state.archetype_component_access.is_read(k), state.archetype_component_access.is_write(k)))
        .collect();
    assert_eq!(first, second);
}

#[test]
fn update_picks_up_new_archetypes() {
    let mut world = {
        let mut world = World::default();
        world.spawn((B,));
        world
    };
    let mut state = SystemState::new(SystemId(1), "s".to_string());
    state.add_query("q0", vec![QueryAccess::Read(a(), "A")]);
    assert!(state.update(&world).is_ok());
    assert!(!state.archetype_component_access.is_read(&key(1, a())));
    world.spawn((A,));
    assert_eq!(world.archetypes().len(), 3);
    assert!(state.update(&world).is_ok());
    assert!(state.archetype_component_access.is_read(&key(1, a())));
}

#[test]
fn lifecycle_and_getters() {
    let mut system = unit(
        "named",
        vec![SystemParam::Res(res_bool()), SystemParam::ResMut(res_i32()), SystemParam::Commands],
    );
    assert_eq!(system.name(), "named");
    assert_eq!(system.id(), SystemId(7));
    assert!(!system.is_initialized());
    assert_eq!(system.thread_local_execution(), ThreadLocalExecution::NextFlush);
    assert!(system.initialize(&vec![res_i32(), res_bool()]).is_ok());
    assert!(system.is_initialized());
    assert!(system.resource_access().is_read(&res_bool()));
    assert!(!system.resource_access().is_write(&res_bool()));
    assert!(system.resource_access().is_write(&res_i32()));
    assert!(!system.resource_access().is_read(&res_i32()));
    let world = World::default();
    assert!(system.update(&world).is_ok());
    assert!(!system.archetype_component_access().is_read_or_write(&key(0, a())));
    system.state.current_query_index = 3;
    assert_eq!(system.run(&world, &vec![]).unwrap(), true);
    assert_eq!(system.state.current_query_index, 0);
}

#[test]
fn body_is_skipped_when_any_parameter_is_absent() {
    let world = World::default();
    let mut system = unit(
        "s",
        vec![
            SystemParam::ChangedRes(res_bool()),
            SystemParam::Commands,
            SystemParam::OptionalChangedRes(TypeId::of::<u8>()),
            SystemParam::ChangedRes(res_i32()),
        ],
    );
    assert!(system.initialize(&vec![]).is_ok());
    assert_eq!(system.gates.len(), 4);
    assert_eq!(system.pending.len(), 0);
    assert_eq!(system.run(&world, &vec![res_i32(), res_bool()]).unwrap(), true);
    assert_eq!(system.run(&world, &vec![res_bool()]).unwrap(), false);
    assert_eq!(system.run(&world, &vec![res_i32(), TypeId::of::<u8>()]).unwrap(), false);
    assert_eq!(system.run(&world, &vec![]).unwrap(), false);
}

#[test]
fn missing_required_resource_fails_initialization() {
    let mut system = unit(
        "s",
        vec![
            SystemParam::ChangedRes(TypeId::of::<u8>()),
            SystemParam::Res(res_bool()),
            SystemParam::ResMut(res_i32()),
            SystemParam::Res(TypeId::of::<u16>()),
        ],
    );
    let e = system.initialize(&vec![res_bool()]).unwrap_err();
    assert_eq!(e.param_index, 2);
    assert_eq!(e.resource, res_i32());
    assert!(!system.is_initialized());
    assert_eq!(system.pending.len(), 4);
    assert!(!system.resource_access().is_read(&res_bool()));
}

#[test]
fn type_access_membership_and_compatibility() {
    let mut a: TypeAccess<u64> = TypeAccess::new();
    let mut b: TypeAccess<u64> = TypeAccess::new();
    assert!(a.is_compatible(&b));
    a.add_read(1);
    a.add_read(1);
    b.add_read(1);
    assert!(a.is_compatible(&b), "read and read");
    assert_eq!(a.get_conflict(&b), None);
    b.add_write(2);
    assert!(a.is_compatible(&b));
    a.add_read(2);
    assert!(!a.is_compatible(&b), "read and write");
    assert!(!b.is_compatible(&a), "write and read");
    assert_eq!(a.get_conflict(&b), Some(2));
    assert_eq!(b.get_conflict(&a), Some(2));
    let mut c: TypeAccess<u64> = TypeAccess::new();
    c.add_write(3);
    let mut d: TypeAccess<u64> = TypeAccess::new();
    d.add_write(3);
    assert!(!c.is_compatible(&d), "write and write");
    assert_eq!(c.get_conflict(&d), Some(3));
    c.union(&a);
    assert!(c.is_read(&1) && c.is_read(&2) && c.is_write(&3));
    assert!(!c.is_write(&1) && !c.is_read(&3));
    assert!(c.is_read_or_write(&3) && !c.is_read_or_write(&4));
    c.clear();
    assert!(!c.is_read_or_write(&1) && !c.is_read_or_write(&3));
    assert!(c.is_compatible(&d));
}
