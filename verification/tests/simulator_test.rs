use hexedit::actions::maths::Add;
use hexedit::hex_pattern::{HexAbsoluteDir, HexDir, HexPattern};
use hexedit::simulator::{
    ActionError, EntityType, Iota, IotaEntity, StackHolder, StackManager, StackState, VectorIota,
};

#[test]
fn adding() {
    let stack = StackState::new(
        vec![
            Iota::Double(Some(13.0f64.to_bits())),
            Iota::Double(Some(8.5f64.to_bits())),
        ],
        None,
    );
    let stack_holder = StackHolder::single_state(stack);
    let mut stack_manager = StackManager::new(stack_holder);

    stack_manager.apply_action(&Add);

    assert_eq!(stack_manager.holder.0.len(), 1);
    match &stack_manager.holder.0[0] {
        Ok(state) => {
            assert_eq!(state.stack.len(), 1);
            match &state.stack[0] {
                Iota::Double(Some(bits)) => assert_eq!(*bits, 21.5f64.to_bits()),
                other => panic!("expected a known double, got {:?}", other),
            }
            assert!(state.ravenmind.is_none());
        }
        Err(e) => panic!("branch faulted with {:?}", e),
    }
}

#[test]
fn adding_keeps_lower_stack_and_ravenmind() {
    let stack = StackState::new(
        vec![
            Iota::Widget,
            Iota::Double(Some(1.0f64.to_bits())),
            Iota::Double(Some(2.0f64.to_bits())),
        ],
        Some(Iota::Double(Some(7.0f64.to_bits()))),
    );
    let mut manager = StackManager::new(StackHolder::single_state(stack));
    manager.apply_action(&Add);
    assert_eq!(manager.holder.0.len(), 1);
    match &manager.holder.0[0] {
        Ok(state) => {
            assert_eq!(state.stack.len(), 2);
            assert_eq!(state.stack[0], Iota::Widget);
            assert_eq!(state.stack[1], Iota::Double(Some(3.0f64.to_bits())));
            assert_eq!(state.ravenmind, Some(Iota::Double(Some(7.0f64.to_bits()))));
        }
        Err(e) => panic!("branch faulted with {:?}", e),
    }
}

#[test]
fn adding_unknown_double_collapses() {
    let stack = StackState::new(
        vec![Iota::Double(Some(4.0f64.to_bits())), Iota::Double(None)],
        None,
    );
    let mut manager = StackManager::new(StackHolder::single_state(stack));
    manager.apply_action(&Add);
    assert_eq!(manager.holder.0.len(), 1);
    assert_eq!(
        manager.holder.0[0].as_ref().unwrap().stack,
        vec![Iota::Double(None)]
    );

    let stack = StackState::new(
        vec![Iota::Double(None), Iota::Double(Some(4.0f64.to_bits()))],
        None,
    );
    let mut manager = StackManager::new(StackHolder::single_state(stack));
    manager.apply_action(&Add);
    assert_eq!(
        manager.holder.0[0].as_ref().unwrap().stack,
        vec![Iota::Double(None)]
    );
}

#[test]
fn adding_double_and_vector_commutes() {
    let d = 5.0f64.to_bits();
    let v = VectorIota::Known(1.0f64.to_bits(), 2.0f64.to_bits(), 3.0f64.to_bits());
    let expected = Iota::Vector(VectorIota::Known(
        6.0f64.to_bits(),
        7.0f64.to_bits(),
        8.0f64.to_bits(),
    ));

    let mut left = StackManager::new(StackHolder::single_state(StackState::new(
        vec![Iota::Double(Some(d)), Iota::Vector(v)],
        None,
    )));
    left.apply_action(&Add);
    assert_eq!(left.holder.0[0].as_ref().unwrap().stack, vec![expected.duplicate()]);

    let mut right = StackManager::new(StackHolder::single_state(StackState::new(
        vec![Iota::Vector(v), Iota::Double(Some(d))],
        None,
    )));
    right.apply_action(&Add);
    assert_eq!(right.holder.0[0].as_ref().unwrap().stack, vec![expected]);
}

#[test]
fn adding_vector_to_unknown_double_loses_range_guarantee() {
    let v = VectorIota::Known(1.0f64.to_bits(), 2.0f64.to_bits(), 3.0f64.to_bits());
    let mut manager = StackManager::new(StackHolder::single_state(StackState::new(
        vec![Iota::Vector(v), Iota::Double(None)],
        None,
    )));
    manager.apply_action(&Add);
    assert_eq!(
        manager.holder.0[0].as_ref().unwrap().stack,
        vec![Iota::Vector(VectorIota::Unknown(false))]
    );
}

#[test]
fn adding_pattern_is_invalid_type() {
    let pattern = HexPattern::hex_pattern(HexAbsoluteDir::East, vec![HexDir::W]).unwrap();
    let stack = StackState::new(
        vec![Iota::Pattern(pattern), Iota::Double(Some(1.0f64.to_bits()))],
        None,
    );
    let mut manager = StackManager::new(StackHolder::single_state(stack));
    manager.apply_action(&Add);
    assert_eq!(manager.holder.0.len(), 1);
    assert_eq!(manager.holder.0[0], Err(ActionError::InvalidType));
}

#[test]
fn too_small_stack_faults() {
    let stack = StackState::new(vec![Iota::Double(Some(13.0f64.to_bits()))], None);
    let mut manager = StackManager::new(StackHolder::single_state(stack));
    manager.apply_action(&Add);
    assert_eq!(manager.holder.0.len(), 1);
    assert_eq!(manager.holder.0[0], Err(ActionError::StackTooSmall));
}

#[test]
fn faulted_branches_are_kept() {
    let empty = StackState::new(vec![], None);
    let mut manager = StackManager::new(StackHolder::single_state(empty));
    manager.apply_action(&Add);
    assert_eq!(manager.holder.0[0], Err(ActionError::StackTooSmall));
    manager.apply_action(&Add);
    assert_eq!(manager.holder.0.len(), 1);
    assert_eq!(manager.holder.0[0], Err(ActionError::StackTooSmall));
}

#[test]
fn adding_two_known_vectors_is_component_wise() {
    let a = VectorIota::Known(1.0f64.to_bits(), 2.0f64.to_bits(), 3.0f64.to_bits());
    let b = VectorIota::Known(10.0f64.to_bits(), 20.0f64.to_bits(), 30.0f64.to_bits());
    let mut manager = StackManager::new(StackHolder::single_state(StackState::new(
        vec![Iota::Vector(a), Iota::Vector(b)],
        None,
    )));
    manager.apply_action(&Add);
    assert_eq!(
        manager.holder.0[0].as_ref().unwrap().stack,
        vec![Iota::Vector(VectorIota::Known(
            11.0f64.to_bits(),
            22.0f64.to_bits(),
            33.0f64.to_bits()
        ))]
    );
}

#[test]
fn adding_known_and_unknown_vector_drops_range_guarantee() {
    let a = VectorIota::Known(1.0f64.to_bits(), 2.0f64.to_bits(), 3.0f64.to_bits());
    let mut manager = StackManager::new(StackHolder::single_state(StackState::new(
        vec![Iota::Vector(a), Iota::Vector(VectorIota::Unknown(true))],
        None,
    )));
    manager.apply_action(&Add);
    assert_eq!(
        manager.holder.0[0].as_ref().unwrap().stack,
        vec![Iota::Vector(VectorIota::Unknown(false))]
    );
}

#[test]
fn unknown_left_vector_passes_through_unchanged() {
    let mut manager = StackManager::new(StackHolder::single_state(StackState::new(
        vec![Iota::Vector(VectorIota::Unknown(true)), Iota::Widget],
        None,
    )));
    manager.apply_action(&Add);
    assert_eq!(
        manager.holder.0[0].as_ref().unwrap().stack,
        vec![Iota::Vector(VectorIota::Unknown(true))]
    );
}

#[test]
fn builder_sets_name_uuid_and_range() {
    let entity = IotaEntity::new("skeleton")
        .name("wither")
        .uuid("1234")
        .set_guaranteed_in_range(false)
        .build();
    assert_eq!(entity.name.as_str(), "wither");
    assert_eq!(entity.uuid.as_str(), "1234");
    assert!(!entity.guaranteed_in_range);

    let defaulted = IotaEntity::new("cow").build();
    assert_eq!(entity.guaranteed_types, defaulted.guaranteed_types);
    assert_eq!(defaulted.name.as_str(), "cow");
    assert_eq!(defaulted.uuid.as_str(), "cow");
    assert!(defaulted.guaranteed_in_range);
    assert!(defaulted.possible_types.animal && defaulted.possible_types.item);
}

#[test]
fn entity_type_exclusive_commutativity() {
    let entity_types = [
        EntityType::Animal,
        EntityType::Monster,
        EntityType::Item,
        EntityType::Player,
        EntityType::Living,
    ];
    for self_type in entity_types.iter() {
        for other_type in entity_types.iter() {
            assert_eq!(
                self_type.mutually_exclusive(other_type),
                other_type.mutually_exclusive(self_type)
            )
        }
    }
}

#[test]
fn conflicting_guarantee_is_skipped() {
    let entity = IotaEntity::new("wolf")
        .add_guaranteed(EntityType::Animal)
        .add_guaranteed(EntityType::Monster)
        .build();
    assert!(entity.guaranteed_types.animal);
    assert!(!entity.guaranteed_types.monster);
    assert!(entity.possible_types.animal);
    assert!(entity.possible_types.living);
    assert!(!entity.possible_types.monster);
    assert!(!entity.possible_types.player);
    assert!(!entity.possible_types.item);
}

#[test]
fn entity_operations_guard_the_invariant() {
    let mut entity = IotaEntity::new("zombie").build();
    assert!(entity.add_guarenteed(EntityType::Monster));
    assert!(entity.add_guarenteed(EntityType::Living));
    assert!(!entity.add_guarenteed(EntityType::Animal));
    assert!(!entity.remove_possible(EntityType::Monster));
    assert!(entity.remove_possible(EntityType::Item));
    assert!(entity.guaranteed_types.monster);
    assert!(entity.guaranteed_types.living);
    assert!(entity.possible_types.monster);
    assert!(entity.possible_types.living);
    assert!(!entity.possible_types.animal);
}
