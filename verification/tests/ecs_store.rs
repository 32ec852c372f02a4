use fuzzy_drive::ecs::{Components, EntityManager};

#[derive(Copy, Clone, Debug)]
struct TestComp {}

#[test]
fn test_em() {
    let mut em = EntityManager::<TestComp>::new();
    let e1 = em.allocate();
    assert_eq!(e1.index, 0);
    assert_eq!(e1.generation, 1);
    assert!(em.is_alive(e1));

    let e2 = em.allocate();
    assert_eq!(e2.index, 1);
    assert_eq!(e2.generation, 1);
    assert!(em.is_alive(e2));

    let e3 = em.allocate();
    assert_eq!(e3.index, 2);
    assert_eq!(e3.generation, 1);
    assert!(em.is_alive(e3));

    assert_eq!(em.free_entities.len(), 3);

    em.deallocate(e2);

    assert!(em.is_alive(e1));
    assert!(!em.is_alive(e2));
    assert!(em.is_alive(e3));

    em.deallocate(e1);

    assert!(!em.is_alive(e1));
    assert!(!em.is_alive(e2));
    assert!(em.is_alive(e3));

    assert_eq!(em.free_entities.len(), 3);

    assert_eq!(em.first_free, Some(0));

    let e1 = em.allocate();
    assert_eq!(e1.index, 0);
    assert_eq!(e1.generation, 2);
    assert!(em.is_alive(e1));

    assert_eq!(em.first_free, Some(1));
}

#[test]
fn test_component() {
    let mut components = Components::<usize, TestComp>::new();
    let mut em = EntityManager::<TestComp>::new();
    let e1 = em.allocate();
    components.set(e1, 100);
    assert_eq!(*components.get(e1), 100);
}

#[test]
fn test_component_iter() {
    let mut components = Components::<usize, TestComp>::new();
    let mut em = EntityManager::<TestComp>::new();
    components.add(&mut em, 11);
    components.add(&mut em, 22);
    components.add(&mut em, 33);

    let (entities, values) = components.iter();

    assert_eq!(entities.len(), 3);
    assert_eq!(values.len(), 3);

    assert_eq!(values[0], 11);
    assert_eq!(entities[0].index, 0);
    assert_eq!(entities[0].generation, 1);

    assert_eq!(values[1], 22);
    assert_eq!(entities[1].index, 1);
    assert_eq!(entities[1].generation, 1);

    assert_eq!(values[2], 33);
    assert_eq!(entities[2].index, 2);
    assert_eq!(entities[2].generation, 1);
}

#[test]
fn test_deallocate_dead_handle_is_noop() {
    let mut em = EntityManager::<TestComp>::new();
    let e1 = em.allocate();
    em.deallocate(e1);
    let first_free = em.first_free;
    let generation = em.generations[e1.index];
    em.deallocate(e1);
    assert_eq!(em.first_free, first_free);
    assert_eq!(em.generations[e1.index], generation);
}

#[test]
fn test_get_mut_updates_value() {
    let mut components = Components::<usize, TestComp>::new();
    let mut em = EntityManager::<TestComp>::new();
    let e1 = components.add(&mut em, 7);
    *components.get_mut(e1) = 9;
    assert_eq!(*components.get(e1), 9);
}

#[test]
fn test_iter_mut_updates_values() {
    let mut components = Components::<usize, TestComp>::new();
    let mut em = EntityManager::<TestComp>::new();
    components.add(&mut em, 1);
    components.add(&mut em, 2);
    let (_, values) = components.iter_mut();
    values[1] = 20;
    assert_eq!(*components.iter().1, vec![1, 20]);
}

#[test]
fn test_set_grows_with_defaults() {
    let mut components = Components::<usize, TestComp>::new();
    let e = fuzzy_drive::ecs::Entity::<TestComp>::new(3, 1);
    components.set(e, 44);
    let (entities, values) = components.iter();
    assert_eq!(values.len(), 4);
    assert_eq!(values[0], 0);
    assert_eq!(values[3], 44);
    assert_eq!(entities[0].generation, 0);
    assert_eq!(entities[3].generation, 1);
}
