use entity_arena::ecs::{ECSError, Gen, ECS, ID};

type Arena = ECS<(f32, f32), f32, (f32, f32, f32, f32), (f32, f32), Vec<(f32, f32)>>;

fn arena() -> Arena {
    Arena::new()
}

#[test]
fn p1_generation_safety() {
    let mut e = arena();
    let h = e.push(Some((1.0, 2.0)), None, None, None, None);
    assert!(e.valid_id(h));
    e.remove(h).unwrap();
    assert!(!e.valid_id(h));
    // Reusing the slot must not revive the old handle.
    let h2 = e.push(Some((9.0, 9.0)), None, None, None, None);
    assert_eq!(h2.index(), h.index());
    assert!(!e.valid_id(h));
    assert!(e.valid_id(h2));
    // A further free/reuse cycle keeps it dead too.
    e.remove(h2).unwrap();
    let h3 = e.push(None, None, None, None, None);
    assert_eq!(h3.index(), h.index());
    assert!(!e.valid_id(h));
    assert!(!e.valid_id(h2));
}

#[test]
fn p2_no_crosstalk() {
    let mut e = arena();
    let a = e.push(Some((1.0, 1.0)), Some(0.5), None, None, None);
    let b = e.push(Some((2.0, 2.0)), None, Some((1.0, 0.0, 0.0, 0.1)), None, None);
    e.remove(a).unwrap();
    assert!(e.valid_id(b));
    assert_eq!(*e.position(b).unwrap(), Some((2.0, 2.0)));
    assert_eq!(*e.rotation(b).unwrap(), None);
    assert_eq!(*e.light(b).unwrap(), Some((1.0, 0.0, 0.0, 0.1)));
}

#[test]
fn p3_lifo_reuse() {
    let mut e = arena();
    let h1 = e.push(Some((1.0, 0.0)), None, None, None, None);
    let h2 = e.push(Some((2.0, 0.0)), None, None, None, None);
    let h3 = e.push(Some((3.0, 0.0)), None, None, None, None);
    e.remove(h1).unwrap();
    e.remove(h2).unwrap();
    e.remove(h3).unwrap();
    let n1 = e.push(None, None, None, None, None);
    let n2 = e.push(None, None, None, None, None);
    let n3 = e.push(None, None, None, None, None);
    assert_eq!(n1.index(), h3.index());
    assert_eq!(n2.index(), h2.index());
    assert_eq!(n3.index(), h1.index());
}

#[test]
fn p4_attribute_independence() {
    let mut e = arena();
    let h = e.push(Some((4.0, 5.0)), None, None, None, None);
    assert_eq!(*e.rotation(h).unwrap(), None);
    assert_eq!(*e.position(h).unwrap(), Some((4.0, 5.0)));
    e.set_rotation(h, Some(1.25)).unwrap();
    assert_eq!(*e.position(h).unwrap(), Some((4.0, 5.0)));
    assert_eq!(*e.rotation(h).unwrap(), Some(1.25));
}

#[test]
fn p5_double_free() {
    let mut e = arena();
    let other = e.push(None, None, None, None, None);
    let h = e.push(Some((1.0, 1.0)), None, None, None, None);
    e.remove(h).unwrap();
    let before = e.len();
    assert_eq!(e.remove(h), Err(ECSError::InvalidID));
    assert_eq!(e.len(), before);
    assert!(e.valid_id(other));
}

#[test]
fn scenario_reuse_and_isolation() {
    let mut e = arena();
    let h1 = e.push(Some((1.0, 2.0)), None, None, None, None);
    let h2 = e.push(Some((3.0, 4.0)), None, None, None, None);
    e.remove(h1).unwrap();
    let h3 = e.push(Some((5.0, 6.0)), None, None, None, None);
    assert_eq!(h3.index(), h1.index());
    assert!(!e.valid_id(h1));
    assert!(e.valid_id(h2));
    assert_eq!(*e.position(h2).unwrap(), Some((3.0, 4.0)));
    assert_eq!(e.len(), 2);
}

#[test]
fn scenario_free_against_empty_arena() {
    let mut e = arena();
    assert_eq!(e.remove(ID::new(0, 0)), Err(ECSError::InvalidID));
    assert_eq!(e.len(), 0);
    assert!(!e.valid_id(ID::new(0, 0)));
}

#[test]
fn accessors_reject_invalid_handles() {
    let mut e = arena();
    let h = e.push(Some((0.0, 0.0)), Some(0.0), None, None, None);
    e.remove(h).unwrap();
    assert_eq!(e.position(h), Err(ECSError::InvalidID));
    assert_eq!(e.rotation(h), Err(ECSError::InvalidID));
    assert_eq!(e.light(h), Err(ECSError::InvalidID));
    assert_eq!(e.velocity(h), Err(ECSError::InvalidID));
    assert_eq!(e.polygon(h), Err(ECSError::InvalidID));
    assert_eq!(e.set_position(h, Some((1.0, 1.0))), Err(ECSError::InvalidID));
    assert_eq!(e.set_rotation(h, Some(1.0)), Err(ECSError::InvalidID));
    assert_eq!(e.set_light(h, None), Err(ECSError::InvalidID));
    assert_eq!(e.set_velocity(h, None), Err(ECSError::InvalidID));
    assert_eq!(e.set_polygon(h, None), Err(ECSError::InvalidID));
}

#[test]
fn freed_slot_is_cleared_before_reuse() {
    let mut e = arena();
    let h = e.push(
        Some((1.0, 2.0)),
        Some(3.0),
        Some((1.0, 1.0, 1.0, 1.0)),
        Some((0.5, 0.5)),
        Some(vec![(0.0, 0.0), (1.0, 0.0)]),
    );
    e.remove(h).unwrap();
    // The reused slot shows only what the new allocation put there.
    let h2 = e.push(None, Some(9.0), None, None, None);
    assert_eq!(h2.index(), h.index());
    assert_eq!(*e.position(h2).unwrap(), None);
    assert_eq!(*e.rotation(h2).unwrap(), Some(9.0));
    assert_eq!(*e.light(h2).unwrap(), None);
    assert_eq!(*e.velocity(h2).unwrap(), None);
    assert_eq!(*e.polygon(h2).unwrap(), None);
}

#[test]
fn set_and_clear_cells_in_place() {
    let mut e = arena();
    let h = e.push(None, None, None, None, None);
    assert!(e.valid_id(h));
    e.set_position(h, Some((7.0, 8.0))).unwrap();
    assert_eq!(*e.position(h).unwrap(), Some((7.0, 8.0)));
    e.set_position(h, None).unwrap();
    assert_eq!(*e.position(h).unwrap(), None);
    e.set_polygon(h, Some(vec![(1.0, 1.0)])).unwrap();
    assert_eq!(*e.polygon(h).unwrap(), Some(vec![(1.0, 1.0)]));
    e.set_velocity(h, Some((0.1, 0.2))).unwrap();
    e.set_light(h, Some((0.0, 0.5, 0.5, 1.0))).unwrap();
    assert_eq!(*e.velocity(h).unwrap(), Some((0.1, 0.2)));
    assert_eq!(*e.light(h).unwrap(), Some((0.0, 0.5, 0.5, 1.0)));
}

#[test]
fn generation_counter_semantics() {
    let mut e = arena();
    // Allocation does not advance the counter: fresh slots share it.
    let a = e.push(None, None, None, None, None);
    let b = e.push(None, None, None, None, None);
    assert_eq!(a.gen(), 0);
    assert_eq!(b.gen(), 0);
    // Freeing a slot whose generation matches the counter advances it, so
    // the next occupant of any slot is stamped strictly fresher.
    e.remove(a).unwrap();
    let c = e.push(None, None, None, None, None);
    assert_eq!(c.index(), a.index());
    assert_eq!(c.gen(), 1);
    // Freeing a slot whose generation is already behind the counter leaves
    // the counter alone.
    e.remove(b).unwrap();
    let d = e.push(None, None, None, None, None);
    assert_eq!(d.index(), b.index());
    assert_eq!(d.gen(), 1);
    assert!(!e.valid_id(b));
}

#[test]
fn table_walk_with_handle_at() {
    let mut e = arena();
    let a = e.push(Some((1.0, 0.0)), None, None, None, None);
    let b = e.push(Some((2.0, 0.0)), None, None, None, None);
    let c = e.push(Some((3.0, 0.0)), None, None, None, None);
    e.remove(b).unwrap();
    assert_eq!(e.table_len(), 3);
    assert_eq!(e.len(), 2);
    let mut seen = Vec::new();
    for i in 0..e.table_len() {
        if let Some(h) = e.handle_at(i) {
            assert!(e.valid_id(h));
            seen.push((h.index(), *e.position(h).unwrap()));
        }
    }
    assert_eq!(seen, vec![(a.index(), Some((1.0, 0.0))), (c.index(), Some((3.0, 0.0)))]);
    assert_eq!(e.handle_at(1), None);
    assert_eq!(e.handle_at(7), None);
}

#[test]
fn out_of_range_and_stale_gen_handles() {
    let mut e = arena();
    let h = e.push(None, None, None, None, None);
    // Same index, wrong generation.
    assert!(!e.valid_id(ID::new(h.index(), h.gen() + 1)));
    // Index past the table.
    assert!(!e.valid_id(ID::new(5, 0)));
    assert_eq!(e.remove(ID::new(5, 0)), Err(ECSError::InvalidID));
    assert!(e.valid_id(h));
}

#[test]
fn gen_accessors() {
    assert_eq!(Gen::Occupied { generation: 5 }.unwrap_some(), 5);
    assert_eq!(Gen::Free { next: Some(3) }.unwrap_none(), Some(3));
    assert_eq!(Gen::Free { next: None }.unwrap_none(), None);
    let id = ID::new(2, 7);
    assert_eq!(id.index(), 2);
    assert_eq!(id.gen(), 7);
    assert_eq!(id, ID::new(2, 7));
}
