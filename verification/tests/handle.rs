use halo_snapshot::handle::DatumHandle;

#[test]
fn handle_packs_id_high_and_index_low() {
    let handle = DatumHandle::new_from_index_id(0x1234, 0xABCD);
    assert_eq!(handle.get_handle(), 0xABCD_1234);
    assert_eq!(handle.get_index(), 0x1234);
    assert_eq!(handle.get_id(), 0xABCD);
}

#[test]
fn handle_round_trip_on_edges() {
    let edges: [u16; 7] = [0, 1, 0x00FF, 0x0100, 0x7FFF, 0x8000, 0xFFFF];
    for index in edges {
        for id in edges {
            let handle = DatumHandle::new_from_index_id(index, id);
            assert_eq!(handle.get_index(), index);
            assert_eq!(handle.get_id(), id);
            assert_eq!(handle.get_handle(), ((id as u32) << 16) | index as u32);
        }
    }
}

#[test]
fn handle_round_trip_on_every_index() {
    let mut index: u32 = 0;
    while index <= 0xFFFF {
        let id = (index.wrapping_mul(31) ^ 0x5A5A) as u16;
        let handle = DatumHandle::new_from_index_id(index as u16, id);
        assert_eq!(handle.get_index(), index as u16);
        assert_eq!(handle.get_id(), id);
        index += 1;
    }
}

#[test]
fn handle_from_raw_value_unpacks() {
    let handle = DatumHandle(0xE174_0005);
    assert_eq!(handle.get_index(), 5);
    assert_eq!(handle.get_id(), 0xE174);
    assert_eq!(handle.get_handle(), 0xE174_0005);
    let rebuilt = DatumHandle::new_from_index_id(handle.get_index(), handle.get_id());
    assert_eq!(rebuilt, handle);
}

#[test]
fn handle_same_slot_ignores_generation() {
    let old = DatumHandle::new_from_index_id(9, 1);
    let new = DatumHandle::new_from_index_id(9, 2);
    let other = DatumHandle::new_from_index_id(10, 1);
    assert!(old.same_slot(&new));
    assert_ne!(old, new);
    assert!(!old.same_slot(&other));
    assert!(old.same_slot(&old.clone()));
}

#[test]
fn handle_zero_is_slot_zero_generation_zero() {
    let handle = DatumHandle::new_from_index_id(0, 0);
    assert_eq!(handle.get_handle(), 0);
    assert_eq!(handle.get_index(), 0);
    assert_eq!(handle.get_id(), 0);
}
