use halo_snapshot::handle::DatumHandle;
use halo_snapshot::layout::{
    Layout, HALO_OBJECT_MAX_POOL_ENTRIES, HALO_OBJECT_POOL_HEADER_ADDR,
    HALO_PLAYER_GLOBALS_ADDR, HALO_PLAYER_MAX_POOL_ENTRIES, HALO_PLAYER_POOL_HEADER_ADDR,
    HALO_TAG_ARRAY_HEADER_ADDR, HALO_TAG_HEADER_ADDR, MAXIMUM_NUMBER_OF_LOCAL_PLAYERS,
    OBJECT_HEAD_GUARD, OBJECT_TAIL_GUARD, POOL_SIGNATURE, TAG_FOOTER_GUARD,
};
use halo_snapshot::snapshot::{build_snapshot, build_snapshot_with_layout, EngineSnapshot};

const OBJECT_TABLE: usize = 0x1000;
const PLAYER_TABLE: usize = 0x8000;
const TAG_TABLE: usize = 0x9000;
const TEXTS: usize = 0xA000;
const BODIES: usize = 0xB000;

fn small_layout() -> Layout {
    Layout {
        object_pool_header: 0x100,
        player_pool_header: 0x200,
        tag_header: 0x300,
        player_globals: 0x400,
    }
}

fn put_u16(bytes: &mut [u8], at: usize, value: u16) {
    bytes[at..at + 2].copy_from_slice(&value.to_le_bytes());
}

fn put_u32(bytes: &mut [u8], at: usize, value: u32) {
    bytes[at..at + 4].copy_from_slice(&value.to_le_bytes());
}

fn put_headers(bytes: &mut [u8], layout: &Layout, tables_at: usize, tag_count: u32) {
    let objects = layout.object_pool_header;
    put_u16(bytes, objects + 32, 2048);
    put_u16(bytes, objects + 34, 12);
    put_u32(bytes, objects + 40, POOL_SIGNATURE);
    put_u32(bytes, objects + 52, (tables_at + OBJECT_TABLE) as u32 | 0x8000_0000);
    let players = layout.player_pool_header;
    put_u16(bytes, players + 32, 16);
    put_u16(bytes, players + 34, 212);
    put_u32(bytes, players + 40, POOL_SIGNATURE);
    put_u32(bytes, players + 52, (tables_at + PLAYER_TABLE) as u32 | 0x8000_0000);
    let tags = layout.tag_header;
    put_u32(bytes, tags, (tables_at + TAG_TABLE) as u32 | 0x8000_0000);
    put_u32(bytes, tags + 12, tag_count);
    put_u32(bytes, tags + 36, TAG_FOOTER_GUARD);
}

fn put_object(bytes: &mut [u8], tables_at: usize, index: usize, id: u16, tag: u32, position: [f32; 3]) {
    let body = tables_at + BODIES + 0x40 * index;
    let entry = tables_at + OBJECT_TABLE + 12 * index;
    put_u16(bytes, entry, id);
    put_u32(bytes, entry + 8, (body + 0x18) as u32 | 0x8000_0000);
    put_u32(bytes, body, OBJECT_HEAD_GUARD);
    put_u32(bytes, body + 20, OBJECT_TAIL_GUARD);
    put_u32(bytes, body + 24, tag);
    for k in 0..3 {
        bytes[body + 36 + 4 * k..body + 40 + 4 * k].copy_from_slice(&position[k].to_le_bytes());
    }
}

fn put_player(bytes: &mut [u8], tables_at: usize, slot: usize, id: u16, local: u16, unit: u32) {
    let at = tables_at + PLAYER_TABLE + 212 * slot;
    put_u16(bytes, at, id);
    put_u16(bytes, at + 2, local);
    put_u32(bytes, at + 52, unit);
}

fn put_tag(bytes: &mut [u8], tables_at: usize, position: usize, tag: u32, text_at: usize, text: &str) {
    let at = tables_at + TAG_TABLE + 32 * position;
    let text_at = tables_at + TEXTS + text_at;
    put_u32(bytes, at + 12, tag);
    put_u32(bytes, at + 16, text_at as u32 | 0x8000_0000);
    bytes[text_at..text_at + text.len()].copy_from_slice(text.as_bytes());
    bytes[text_at + text.len()] = 0;
}

/// A sound capture under the small layout, with no object, no player and no
/// tag in it.
fn bare_capture(tag_count: u32) -> Vec<u8> {
    let mut bytes = vec![0u8; 0x2C000];
    put_headers(&mut bytes, &small_layout(), 0, tag_count);
    bytes
}

fn decode(bytes: &[u8]) -> Option<EngineSnapshot> {
    build_snapshot_with_layout(bytes, &small_layout())
}

fn filled(snapshot: &EngineSnapshot) -> Vec<usize> {
    (0..snapshot.object_pool_entries.len())
        .filter(|&index| snapshot.object_pool_entries[index].is_some())
        .collect()
}

#[test]
fn retail_layout_holds_the_known_offsets() {
    let layout = Layout::xbox_retail();
    assert_eq!(layout.object_pool_header, 0x000B_9370);
    assert_eq!(layout.player_pool_header, 0x0021_3C50);
    assert_eq!(layout.tag_header, 0x003A_6000);
    assert_eq!(layout.player_globals, 0x0021_4E00);
    assert_eq!(HALO_OBJECT_POOL_HEADER_ADDR, 0x000B_9370);
    assert_eq!(HALO_PLAYER_POOL_HEADER_ADDR, 0x0021_3C50);
    assert_eq!(HALO_TAG_HEADER_ADDR, 0x003A_6000);
    assert_eq!(HALO_TAG_ARRAY_HEADER_ADDR, 0x003A_6024);
    assert_eq!(HALO_PLAYER_GLOBALS_ADDR, 0x0021_4E00);
    assert_eq!(HALO_OBJECT_MAX_POOL_ENTRIES, 2048);
    assert_eq!(HALO_PLAYER_MAX_POOL_ENTRIES, 16);
    assert_eq!(MAXIMUM_NUMBER_OF_LOCAL_PLAYERS, 4);
}

#[test]
fn guards_are_the_known_constants() {
    assert_eq!(POOL_SIGNATURE, 1681945664);
    assert_eq!(OBJECT_HEAD_GUARD, 1751474532);
    assert_eq!(OBJECT_TAIL_GUARD, 1952541036);
    assert_eq!(TAG_FOOTER_GUARD, 1935896178);
    assert_eq!(POOL_SIGNATURE.to_le_bytes(), *b"@t@d");
    assert_eq!(OBJECT_HEAD_GUARD.to_le_bytes(), *b"daeh");
    assert_eq!(OBJECT_TAIL_GUARD.to_le_bytes(), *b"liat");
    assert_eq!(TAG_FOOTER_GUARD.to_le_bytes(), *b"rncs");
}

#[test]
fn sound_capture_without_content_gives_an_empty_snapshot() {
    let snapshot = decode(&bare_capture(0)).unwrap();
    assert_eq!(snapshot.object_pool_entries.len(), 2048);
    assert_eq!(snapshot.game_object_entries.len(), 2048);
    assert_eq!(snapshot.player_pool_entries.len(), 16);
    assert!(snapshot.object_pool_entries.iter().all(|slot| slot.is_none()));
    assert!(snapshot.game_object_entries.iter().all(|slot| slot.is_none()));
    assert!(snapshot.player_pool_entries.iter().all(|slot| slot.is_none()));
    assert!(snapshot.tags.is_empty());
    assert_eq!(snapshot.object_pool_header.signature, POOL_SIGNATURE);
    assert_eq!(snapshot.object_pool_header.max_objects, 2048);
    assert_eq!(snapshot.player_pool_header.signature, POOL_SIGNATURE);
    assert_eq!(snapshot.player_pool_header.max_objects, 16);
}

#[test]
fn corrupt_object_pool_signature_gives_nothing() {
    let mut bytes = bare_capture(0);
    put_object(&mut bytes, 0, 5, 1, 7, [1.0, 2.0, 3.0]);
    assert!(decode(&bytes).is_some());
    for byte in 0..4 {
        let mut corrupt = bytes.clone();
        corrupt[0x100 + 40 + byte] ^= 0x01;
        assert!(decode(&corrupt).is_none());
    }
}

#[test]
fn corrupt_tag_footer_gives_nothing() {
    let bytes = bare_capture(0);
    assert!(decode(&bytes).is_some());
    for byte in 0..4 {
        let mut corrupt = bytes.clone();
        corrupt[0x300 + 36 + byte] ^= 0x80;
        assert!(decode(&corrupt).is_none());
    }
}

#[test]
fn corrupt_player_pool_signature_gives_nothing() {
    let bytes = bare_capture(0);
    assert!(decode(&bytes).is_some());
    for byte in 0..4 {
        let mut corrupt = bytes.clone();
        corrupt[0x200 + 40 + byte] = 0;
        assert!(decode(&corrupt).is_none());
    }
}

#[test]
fn capture_too_short_for_a_header_gives_nothing() {
    let bytes = bare_capture(0);
    assert!(decode(&bytes[..0x4B0]).is_some());
    assert!(decode(&bytes[..0x4AF]).is_none());
    assert!(decode(&bytes[..0x328]).is_none());
    assert!(decode(&bytes[..0x327]).is_none());
    assert!(decode(&bytes[..0x238]).is_none());
    assert!(decode(&bytes[..0x137]).is_none());
    assert!(decode(&bytes[..0x100]).is_none());
    assert!(decode(&[]).is_none());
}

#[test]
fn layout_outside_the_capture_gives_nothing() {
    let bytes = bare_capture(0);
    let mut layout = small_layout();
    layout.player_globals = bytes.len() - 175;
    assert!(build_snapshot_with_layout(&bytes, &layout).is_none());
    layout.player_globals = bytes.len() - 176;
    assert!(build_snapshot_with_layout(&bytes, &layout).is_some());
    layout.player_globals = usize::MAX;
    assert!(build_snapshot_with_layout(&bytes, &layout).is_none());
    let mut layout = small_layout();
    layout.tag_header = usize::MAX - 3;
    assert!(build_snapshot_with_layout(&bytes, &layout).is_none());
}

#[test]
fn zeroed_capture_gives_nothing_under_the_retail_layout() {
    assert!(build_snapshot(&vec![0u8; 0x40_0000]).is_none());
    assert!(build_snapshot(&[]).is_none());
    assert!(build_snapshot(&vec![0u8; 100]).is_none());
}

#[test]
fn end_to_end_under_the_small_layout() {
    let mut bytes = bare_capture(1);
    put_object(&mut bytes, 0, 5, 0xE174, 7, [1.0, 2.0, 3.0]);
    put_tag(&mut bytes, 0, 0, 7, 0, "weapons\\pistol");
    put_player(&mut bytes, 0, 0, 0xEC70, 2, 0xE174_0005);
    let snapshot = decode(&bytes).unwrap();
    assert_eq!(filled(&snapshot), vec![5]);
    let entry = snapshot.object_pool_entries[5].as_ref().unwrap();
    let object = snapshot.game_object_entries[5].as_ref().unwrap();
    assert_eq!(entry.id, 0xE174);
    assert_eq!(object.tag_index, 7);
    assert_eq!(f32::from_bits(object.position_bits[0]), 1.0);
    assert_eq!(f32::from_bits(object.position_bits[1]), 2.0);
    assert_eq!(f32::from_bits(object.position_bits[2]), 3.0);
    assert_eq!(snapshot.tags.get(&object.tag_index), Some(&"weapons\\pistol".to_string()));
    assert_eq!(snapshot.find_local_player_index_from_unit_index(5), Some(2));
    assert_eq!(snapshot.find_local_player_index_from_unit_index(6), None);
}

#[test]
fn end_to_end_under_the_retail_layout() {
    let tables_at = 0x0040_0000;
    let mut bytes = vec![0u8; tables_at + 0x2C000];
    put_headers(&mut bytes, &Layout::xbox_retail(), tables_at, 1);
    put_object(&mut bytes, tables_at, 5, 0xE174, 7, [1.0, 2.0, 3.0]);
    put_tag(&mut bytes, tables_at, 0, 7, 0, "weapons\\pistol");
    put_player(&mut bytes, tables_at, 3, 0xEC70, 1, 0xE174_0005);
    let snapshot = build_snapshot(&bytes).unwrap();
    assert_eq!(filled(&snapshot), vec![5]);
    let object = snapshot.game_object_entries[5].as_ref().unwrap();
    let position: Vec<f32> = object.position_bits.iter().map(|bits| f32::from_bits(*bits)).collect();
    assert_eq!(position, vec![1.0, 2.0, 3.0]);
    assert_eq!(object.tag_index, 7);
    assert_eq!(snapshot.tags.len(), 1);
    assert_eq!(snapshot.tags.get(&7), Some(&"weapons\\pistol".to_string()));
    assert_eq!(snapshot.find_local_player_index_from_unit_index(5), Some(1));
    assert!(snapshot.player_pool_entries[3].is_some());
    assert_eq!(
        snapshot.object_pool_entries[5].as_ref().unwrap().position_offset(0),
        Some(tables_at + BODIES + 0x40 * 5 + 0x24)
    );
    bytes[HALO_TAG_HEADER_ADDR + 36] ^= 1;
    assert!(build_snapshot(&bytes).is_none());
}

#[test]
fn torn_object_leaves_only_its_own_slot_empty() {
    let mut bytes = bare_capture(0);
    put_object(&mut bytes, 0, 4, 1, 7, [1.0, 2.0, 3.0]);
    put_object(&mut bytes, 0, 5, 2, 7, [1.0, 2.0, 3.0]);
    put_object(&mut bytes, 0, 6, 3, 7, [1.0, 2.0, 3.0]);
    put_object(&mut bytes, 0, 7, 4, 7, [1.0, 2.0, 3.0]);
    assert_eq!(filled(&decode(&bytes).unwrap()), vec![4, 5, 6, 7]);
    bytes[BODIES + 0x40 * 5 + 20] ^= 0xFF;
    bytes[BODIES + 0x40 * 6] ^= 0xFF;
    let snapshot = decode(&bytes).unwrap();
    assert_eq!(filled(&snapshot), vec![4, 7]);
    assert!(snapshot.game_object_entries[5].is_none());
    assert!(snapshot.game_object_entries[6].is_none());
    assert!(snapshot.game_object_entries[4].is_some());
    assert!(snapshot.game_object_entries[7].is_some());
}

#[test]
fn entries_and_bodies_are_filled_together() {
    let mut bytes = bare_capture(0);
    for index in [0usize, 1, 100, 1023, 2047] {
        put_object(&mut bytes, 0, index, index as u16 + 1, index as u32, [0.5, 0.25, 0.125]);
    }
    bytes[BODIES + 0x40 * 100 + 21] = 0;
    let snapshot = decode(&bytes).unwrap();
    for index in 0..2048 {
        assert_eq!(
            snapshot.object_pool_entries[index].is_some(),
            snapshot.game_object_entries[index].is_some()
        );
    }
    assert_eq!(filled(&snapshot), vec![0, 1, 1023, 2047]);
}

#[test]
fn duplicate_tag_index_keeps_the_earlier_name() {
    let mut bytes = bare_capture(3);
    put_tag(&mut bytes, 0, 0, 7, 0x00, "weapons\\pistol");
    put_tag(&mut bytes, 0, 1, 9, 0x40, "vehicles\\ghost");
    put_tag(&mut bytes, 0, 2, 7, 0x80, "weapons\\plasma rifle");
    let snapshot = decode(&bytes).unwrap();
    assert_eq!(snapshot.tags.len(), 2);
    assert_eq!(snapshot.tags.get(&7), Some(&"weapons\\pistol".to_string()));
    assert_eq!(snapshot.tags.get(&9), Some(&"vehicles\\ghost".to_string()));
}

#[test]
fn player_with_generation_zero_is_not_in_the_snapshot() {
    let mut bytes = bare_capture(0);
    put_object(&mut bytes, 0, 5, 1, 7, [1.0, 2.0, 3.0]);
    put_player(&mut bytes, 0, 0, 0, 2, 0xE174_0005);
    for filler in 4..212 {
        bytes[PLAYER_TABLE + filler] = 0xAB;
    }
    put_u32(&mut bytes, PLAYER_TABLE + 52, 0xE174_0005);
    let snapshot = decode(&bytes).unwrap();
    assert!(snapshot.player_pool_entries.iter().all(|slot| slot.is_none()));
    assert_eq!(snapshot.find_local_player_index_from_unit_index(5), None);
}

#[test]
fn owner_is_the_one_player_whose_unit_is_the_object() {
    let mut bytes = bare_capture(0);
    put_player(&mut bytes, 0, 1, 11, 0, 0xE174_0004);
    put_player(&mut bytes, 0, 6, 12, 3, 0xE175_0005);
    put_player(&mut bytes, 0, 9, 13, 1, 0xE176_0006);
    let snapshot = decode(&bytes).unwrap();
    assert_eq!(snapshot.find_local_player_index_from_unit_index(4), Some(0));
    assert_eq!(snapshot.find_local_player_index_from_unit_index(5), Some(3));
    assert_eq!(snapshot.find_local_player_index_from_unit_index(6), Some(1));
    assert_eq!(snapshot.find_local_player_index_from_unit_index(7), None);
    assert_eq!(snapshot.find_local_player_index_from_unit_index(0), None);
    assert_eq!(snapshot.find_local_player_index_from_unit_index(0xE175), None);
}

#[test]
fn owner_is_found_by_index_whatever_the_generation() {
    let mut bytes = bare_capture(0);
    put_player(&mut bytes, 0, 2, 11, 0xFFFF, 0x0000_0005);
    let snapshot = decode(&bytes).unwrap();
    assert_eq!(snapshot.find_local_player_index_from_unit_index(5), Some(0xFFFF));
}

#[test]
fn owner_among_several_is_the_first_in_slot_order() {
    let mut bytes = bare_capture(0);
    put_player(&mut bytes, 0, 3, 11, 2, 0xE174_0005);
    put_player(&mut bytes, 0, 8, 12, 1, 0xE175_0005);
    let snapshot = decode(&bytes).unwrap();
    assert_eq!(snapshot.find_local_player_index_from_unit_index(5), Some(2));
}

#[test]
fn dead_player_is_found_by_the_index_of_the_handle() {
    let mut bytes = bare_capture(0);
    put_u32(&mut bytes, 0x400 + 20, 0xE174_0010);
    put_u32(&mut bytes, 0x400 + 24, 0xE175_0011);
    put_u32(&mut bytes, 0x400 + 28, 0xE176_0010);
    put_u32(&mut bytes, 0x400 + 32, 0xFFFF_FFFF);
    let snapshot = decode(&bytes).unwrap();
    let of = |index: u16, id: u16| DatumHandle::new_from_index_id(index, id);
    assert_eq!(snapshot.find_next_object_datum_player(of(0x10, 0xE174)), Some(0));
    assert_eq!(snapshot.find_next_object_datum_player(of(0x10, 0)), Some(0));
    assert_eq!(snapshot.find_next_object_datum_player(of(0x11, 0xE175)), Some(1));
    assert_eq!(snapshot.find_next_object_datum_player(of(0xFFFF, 1)), Some(3));
    assert_eq!(snapshot.find_next_object_datum_player(of(0x12, 0xE174)), None);
    assert_eq!(snapshot.find_next_object_datum_player(of(0xE174, 0x10)), None);
}

#[test]
fn player_globals_are_taken_as_they_are() {
    let mut bytes = bare_capture(0);
    put_u32(&mut bytes, 0x400 + 4, 0xE174_0005);
    put_u16(&mut bytes, 0x400 + 36, 1);
    put_u16(&mut bytes, 0x400 + 44, 3);
    bytes[0x400 + 40] = 1;
    let snapshot = decode(&bytes).unwrap();
    assert_eq!(snapshot.player_globals.local_players[0], DatumHandle(0xE174_0005));
    assert_eq!(snapshot.player_globals.local_players[1], DatumHandle(0));
    assert_eq!(snapshot.player_globals.local_player_count, 1);
    assert_eq!(snapshot.player_globals.respawn_failure, 3);
    assert_eq!(snapshot.player_globals.are_all_dead, 1);
    assert_eq!(snapshot.find_next_object_datum_player(DatumHandle(0)), Some(0));
}

#[test]
fn object_lookup_needs_a_filled_slot() {
    let mut bytes = bare_capture(0);
    put_object(&mut bytes, 0, 5, 1, 7, [1.0, 2.0, 3.0]);
    let snapshot = decode(&bytes).unwrap();
    assert_eq!(snapshot.object_at(5).unwrap().tag_index, 7);
    assert!(snapshot.object_at(4).is_none());
    assert!(snapshot.object_at(2047).is_none());
    assert!(snapshot.object_at(2048).is_none());
    assert!(snapshot.object_at(usize::MAX).is_none());
}

#[test]
fn top_of_the_object_list_is_the_highest_filled_slot() {
    let mut bytes = bare_capture(0);
    assert_eq!(decode(&bytes).unwrap().top_object_index(), 0);
    put_object(&mut bytes, 0, 0, 1, 7, [0.0, 0.0, 0.0]);
    assert_eq!(decode(&bytes).unwrap().top_object_index(), 0);
    put_object(&mut bytes, 0, 3, 1, 7, [0.0, 0.0, 0.0]);
    put_object(&mut bytes, 0, 40, 1, 7, [0.0, 0.0, 0.0]);
    assert_eq!(decode(&bytes).unwrap().top_object_index(), 40);
    put_object(&mut bytes, 0, 2047, 1, 7, [0.0, 0.0, 0.0]);
    assert_eq!(decode(&bytes).unwrap().top_object_index(), 2047);
    put_u16(&mut bytes, 0x100 + 32, 41);
    assert_eq!(decode(&bytes).unwrap().top_object_index(), 40);
    put_u16(&mut bytes, 0x100 + 32, 40);
    assert_eq!(decode(&bytes).unwrap().top_object_index(), 3);
    put_u16(&mut bytes, 0x100 + 32, 0xFFFF);
    assert_eq!(decode(&bytes).unwrap().top_object_index(), 2047);
}

#[test]
fn first_free_slot_is_the_lowest_empty_one() {
    let mut bytes = bare_capture(0);
    assert_eq!(decode(&bytes).unwrap().first_free_object_index(), 0);
    put_object(&mut bytes, 0, 0, 1, 7, [0.0, 0.0, 0.0]);
    put_object(&mut bytes, 0, 1, 1, 7, [0.0, 0.0, 0.0]);
    put_object(&mut bytes, 0, 3, 1, 7, [0.0, 0.0, 0.0]);
    assert_eq!(decode(&bytes).unwrap().first_free_object_index(), 2);
    put_object(&mut bytes, 0, 2, 1, 7, [0.0, 0.0, 0.0]);
    assert_eq!(decode(&bytes).unwrap().first_free_object_index(), 4);
    put_u16(&mut bytes, 0x100 + 32, 4);
    assert_eq!(decode(&bytes).unwrap().first_free_object_index(), 0);
    put_u16(&mut bytes, 0x100 + 32, 0);
    assert_eq!(decode(&bytes).unwrap().first_free_object_index(), 0);
}

#[test]
fn decoding_twice_gives_the_same_snapshot() {
    let mut bytes = bare_capture(2);
    put_object(&mut bytes, 0, 5, 0xE174, 7, [1.0, 2.0, 3.0]);
    put_tag(&mut bytes, 0, 0, 7, 0, "weapons\\pistol");
    put_tag(&mut bytes, 0, 1, 8, 0x40, "weapons\\needler");
    put_player(&mut bytes, 0, 0, 0xEC70, 2, 0xE174_0005);
    let first = format!("{:?}", decode(&bytes).map(|s| (s.object_pool_entries, s.game_object_entries, s.player_pool_entries)));
    let second = format!("{:?}", decode(&bytes).map(|s| (s.object_pool_entries, s.game_object_entries, s.player_pool_entries)));
    assert_eq!(first, second);
    assert_eq!(decode(&bytes).unwrap().tags, decode(&bytes).unwrap().tags);
}

#[test]
fn tables_pointing_outside_the_capture_leave_every_slot_empty() {
    let mut bytes = bare_capture(5);
    put_u32(&mut bytes, 0x100 + 52, 0x00FF_FFFF);
    put_u32(&mut bytes, 0x200 + 52, 0x00FF_FFFF);
    put_u32(&mut bytes, 0x300, 0x00FF_FFFF);
    let snapshot = decode(&bytes).unwrap();
    assert_eq!(snapshot.object_pool_entries.len(), 2048);
    assert_eq!(snapshot.player_pool_entries.len(), 16);
    assert!(filled(&snapshot).is_empty());
    assert!(snapshot.player_pool_entries.iter().all(|slot| slot.is_none()));
    assert!(snapshot.tags.is_empty());
}
