use pico_os::flash::{
    decode_record, slot_name, slot_offset, FlashStore, StoredData, FLASH_SECTOR_SIZE,
    SLOT_CAPACITY, SLOT_COUNT,
};
use pico_os::Error;

fn snapshot(store: &FlashStore) -> Vec<Vec<u8>> {
    (0..SLOT_COUNT).map(|s| store.sector(s).clone()).collect()
}

#[test]
fn write_then_read_returns_payload() {
    let mut store = FlashStore::new();
    for slot in 0..SLOT_COUNT {
        let payload = format!("payload for slot {}", slot).into_bytes();
        assert_eq!(store.write_to_flash(slot, &payload), Ok(()));
        assert_eq!(store.read_from_flash(slot), Ok(payload));
    }
}

#[test]
fn write_keeps_other_slots() {
    let mut store = FlashStore::new();
    store.write_to_flash(0, b"first").unwrap();
    store.write_to_flash(2, b"third").unwrap();
    store.write_to_flash(0, b"again").unwrap();
    assert_eq!(store.read_from_flash(0), Ok(b"again".to_vec()));
    assert_eq!(store.read_from_flash(1), Ok(Vec::new()));
    assert_eq!(store.read_from_flash(2), Ok(b"third".to_vec()));
}

#[test]
fn write_empty_payload_reads_empty() {
    let mut store = FlashStore::new();
    store.write_to_flash(1, b"something").unwrap();
    store.write_to_flash(1, b"").unwrap();
    assert_eq!(store.read_from_flash(1), Ok(Vec::new()));
}

#[test]
fn write_full_capacity_round_trips() {
    let mut store = FlashStore::new();
    let payload: Vec<u8> = (0..SLOT_CAPACITY).map(|i| (i % 251) as u8).collect();
    assert_eq!(store.write_to_flash(3, &payload), Ok(()));
    assert_eq!(store.read_from_flash(3), Ok(payload));
}

#[test]
fn write_too_large_is_rejected_and_changes_nothing() {
    let mut store = FlashStore::new();
    store.write_to_flash(0, b"kept").unwrap();
    let before = snapshot(&store);
    let payload = vec![b'x'; SLOT_CAPACITY + 1];
    for slot in 0..SLOT_COUNT {
        assert_eq!(store.write_to_flash(slot, &payload), Err(Error::DataTooLarge));
    }
    assert_eq!(snapshot(&store), before);
    assert_eq!(store.read_from_flash(0), Ok(b"kept".to_vec()));
}

#[test]
fn slot_out_of_range_is_rejected() {
    let mut store = FlashStore::new();
    let before = snapshot(&store);
    assert_eq!(store.write_to_flash(SLOT_COUNT, b"x"), Err(Error::InvalidSlotNumber));
    assert_eq!(store.write_to_flash(usize::MAX, b"x"), Err(Error::InvalidSlotNumber));
    assert_eq!(store.read_from_flash(SLOT_COUNT), Err(Error::InvalidSlotNumber));
    assert_eq!(store.read_from_flash(100), Err(Error::InvalidSlotNumber));
    assert_eq!(snapshot(&store), before);
}

#[test]
fn invalid_slot_wins_over_size() {
    let mut store = FlashStore::new();
    let payload = vec![0u8; SLOT_CAPACITY + 10];
    assert_eq!(store.write_to_flash(SLOT_COUNT, &payload), Err(Error::InvalidSlotNumber));
}

#[test]
fn erased_store_reads_empty() {
    let store = FlashStore::new();
    for slot in 0..SLOT_COUNT {
        assert_eq!(store.read_from_flash(slot), Ok(Vec::new()));
        assert!(store.sector(slot).iter().all(|b| *b == 0xff));
    }
}

#[test]
fn sector_image_layout() {
    let record = StoredData::new(b"hello").unwrap();
    assert_eq!(record.size(), 5);
    let image = record.to_sector();
    assert_eq!(image.len(), FLASH_SECTOR_SIZE);
    assert_eq!(&image[..4], &[5, 0, 0, 0]);
    assert_eq!(&image[4..9], b"hello");
    assert!(image[9..].iter().all(|b| *b == 0xff));
}

#[test]
fn length_prefix_is_little_endian() {
    let payload = vec![7u8; 300];
    let image = StoredData::new(&payload).unwrap().to_sector();
    assert_eq!(&image[..4], &[44, 1, 0, 0]);
    assert_eq!(decode_record(&image), payload);
}

#[test]
fn stored_data_rejects_oversized_payload() {
    let payload = vec![1u8; SLOT_CAPACITY + 1];
    assert!(matches!(StoredData::new(&payload), Err(Error::DataTooLarge)));
}

#[test]
fn decode_rejects_length_beyond_capacity() {
    let mut image = vec![0u8; FLASH_SECTOR_SIZE];
    image[0] = 0xfd;
    image[1] = 0x0f;
    // 0x0ffd = 4093, one more than a slot holds
    assert_eq!(decode_record(&image), Vec::<u8>::new());
    image[0] = 0xfc;
    assert_eq!(decode_record(&image).len(), SLOT_CAPACITY);
    let mut garbage = vec![0xffu8; FLASH_SECTOR_SIZE];
    garbage[4] = b'z';
    assert_eq!(decode_record(&garbage), Vec::<u8>::new());
}

#[test]
fn from_sectors_checks_shape() {
    assert!(FlashStore::from_sectors(vec![vec![0xff; FLASH_SECTOR_SIZE]; 3]).is_none());
    assert!(FlashStore::from_sectors(vec![vec![0xff; FLASH_SECTOR_SIZE - 1]; 4]).is_none());
    let mut sectors = vec![vec![0xffu8; FLASH_SECTOR_SIZE]; 4];
    sectors[2][0] = 2;
    sectors[2][1] = 0;
    sectors[2][2] = 0;
    sectors[2][3] = 0;
    sectors[2][4] = b'o';
    sectors[2][5] = b'k';
    let store = FlashStore::from_sectors(sectors).unwrap();
    assert_eq!(store.read_from_flash(2), Ok(b"ok".to_vec()));
}

#[test]
fn slot_geometry() {
    assert_eq!(slot_offset(0), 0x100000);
    assert_eq!(slot_offset(1), 0x101000);
    assert_eq!(slot_offset(3), 0x103000);
    assert_eq!(slot_name(0), b"slot1".to_vec());
    assert_eq!(slot_name(3), b"slot4".to_vec());
}
