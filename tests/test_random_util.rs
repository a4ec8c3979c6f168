use std::collections::HashMap;

use laddercast::random::RandomValue;

fn generate_slot_hashes(is_random: bool) -> Vec<u8> {
    if is_random {
        (0..512 * 40).map(|_| rand::random::<u8>()).collect()
    } else {
        vec![1; 512 * 40]
    }
}

#[test]
fn test_randomness_on_u8() {
    let slot_hashes = generate_slot_hashes(true);
    let mut hash_map: HashMap<u8, u8> = HashMap::new();

    let mut offset: usize = 1;

    for _i in 0..500 {
        let random: u8 = u8::random(slot_hashes.as_slice(), &mut offset);

        hash_map.entry(random).and_modify(|e| *e += 1).or_insert(1);
    }

    let mut total_number: u16 = 0;

    for value in hash_map.values() {
        //Since randomness, shouldn't be above 10
        assert!(*value <= 10);

        total_number += *value as u16;
    }

    assert_eq!(total_number, 500);
}

#[test]
fn test_randomness_on_u8_with_range() {
    let slot_hashes = generate_slot_hashes(true);
    let mut hash_map: HashMap<u8, u8> = HashMap::new();

    let mut offset: usize = 1;

    for _i in 0..50 {
        let random: u8 = u8::random_within_range(slot_hashes.as_slice(), &mut offset, 1, 2);

        hash_map.entry(random).and_modify(|e| *e += 1).or_insert(1);
    }

    let mut total_number: u16 = 0;

    for key in hash_map.keys() {
        //Since randomness with range, should always be between 1 and 2
        assert!(*key >= 1 && *key <= 2);

        total_number += *hash_map.get(key).unwrap() as u16;
    }

    assert_eq!(total_number, 50);
}

#[test]
fn fixed_buffer_gives_fixed_values() {
    let slots = generate_slot_hashes(false);
    let mut offset: usize = 1;
    assert_eq!(u8::random(&slots, &mut offset), 1);
    assert_eq!(offset, 2);
    assert_eq!(u16::random(&slots, &mut offset), 0x0101);
    assert_eq!(offset, 4);
    assert_eq!(u64::random(&slots, &mut offset), 0x0101_0101_0101_0101);
    assert_eq!(offset, 12);
}

#[test]
fn values_are_little_endian() {
    let slots: Vec<u8> = vec![0x00, 0x34, 0x12, 0x01, 0x02, 0x03, 0x04, 0x05, 0x06, 0x07, 0x08];
    let mut offset: usize = 1;
    assert_eq!(u16::random(&slots, &mut offset), 0x1234);
    assert_eq!(offset, 3);
    assert_eq!(u64::random(&slots, &mut offset), 0x0807_0605_0403_0201);
    assert_eq!(offset, 0);
}

#[test]
fn cursor_wraps_at_the_end_of_the_buffer() {
    let slots: Vec<u8> = vec![0xAA, 0xBB, 0xCC];
    let mut offset: usize = 2;
    assert_eq!(u16::random(&slots, &mut offset), 0xAACC);
    assert_eq!(offset, 1);
    let mut offset: usize = 1;
    assert_eq!(u64::random(&slots, &mut offset), 0xCCBB_AACC_BBAA_CCBB);
    assert_eq!(offset, 0);
}

#[test]
fn range_reduces_modulo_the_span() {
    let slots: Vec<u8> = vec![0, 17, 200, 0];
    let mut offset: usize = 1;
    // 17 % 4 = 1
    assert_eq!(u8::random_within_range(&slots, &mut offset, 3, 6), 4);
    // 200 % 10 = 0
    assert_eq!(u8::random_within_range(&slots, &mut offset, 1, 10), 1);
    assert_eq!(offset, 3);
}
