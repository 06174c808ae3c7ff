use substrate_lessons::dna::{combine, combine_dna};
use substrate_lessons::kitties::{Error, Kitty, Module};
use substrate_lessons::links::KittyLinkedItem;
use substrate_lessons::seed::random_value;

const SEED: [u8; 32] = [0u8; 32];

#[test]
fn owned_kitties_can_append_values() {
    let mut kitties = Module::new();
    assert_eq!(kitties.create(&1, &SEED, Some(0)).map(|_| ()), Ok(()));
}

#[test]
fn create_returns_the_counter_and_stores_the_kitty() {
    let mut kitties = Module::new();
    assert_eq!(kitties.kitties_count(), 0);
    assert_eq!(kitties.kitties(0), None);
    assert_eq!(kitties.create(&1, &SEED, Some(0)), Ok(0));
    assert_eq!(kitties.kitties_count(), 0);
    assert_eq!(
        kitties.kitties(0),
        Some(Kitty([39, 140, 77, 194, 163, 1, 154, 220, 108, 18, 30, 32, 100, 223, 46, 1]))
    );
    assert_eq!(kitties.owned_kitties().kitties_of(&1), vec![0]);
    assert_eq!(kitties.owned_kitties().kitties_of(&2), Vec::<u32>::new());
}

#[test]
fn create_with_dna_stores_the_given_genes() {
    let mut kitties = Module::new();
    let dna = [7u8; 16];
    assert_eq!(kitties.create_with_dna(&9, dna), Ok(0));
    assert_eq!(kitties.kitties(0), Some(Kitty(dna)));
    assert_eq!(kitties.owned_kitties().kitties_of(&9), vec![0]);
}

#[test]
fn the_next_create_is_given_the_same_identity() {
    let mut kitties = Module::new();
    assert_eq!(kitties.create_with_dna(&1, [1u8; 16]), Ok(0));
    assert_eq!(kitties.next_kitty_id(), Ok(0));
    assert_eq!(kitties.create_with_dna(&2, [2u8; 16]), Ok(0));
    assert_eq!(kitties.kitties(0), Some(Kitty([2u8; 16])));
}

#[test]
fn insert_kitty_sets_the_counter() {
    let mut kitties = Module::new();
    kitties.insert_kitty(&4, 17, Kitty([3u8; 16]));
    assert_eq!(kitties.kitties_count(), 17);
    assert_eq!(kitties.next_kitty_id(), Ok(17));
    assert_eq!(kitties.kitties(17), Some(Kitty([3u8; 16])));
    assert_eq!(kitties.kitties(16), None);
    assert_eq!(kitties.owned_kitties().kitties_of(&4), vec![17]);
}

#[test]
fn create_fails_once_the_counter_is_at_the_maximum() {
    let mut kitties = Module::new();
    kitties.insert_kitty(&1, u32::MAX, Kitty([0u8; 16]));
    assert_eq!(kitties.next_kitty_id(), Err(Error::KittiesCountOverflow));
    assert_eq!(kitties.create(&1, &SEED, Some(0)), Err(Error::KittiesCountOverflow));
    assert_eq!(kitties.create_with_dna(&2, [9u8; 16]), Err(Error::KittiesCountOverflow));
    assert_eq!(kitties.kitties_count(), u32::MAX);
    assert_eq!(kitties.kitties(u32::MAX), Some(Kitty([0u8; 16])));
    assert_eq!(kitties.owned_kitties().kitties_of(&1), vec![u32::MAX]);
    assert_eq!(kitties.owned_kitties().kitties_of(&2), Vec::<u32>::new());
    assert_eq!(kitties.owned_kitties().get(&2, None), None);
}

#[test]
fn breed_fails_once_the_counter_is_at_the_maximum() {
    let mut kitties = Module::new();
    kitties.insert_kitty(&1, 5, Kitty([1u8; 16]));
    kitties.insert_kitty(&1, u32::MAX, Kitty([2u8; 16]));
    assert_eq!(
        kitties.breed_with_selector(&1, 5, u32::MAX, &[0u8; 16]),
        Err(Error::KittiesCountOverflow)
    );
    assert_eq!(kitties.do_breed(&1, 5, u32::MAX, &SEED, None), Err(Error::KittiesCountOverflow));
    assert_eq!(kitties.kitties_count(), u32::MAX);
    assert_eq!(kitties.owned_kitties().kitties_of(&1), vec![u32::MAX, 5]);
}

#[test]
fn transfer_moves_the_kitty_to_the_front_of_the_receiver() {
    let mut kitties = Module::new();
    kitties.insert_kitty(&1, 10, Kitty([0u8; 16]));
    kitties.insert_kitty(&1, 11, Kitty([0u8; 16]));
    kitties.insert_kitty(&1, 12, Kitty([0u8; 16]));
    kitties.insert_kitty(&2, 20, Kitty([0u8; 16]));
    assert_eq!(kitties.do_transfer(&1, &2, 11), Ok(()));
    assert_eq!(kitties.owned_kitties().kitties_of(&1), vec![12, 10]);
    assert_eq!(kitties.owned_kitties().kitties_of(&2), vec![11, 20]);
    assert_eq!(kitties.kitties_count(), 20);
    assert_eq!(kitties.kitties(11), Some(Kitty([0u8; 16])));
}

#[test]
fn transfer_by_a_stranger_fails_and_changes_nothing() {
    let mut kitties = Module::new();
    kitties.insert_kitty(&1, 10, Kitty([0u8; 16]));
    assert_eq!(kitties.do_transfer(&2, &3, 10), Err(Error::NoPermissionToTransferKitty));
    assert_eq!(kitties.do_transfer(&1, &3, 99), Err(Error::NoPermissionToTransferKitty));
    assert_eq!(kitties.owned_kitties().kitties_of(&1), vec![10]);
    assert_eq!(kitties.owned_kitties().kitties_of(&2), Vec::<u32>::new());
    assert_eq!(kitties.owned_kitties().kitties_of(&3), Vec::<u32>::new());
    assert_eq!(kitties.owned_kitties().get(&3, None), None);
}

#[test]
fn transfer_to_oneself_moves_the_kitty_to_the_front() {
    let mut kitties = Module::new();
    kitties.insert_kitty(&1, 10, Kitty([0u8; 16]));
    kitties.insert_kitty(&1, 11, Kitty([0u8; 16]));
    assert_eq!(kitties.do_transfer(&1, &1, 10), Ok(()));
    assert_eq!(kitties.owned_kitties().kitties_of(&1), vec![10, 11]);
}

#[test]
fn a_transferred_kitty_has_one_owner() {
    let mut kitties = Module::new();
    kitties.insert_kitty(&1, 3, Kitty([0u8; 16]));
    assert_eq!(kitties.do_transfer(&1, &2, 3), Ok(()));
    assert_eq!(kitties.do_transfer(&2, &5, 3), Ok(()));
    assert_eq!(kitties.owned_kitties().kitties_of(&1), Vec::<u32>::new());
    assert_eq!(kitties.owned_kitties().kitties_of(&2), Vec::<u32>::new());
    assert_eq!(kitties.owned_kitties().kitties_of(&5), vec![3]);
    assert_eq!(kitties.do_transfer(&1, &2, 3), Err(Error::NoPermissionToTransferKitty));
}

#[test]
fn breed_mixes_the_parents_under_the_selector() {
    let mut kitties = Module::new();
    kitties.insert_kitty(&1, 7, Kitty([0b1010_1010; 16]));
    kitties.insert_kitty(&2, 3, Kitty([0b0101_0101; 16]));
    let mut selector = [0b1111_0000u8; 16];
    selector[0] = 0xff;
    selector[15] = 0x00;
    assert_eq!(kitties.breed_with_selector(&9, 7, 3, &selector), Ok(3));
    let mut child = [0b1010_0101u8; 16];
    child[0] = 0b1010_1010;
    child[15] = 0b0101_0101;
    assert_eq!(kitties.kitties(3), Some(Kitty(child)));
    assert_eq!(kitties.kitties_count(), 3);
    assert_eq!(kitties.owned_kitties().kitties_of(&9), vec![3]);
}

#[test]
fn breed_draws_its_selector_from_the_seed() {
    let mut kitties = Module::new();
    kitties.insert_kitty(&1, 1, Kitty([0xff; 16]));
    kitties.insert_kitty(&1, 2, Kitty([0x00; 16]));
    kitties.insert_kitty(&1, 8, Kitty([0x00; 16]));
    assert_eq!(kitties.do_breed(&1, 1, 2, &SEED, Some(0)), Ok(8));
    assert_eq!(
        kitties.kitties(8),
        Some(Kitty([39, 140, 77, 194, 163, 1, 154, 220, 108, 18, 30, 32, 100, 223, 46, 1]))
    );
}

#[test]
fn breed_needs_two_stored_parents() {
    let mut kitties = Module::new();
    kitties.insert_kitty(&1, 1, Kitty([1u8; 16]));
    assert_eq!(kitties.breed_with_selector(&1, 1, 2, &[0u8; 16]), Err(Error::InvalidKittyId));
    assert_eq!(kitties.breed_with_selector(&1, 2, 1, &[0u8; 16]), Err(Error::InvalidKittyId));
    assert_eq!(kitties.breed_with_selector(&1, 7, 7, &[0u8; 16]), Err(Error::InvalidKittyId));
    assert_eq!(kitties.do_breed(&1, 5, 6, &SEED, None), Err(Error::InvalidKittyId));
    assert_eq!(kitties.kitties_count(), 1);
    assert_eq!(kitties.owned_kitties().kitties_of(&1), vec![1]);
}

#[test]
fn breed_rejects_a_kitty_paired_with_itself() {
    let mut kitties = Module::new();
    kitties.insert_kitty(&1, 1, Kitty([1u8; 16]));
    assert_eq!(
        kitties.breed_with_selector(&1, 1, 1, &[0u8; 16]),
        Err(Error::RequireDifferentParent)
    );
    assert_eq!(
        kitties.breed_with_selector(&2, 1, 1, &[0xffu8; 16]),
        Err(Error::RequireDifferentParent)
    );
    assert_eq!(kitties.do_breed(&3, 1, 1, &SEED, Some(4)), Err(Error::RequireDifferentParent));
    assert_eq!(kitties.kitties(1), Some(Kitty([1u8; 16])));
    assert_eq!(kitties.owned_kitties().kitties_of(&1), vec![1]);
}

#[test]
fn combine_dna_selects_bit_by_bit() {
    assert_eq!(combine_dna(0b10101010, 0b01010101, 0b11110000), 0b10100101);
    assert_eq!(combine_dna(0xab, 0xcd, 0xff), 0xab);
    assert_eq!(combine_dna(0xab, 0xcd, 0x00), 0xcd);
    assert_eq!(combine_dna(0b1100_1100, 0b0011_0011, 0b1000_0001), 0b1011_0010);
}

#[test]
fn combine_dna_gives_the_same_child_for_the_same_inputs() {
    for selector in [0u8, 1, 0x0f, 0xf0, 0xaa, 0xff] {
        assert_eq!(combine_dna(0x5a, 0xc3, selector), combine_dna(0x5a, 0xc3, selector));
    }
    let a = [0x12u8; 16];
    let b = [0xfeu8; 16];
    let s = [0x3cu8; 16];
    assert_eq!(combine(&a, &b, &s), combine(&a, &b, &s));
    assert_eq!(combine(&a, &b, &s), [(0x3c & 0x12) | (!0x3cu8 & 0xfe); 16]);
}

#[test]
fn random_value_is_the_digest_of_the_encoded_payload() {
    assert_eq!(
        random_value(&SEED, &1, Some(0)),
        [39, 140, 77, 194, 163, 1, 154, 220, 108, 18, 30, 32, 100, 223, 46, 1]
    );
    assert_eq!(
        random_value(&SEED, &1, None),
        [94, 85, 93, 3, 146, 178, 228, 254, 65, 171, 235, 35, 69, 153, 176, 209]
    );
    let mut seed = [0u8; 32];
    for (i, byte) in seed.iter_mut().enumerate() {
        *byte = i as u8;
    }
    assert_eq!(
        random_value(&seed, &0x0102030405060708, Some(0x0a0b0c0d)),
        [246, 252, 23, 217, 224, 67, 72, 58, 183, 44, 211, 107, 73, 3, 188, 197]
    );
}

#[test]
fn an_unlinked_item_has_no_neighbours() {
    let kitties = Module::new();
    assert_eq!(
        kitties.owned_kitties().read(&1, Some(4)),
        KittyLinkedItem { prev: None, next: None }
    );
    assert_eq!(kitties.owned_kitties().read_head(&1), KittyLinkedItem { prev: None, next: None });
}
