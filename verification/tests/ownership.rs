use substrate_lessons::links::KittyLinkedItem;
use substrate_lessons::ownership::OwnedKitties;

fn item(prev: Option<u32>, next: Option<u32>) -> KittyLinkedItem {
    KittyLinkedItem { prev, next }
}

#[test]
fn a_new_index_is_empty() {
    let index = OwnedKitties::new();
    assert_eq!(index.get(&1, None), None);
    assert_eq!(index.get(&1, Some(0)), None);
    assert_eq!(index.read_head(&1), item(None, None));
    assert_eq!(index.read(&1, Some(0)), item(None, None));
    assert_eq!(index.kitties_of(&1), Vec::<u32>::new());
}

#[test]
fn the_first_append_links_the_sentinel_both_ways() {
    let mut index = OwnedKitties::new();
    index.append(&1, 5);
    assert_eq!(index.get(&1, None), Some(item(Some(5), Some(5))));
    assert_eq!(index.get(&1, Some(5)), Some(item(None, None)));
    assert_eq!(index.kitties_of(&1), vec![5]);
}

#[test]
fn appended_kitties_are_listed_newest_first() {
    let mut index = OwnedKitties::new();
    index.append(&1, 1);
    index.append(&1, 2);
    index.append(&1, 3);
    assert_eq!(index.kitties_of(&1), vec![3, 2, 1]);
    assert_eq!(index.read_head(&1), item(Some(3), Some(1)));
    assert_eq!(index.read(&1, Some(3)), item(Some(2), None));
    assert_eq!(index.read(&1, Some(2)), item(Some(1), Some(3)));
    assert_eq!(index.read(&1, Some(1)), item(None, Some(2)));
}

#[test]
fn removing_from_the_middle_joins_the_neighbours() {
    let mut index = OwnedKitties::new();
    index.append(&1, 1);
    index.append(&1, 2);
    index.append(&1, 3);
    index.remove(&1, 2);
    assert_eq!(index.kitties_of(&1), vec![3, 1]);
    assert_eq!(index.get(&1, Some(2)), None);
    assert_eq!(index.read_head(&1), item(Some(3), Some(1)));
    assert_eq!(index.read(&1, Some(3)), item(Some(1), None));
    assert_eq!(index.read(&1, Some(1)), item(None, Some(3)));
}

#[test]
fn removing_the_newest_and_the_oldest() {
    let mut index = OwnedKitties::new();
    index.append(&1, 1);
    index.append(&1, 2);
    index.append(&1, 3);
    index.remove(&1, 3);
    assert_eq!(index.kitties_of(&1), vec![2, 1]);
    assert_eq!(index.read_head(&1), item(Some(2), Some(1)));
    index.remove(&1, 1);
    assert_eq!(index.kitties_of(&1), vec![2]);
    assert_eq!(index.read_head(&1), item(Some(2), Some(2)));
    assert_eq!(index.read(&1, Some(2)), item(None, None));
}

#[test]
fn removing_the_last_kitty_leaves_an_unlinked_sentinel() {
    let mut index = OwnedKitties::new();
    index.append(&1, 9);
    index.remove(&1, 9);
    assert_eq!(index.get(&1, None), Some(item(None, None)));
    assert_eq!(index.get(&1, Some(9)), None);
    assert_eq!(index.kitties_of(&1), Vec::<u32>::new());
}

#[test]
fn removing_a_kitty_that_is_not_there_changes_nothing() {
    let mut index = OwnedKitties::new();
    index.remove(&1, 4);
    assert_eq!(index.get(&1, None), None);
    index.append(&1, 1);
    index.append(&1, 2);
    index.remove(&1, 4);
    index.remove(&2, 1);
    assert_eq!(index.kitties_of(&1), vec![2, 1]);
    assert_eq!(index.get(&2, None), None);
}

#[test]
fn append_then_remove_gives_the_list_back() {
    let mut index = OwnedKitties::new();
    index.append(&1, 1);
    index.append(&1, 2);
    let before = index.kitties_of(&1);
    index.append(&1, 7);
    index.remove(&1, 7);
    assert_eq!(index.kitties_of(&1), before);
    let mut fresh = OwnedKitties::new();
    fresh.append(&3, 0);
    fresh.remove(&3, 0);
    assert_eq!(fresh.kitties_of(&3), Vec::<u32>::new());
}

#[test]
fn owners_do_not_touch_each_other() {
    let mut index = OwnedKitties::new();
    index.append(&1, 1);
    index.append(&2, 1);
    index.append(&2, 2);
    index.append(&u64::MAX, u32::MAX);
    index.append(&0, 0);
    index.remove(&2, 1);
    assert_eq!(index.kitties_of(&1), vec![1]);
    assert_eq!(index.kitties_of(&2), vec![2]);
    assert_eq!(index.kitties_of(&u64::MAX), vec![u32::MAX]);
    assert_eq!(index.kitties_of(&0), vec![0]);
    assert_eq!(index.kitties_of(&3), Vec::<u32>::new());
}

#[test]
fn the_largest_kitty_and_the_sentinel_do_not_collide() {
    let mut index = OwnedKitties::new();
    index.append(&1, u32::MAX);
    assert_eq!(index.get(&2, None), None);
    assert_eq!(index.get(&1, None), Some(item(Some(u32::MAX), Some(u32::MAX))));
    assert_eq!(index.get(&1, Some(u32::MAX)), Some(item(None, None)));
    assert_eq!(index.get(&1, Some(0)), None);
}
