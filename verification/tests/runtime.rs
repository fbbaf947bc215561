use slik::runtime::SlotTable;
use slik::scheduler::KeyedSlots;

#[test]
fn slot_table_reuses_most_recently_freed_id() {
    let mut table: SlotTable<&str> = SlotTable::new();
    assert_eq!(table.register("a"), 0);
    assert_eq!(table.register("b"), 1);
    assert_eq!(table.register("c"), 2);
    table.unregister(0);
    table.unregister(2);
    assert_eq!(table.get(0), None);
    assert_eq!(table.get(1), Some(&"b"));
    assert_eq!(table.register("d"), 2);
    assert_eq!(table.register("e"), 0);
    assert_eq!(table.register("f"), 3);
    assert_eq!(table.capacity_len(), 4);
    assert_eq!(table.get(0), Some(&"e"));
}

#[test]
fn slot_table_ignores_dead_ids() {
    let mut table: SlotTable<u8> = SlotTable::new();
    assert_eq!(table.register(7), 0);
    table.unregister(5);
    table.unregister(0);
    table.unregister(0);
    assert_eq!(table.register(8), 0);
    assert_eq!(table.register(9), 1);
    assert_eq!(table.replace(1, 10), Ok(9));
    assert_eq!(table.get(1), Some(&10));
    assert_eq!(table.replace(4, 11), Err(11));
}

#[test]
fn keyed_slots_hand_out_increasing_ids() {
    let mut slots: KeyedSlots<char> = KeyedSlots::new();
    assert_eq!(slots.register('a'), 0);
    assert_eq!(slots.register('b'), 1);
    slots.unregister(0);
    assert_eq!(slots.register('c'), 2);
    assert_eq!(slots.next_id(), 3);
    assert_eq!(slots.get(0), None);
    assert_eq!(slots.get(2), Some(&'c'));
    assert_eq!(slots.replace(1, 'z'), Ok('b'));
    assert_eq!(slots.get(1), Some(&'z'));
    assert_eq!(slots.replace(0, 'y'), Err('y'));
}

#[test]
fn keyed_slots_list_live_ids_in_order() {
    let mut slots: KeyedSlots<char> = KeyedSlots::new();
    assert!(slots.live_ids().is_empty());
    slots.register('a');
    slots.register('b');
    slots.register('c');
    slots.unregister(1);
    slots.unregister(7);
    assert_eq!(slots.live_ids(), vec![0, 2]);
    slots.register('d');
    assert_eq!(slots.live_ids(), vec![0, 2, 3]);
    assert_eq!(slots.replace(2, 'z'), Ok('c'));
    assert_eq!(slots.live_ids(), vec![0, 2, 3]);
}
