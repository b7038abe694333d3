//! The sparse containers, exercised from outside: elision, totality,
//! round trips, swapping and the counting rule.

use pixelart::illusion::table::IllusionTable;
use pixelart::illusion::IllusionArray;

#[test]
fn test_ref_1() {
    let mut arr: IllusionArray<3, i32> = Default::default();

    let mut it = arr.iter();
    while let Some(item) = it.next() {
        println!("{:?}", (item.index(), *item.get()));
    }
    println!("Filled len: {:?}", arr.filled_len());
    println!("---");

    let mut mi = arr.iter_mut();
    while let Some(mut item) = mi.next(&arr) {
        let i = item.index();
        *item.get_mut() += (i as i32) * 2;
        arr.commit(item);
    }

    let mut it = arr.iter();
    while let Some(item) = it.next() {
        println!("{:?}", (item.index(), *item.get()));
    }
    println!("Filled len: {:?}", arr.filled_len());
    println!("---");

    // Index 0 stayed at the default, so only two entries are stored.
    assert_eq!(arr.filled_len(), 2);
    assert_eq!(*arr.get(1).unwrap().get(), 2);
    assert_eq!(*arr.get(2).unwrap().get(), 4);
}

#[test]
fn table_test_name() {
    let mut table: IllusionTable<2, 2, i32> = Default::default();

    println!("Filled len: {:?}", table.filled_len());
    println!("---");

    let mut mi = table.iter_mut();
    while let Some(mut item) = mi.next(&table) {
        let (row, column) = item.index();
        *item.get_mut() += (row * column) as i32;
        table.commit(item);
    }

    let mut it = table.iter();
    while let Some(item) = it.next() {
        println!("Cell: {:?}", (item.index(), *item.get()));
    }

    println!("Filled len: {:?}", table.filled_len());
    println!("---");
    assert_eq!(table.filled_len(), 1);

    table.try_modify((0, 0), |mut v| {
        v.set(10);
        v
    });
    table.try_modify((1, 1), |mut v| {
        v.set(15);
        v
    });

    println!("Value at (0, 0): {:?}", *table.get((0, 0)).unwrap().get());
    println!("Value at (1, 1): {:?}", *table.get((1, 1)).unwrap().get());
    println!("Filled len: {:?}", table.filled_len());
    println!("---");
    assert_eq!(*table.get((0, 0)).unwrap().get(), 10);
    assert_eq!(*table.get((1, 1)).unwrap().get(), 15);
    assert_eq!(table.filled_len(), 2);
}

#[test]
fn default_elision_tracks_presence() {
    // Writing a non-default value stores an entry; writing the default back
    // removes it again.
    let mut arr: IllusionArray<4, i32> = Default::default();
    assert_eq!(arr.filled_len(), 0);

    let mut h = arr.get_mut(2).unwrap();
    h.set(7);
    arr.commit(h);
    assert_eq!(arr.filled_len(), 1);
    assert_eq!(*arr.get(2).unwrap().get(), 7);

    let mut h = arr.get_mut(2).unwrap();
    h.set(0);
    arr.commit(h);
    assert_eq!(arr.filled_len(), 0);
    assert_eq!(*arr.get(2).unwrap().get(), 0);
    assert_eq!(arr.real_items().len(), 0);
}

#[test]
fn iteration_is_total() {
    // A full pass yields every logical index, however few cells are stored.
    let arr: IllusionArray<6, i32> = Default::default();
    let indices = arr.pass_indices();
    assert_eq!(indices.len(), 6);
    for (expected, got) in indices.iter().enumerate() {
        assert_eq!(expected, *got);
    }

    let table: IllusionTable<3, 4, i32> = Default::default();
    let positions = table.pass_positions();
    assert_eq!(positions.len(), 12);
    assert_eq!(positions[0], (0, 0));
    assert_eq!(positions[4], (1, 0));
    assert_eq!(positions[11], (2, 3));
}

#[test]
fn write_handle_round_trip() {
    // Writing X then reading yields X; writing the default back empties the
    // cell again.
    let mut table: IllusionTable<3, 3, i32> = Default::default();
    let mut h = table.get_mut((1, 2)).unwrap();
    h.set(42);
    table.commit(h);
    assert_eq!(*table.get((1, 2)).unwrap().get(), 42);

    let mut h = table.get_mut((1, 2)).unwrap();
    h.set(0);
    table.commit(h);
    assert_eq!(*table.get((1, 2)).unwrap().get(), 0);
    assert!(table.real_items().is_empty());
}

#[test]
fn swap_across_presence_cases() {
    let mut table: IllusionTable<5, 5, i32> = Default::default();

    // Both absent: a no-op.
    table.swap((0, 0), (2, 2));
    assert_eq!(table.filled_len(), 0);

    // Only one side present: the entry relocates.
    let mut h = table.get_mut((0, 0)).unwrap();
    h.set(9);
    table.commit(h);
    table.swap((0, 0), (2, 2));
    assert_eq!(*table.get((0, 0)).unwrap().get(), 0);
    assert_eq!(*table.get((2, 2)).unwrap().get(), 9);
    assert_eq!(table.filled_len(), 1);

    // Both present: values exchange.
    let mut h = table.get_mut((4, 4)).unwrap();
    h.set(5);
    table.commit(h);
    table.swap((2, 2), (4, 4));
    assert_eq!(*table.get((2, 2)).unwrap().get(), 5);
    assert_eq!(*table.get((4, 4)).unwrap().get(), 9);
    assert_eq!(table.filled_len(), 2);
}

#[test]
fn swap_prunes_emptied_rows() {
    let mut table: IllusionTable<4, 4, i32> = Default::default();
    let mut h = table.get_mut((1, 1)).unwrap();
    h.set(3);
    table.commit(h);

    // Row 1 holds the only entry; swapping it away must drop row 1 itself.
    table.swap((1, 1), (3, 0));
    assert_eq!(table.filled_len(), 1);
    let items = table.real_items();
    assert_eq!(items.len(), 1);
    assert_eq!(items[0].0, (3, 0));
    assert_eq!(*items[0].1, 3);
}

#[test]
fn filled_len_sums_present_rows() {
    // One row with two entries: the count is 2, summed at the row level.
    let mut table: IllusionTable<4, 4, i32> = Default::default();
    let mut h = table.get_mut((2, 0)).unwrap();
    h.set(1);
    table.commit(h);
    let mut h = table.get_mut((2, 3)).unwrap();
    h.set(2);
    table.commit(h);

    assert_eq!(table.filled_len(), 2);
    let row = table.get_row(2).unwrap();
    assert_eq!(row.get().filled_len(), 2);
    assert_eq!(table.get_row(0).unwrap().get().filled_len(), 0);
}

#[test]
fn iteration_order_is_stable() {
    // Two consecutive full passes over an unmodified table agree exactly.
    let mut table: IllusionTable<3, 3, i32> = Default::default();
    let mut h = table.get_mut((0, 1)).unwrap();
    h.set(4);
    table.commit(h);

    let first = table.pass_positions();
    let second = table.pass_positions();
    assert_eq!(first, second);
}

#[test]
fn three_by_three_scenario() {
    // Write 7 at (0,0) and 9 at (2,2), then swap (0,0) with (1,1).
    let mut table: IllusionTable<3, 3, i32> = Default::default();
    let mut h = table.get_mut((0, 0)).unwrap();
    h.set(7);
    table.commit(h);
    let mut h = table.get_mut((2, 2)).unwrap();
    h.set(9);
    table.commit(h);

    assert_eq!(table.filled_len(), 2);
    let items = table.real_items();
    assert_eq!(items.len(), 2);
    assert!(items.iter().any(|((r, c), v)| (*r, *c) == (0, 0) && **v == 7));
    assert!(items.iter().any(|((r, c), v)| (*r, *c) == (2, 2) && **v == 9));

    table.swap((0, 0), (1, 1));
    assert_eq!(*table.get((0, 0)).unwrap().get(), 0);
    assert_eq!(*table.get((1, 1)).unwrap().get(), 7);
    assert_eq!(*table.get((2, 2)).unwrap().get(), 9);
    assert_eq!(table.filled_len(), 2);
}

#[test]
fn real_items_mut_round_trip() {
    let mut arr: IllusionArray<5, i32> = Default::default();
    let mut h = arr.get_mut(3).unwrap();
    h.set(-4);
    arr.commit(h);

    let handles = arr.real_items_mut();
    assert_eq!(handles.len(), 1);
    for mut h in handles {
        *h.get_mut() *= 2;
        arr.commit(h);
    }
    assert_eq!(*arr.get(3).unwrap().get(), -8);
}

#[test]
fn try_modify_rejects_out_of_bounds() {
    let mut arr: IllusionArray<2, i32> = Default::default();
    assert!(arr.try_modify(1, |mut v| {
        v.set(5);
        v
    }));
    assert!(!arr.try_modify(2, |v| v));
    assert_eq!(*arr.get(1).unwrap().get(), 5);
    assert!(arr.get(2).is_none());
    assert!(arr.get_mut(9).is_none());
}
