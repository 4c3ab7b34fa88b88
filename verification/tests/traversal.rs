use nonoverlap_iter::AscendingRange;
use nonoverlap_iter::FixedOrder;
use nonoverlap_iter::NonOverlappingMapIteratorDriver;

#[test]
fn example() {
    let values = vec![1, 2, 3];
    let inner_iter = AscendingRange::new(0, 3);

    let mut iter = NonOverlappingMapIteratorDriver::map_values(values, inner_iter);

    let idx = iter.next().unwrap();
    let val = iter.elem_mut(idx);
    assert_eq!(*val, 1);
    *val = 10;

    let idx = iter.next().unwrap();
    let val = iter.elem_mut(idx);
    assert_eq!(*val, 2);
    *val = 20;

    let idx = iter.next().unwrap();
    let val = iter.elem_mut(idx);
    assert_eq!(*val, 3);
    *val = 30;

    assert!(iter.next().is_none());

    let values = iter.finish();

    assert_eq!(values, &[10, 20, 30]);
}

#[test]
fn ascending_range_covers_each_index_once() {
    let values = vec![0u8; 5];
    let mut iter = NonOverlappingMapIteratorDriver::map_values(values, AscendingRange::new(0, 5));
    let mut seen = Vec::new();
    while let Some(idx) = iter.next() {
        seen.push(idx);
    }
    assert_eq!(seen, vec![0, 1, 2, 3, 4]);
}

#[test]
fn empty_buffer_yields_no_items() {
    let values: Vec<i32> = Vec::new();
    let mut iter = NonOverlappingMapIteratorDriver::map_values(values, AscendingRange::new(0, 0));
    assert!(iter.next().is_none());
}

#[test]
fn empty_buffer_with_fixed_order_yields_no_items() {
    let values: Vec<i32> = Vec::new();
    let order = FixedOrder::new(Vec::new()).unwrap();
    let mut iter = NonOverlappingMapIteratorDriver::map_values(values, order);
    assert!(iter.next().is_none());
}

#[test]
fn exhaustion_is_permanent() {
    let values = vec![4, 5];
    let mut iter = NonOverlappingMapIteratorDriver::map_values(values, AscendingRange::new(0, 2));
    assert!(iter.next().is_some());
    assert!(iter.next().is_some());
    assert!(iter.next().is_none());
    assert!(iter.next().is_none());
    assert!(iter.next().is_none());
}

#[test]
fn writes_are_visible_after_finish() {
    let values = vec![100, 200];
    let mut iter = NonOverlappingMapIteratorDriver::map_values(values, AscendingRange::new(0, 2));
    let idx = iter.next().unwrap();
    *iter.elem_mut(idx) = 7;
    let idx = iter.next().unwrap();
    *iter.elem_mut(idx) = 8;
    assert_eq!(iter.finish(), vec![7, 8]);
}

#[test]
fn writes_are_visible_through_later_reads() {
    let values = vec![3, 4];
    let mut iter = NonOverlappingMapIteratorDriver::map_values(values, AscendingRange::new(0, 2));
    let first = iter.next().unwrap();
    *iter.elem_mut(first) = 30;
    let second = iter.next().unwrap();
    assert_eq!(*iter.elem(first), 30);
    assert_eq!(*iter.elem(second), 4);
}

#[test]
fn custom_order_traversal() {
    let values = vec![5, 6, 7];
    let order = FixedOrder::new(vec![2, 0, 1]).unwrap();
    let mut iter = NonOverlappingMapIteratorDriver::map_values(values, order);

    let idx = iter.next().unwrap();
    assert_eq!(idx, 2);
    assert_eq!(*iter.elem(idx), 7);

    let idx = iter.next().unwrap();
    assert_eq!(idx, 0);
    assert_eq!(*iter.elem(idx), 5);

    let idx = iter.next().unwrap();
    assert_eq!(idx, 1);
    assert_eq!(*iter.elem(idx), 6);

    assert!(iter.next().is_none());
}

#[test]
fn fixed_order_rejects_duplicates() {
    assert!(FixedOrder::new(vec![1, 1, 2]).is_none());
    assert!(FixedOrder::new(vec![0, 2, 1]).is_some());
    assert!(FixedOrder::new(Vec::new()).is_some());
}

#[test]
fn range_stops_at_buffer_end() {
    let values = vec![1, 2];
    let mut iter = NonOverlappingMapIteratorDriver::map_values(values, AscendingRange::new(0, 5));
    assert_eq!(iter.next(), Some(0));
    assert_eq!(iter.next(), Some(1));
    assert!(iter.next().is_none());
    assert!(iter.next().is_none());
}

#[test]
fn fixed_order_stops_for_good_at_out_of_range_entry() {
    let values = vec![1, 2];
    let order = FixedOrder::new(vec![1, 5, 0]).unwrap();
    let mut iter = NonOverlappingMapIteratorDriver::map_values(values, order);
    assert_eq!(iter.next(), Some(1));
    assert!(iter.next().is_none());
    assert!(iter.next().is_none());
}

#[test]
fn partial_range_leaves_other_elements_untouched() {
    let values = vec![9, 8, 7, 6];
    let mut iter = NonOverlappingMapIteratorDriver::map_values(values, AscendingRange::new(1, 3));
    let idx = iter.next().unwrap();
    assert_eq!(idx, 1);
    *iter.elem_mut(idx) = 80;
    let idx = iter.next().unwrap();
    assert_eq!(idx, 2);
    *iter.elem_mut(idx) = 70;
    assert!(iter.next().is_none());
    assert_eq!(iter.finish(), vec![9, 80, 70, 6]);
}
