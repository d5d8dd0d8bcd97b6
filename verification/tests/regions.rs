use multiply::Region;

#[test]
fn new_region_keeps_start_and_len() {
    let r = Region::new(7, 3);
    assert_eq!(r.start, 7);
    assert_eq!(r.len, 3);
    assert_eq!(r, Region { start: 7, len: 3 });
}

#[test]
fn adjacent_regions_do_not_overlap() {
    let a = Region::new(0, 4);
    let b = Region::new(4, 4);
    assert!(!a.intersects(&b));
    assert!(!b.intersects(&a));
}

#[test]
fn regions_with_a_common_index_overlap() {
    let a = Region::new(0, 4);
    let b = Region::new(3, 2);
    assert!(a.intersects(&b));
    assert!(b.intersects(&a));
}

#[test]
fn nested_and_equal_regions_overlap() {
    let outer = Region::new(10, 100);
    let inner = Region::new(50, 1);
    assert!(outer.intersects(&inner));
    assert!(inner.intersects(&outer));
    assert!(outer.intersects(&outer));
}

#[test]
fn empty_region_overlaps_nothing() {
    let empty = Region::new(5, 0);
    let around = Region::new(0, 10);
    assert!(!empty.intersects(&around));
    assert!(!around.intersects(&empty));
    assert!(!empty.intersects(&empty));
}

#[test]
fn overlap_near_the_largest_index() {
    let a = Region::new(usize::MAX - 1, 1);
    let b = Region::new(usize::MAX - 4, 4);
    let c = Region::new(usize::MAX - 4, 3);
    assert!(a.intersects(&b));
    assert!(!a.intersects(&c));
    let huge = Region::new(usize::MAX, usize::MAX);
    assert!(huge.intersects(&Region::new(usize::MAX, 1)));
    assert!(!huge.intersects(&Region::new(0, usize::MAX)));
}

#[test]
fn region_fits_up_to_the_end_of_the_buffer() {
    assert!(Region::new(0, 8).fits(8));
    assert!(Region::new(6, 2).fits(8));
    assert!(Region::new(8, 0).fits(8));
    assert!(!Region::new(6, 3).fits(8));
    assert!(!Region::new(9, 0).fits(8));
    assert!(!Region::new(0, 9).fits(8));
}

#[test]
fn region_whose_end_exceeds_the_index_range_never_fits() {
    assert!(!Region::new(usize::MAX, 1).fits(usize::MAX));
    assert!(!Region::new(2, usize::MAX).fits(usize::MAX));
    assert!(Region::new(1, usize::MAX - 1).fits(usize::MAX));
}
