use rpack::sort::sort_sizes;
use rpack::Size;
use std::cmp::Ordering;

#[test]
fn size_new_works() {
    let size = Size::new(10, 20);
    assert_eq!(size.width, 10);
    assert_eq!(size.height, 20);

    let size = Size::new(3, 4);
    assert_eq!(size.width, 3);
    assert_eq!(size.height, 4);
}

#[test]
fn size_area_works() {
    let size = Size::new(10, 20);
    assert_eq!(size.area(), 200);

    let size = Size::new(3, 4);
    assert_eq!(size.area(), 12);
}

#[test]
fn is_square_works() {
    let size = Size::new(10, 20);
    assert_eq!(size.is_square(), false);

    let size = Size::new(3, 3);
    assert_eq!(size.is_square(), true);
}

#[test]
fn eq_works() {
    let size1 = Size::new(10, 20);
    let size2 = Size::new(10, 20);
    assert_eq!(size1, size2);

    let size1 = Size::new(10, 20);
    let size2 = Size::new(10, 30);
    assert_ne!(size1, size2);

    let size1 = Size::new(10, 20);
    let size2 = Size::new(20, 20);
    assert_ne!(size1, size2);
}

#[test]
fn ordering_works() {
    let size1 = Size::new(10, 20);
    let size2 = Size::new(10, 20);
    let size3 = Size::new(30, 20);
    let size4 = Size::new(30, 30);
    let size5 = Size::new(40, 40);

    assert_eq!(size1.cmp(&size2), Ordering::Equal);
    assert_eq!(size1.cmp(&size3), Ordering::Less);
    assert_eq!(size1.cmp(&size4), Ordering::Less);
    assert_eq!(size1.cmp(&size5), Ordering::Less);

    assert_eq!(size3.cmp(&size1), Ordering::Greater);
    assert_eq!(size3.cmp(&size2), Ordering::Greater);
    assert_eq!(size3.cmp(&size4), Ordering::Less);
    assert_eq!(size3.cmp(&size5), Ordering::Less);

    assert_eq!(size4.cmp(&size1), Ordering::Greater);
    assert_eq!(size4.cmp(&size2), Ordering::Greater);
    assert_eq!(size4.cmp(&size3), Ordering::Greater);
    assert_eq!(size4.cmp(&size5), Ordering::Less);

    assert_eq!(size5.cmp(&size1), Ordering::Greater);
    assert_eq!(size5.cmp(&size2), Ordering::Greater);
    assert_eq!(size5.cmp(&size3), Ordering::Greater);
    assert_eq!(size5.cmp(&size4), Ordering::Greater);
}

#[test]
fn ordering_is_by_height_before_width() {
    let tall_narrow = Size::new(10, 30);
    let short_wide = Size::new(20, 20);

    assert_eq!(tall_narrow.cmp(&short_wide), Ordering::Greater);
    assert_eq!(short_wide.cmp(&tall_narrow), Ordering::Less);
    assert_eq!(tall_narrow.partial_cmp(&short_wide), Some(Ordering::Greater));
    assert_eq!(short_wide.partial_cmp(&tall_narrow), Some(Ordering::Less));
    assert!(short_wide < tall_narrow);
    assert!(tall_narrow > short_wide);
    assert!(!(tall_narrow <= short_wide));
}

#[test]
fn partial_cmp_agrees_with_cmp() {
    let sizes = [
        Size::new(0, 0),
        Size::new(1, 0),
        Size::new(0, 1),
        Size::new(7, 3),
        Size::new(3, 7),
        Size::new(7, 7),
        Size::new(usize::MAX, 0),
        Size::new(0, usize::MAX),
    ];
    for a in sizes.iter() {
        for b in sizes.iter() {
            assert_eq!(a.partial_cmp(b), Some(a.cmp(b)));
            assert_eq!(a <= b, a.cmp(b) != Ordering::Greater);
            assert_eq!(a == b, a.cmp(b) == Ordering::Equal);
        }
    }
}

#[test]
fn equal_heights_are_ordered_by_width() {
    assert_eq!(Size::new(3, 5).cmp(&Size::new(4, 5)), Ordering::Less);
    assert_eq!(Size::new(4, 5).cmp(&Size::new(3, 5)), Ordering::Greater);
    assert_eq!(Size::new(4, 5).partial_cmp(&Size::new(4, 5)), Some(Ordering::Equal));
}

#[test]
fn area_of_an_empty_size_is_zero() {
    assert_eq!(Size::new(0, 20).area(), 0);
    assert_eq!(Size::new(20, 0).area(), 0);
    assert_eq!(Size::new(usize::MAX, 1).area(), usize::MAX);
}

#[test]
fn sort_sizes_orders_by_height_then_width() {
    let sizes = vec![Size::new(5, 3), Size::new(4, 2), Size::new(6, 3), Size::new(3, 5)];
    let sorted = sort_sizes(&sizes);
    assert_eq!(
        sorted,
        vec![Size::new(4, 2), Size::new(5, 3), Size::new(6, 3), Size::new(3, 5)]
    );
    assert_eq!(sizes[0], Size::new(5, 3));
}

#[test]
fn sort_sizes_keeps_duplicates() {
    let sizes = vec![
        Size::new(2, 2),
        Size::new(1, 9),
        Size::new(2, 2),
        Size::new(9, 1),
        Size::new(2, 2),
    ];
    let sorted = sort_sizes(&sizes);
    assert_eq!(
        sorted,
        vec![
            Size::new(9, 1),
            Size::new(2, 2),
            Size::new(2, 2),
            Size::new(2, 2),
            Size::new(1, 9),
        ]
    );
}

#[test]
fn sort_sizes_agrees_with_the_standard_sort() {
    let mut sizes = Vec::new();
    let mut seed: usize = 12345;
    for _ in 0..200 {
        seed = seed.wrapping_mul(1103515245).wrapping_add(12345) % 2147483648;
        let width = seed % 17;
        seed = seed.wrapping_mul(1103515245).wrapping_add(12345) % 2147483648;
        let height = seed % 13;
        sizes.push(Size::new(width, height));
    }
    let sorted = sort_sizes(&sizes);
    let mut expected = sizes.clone();
    expected.sort();
    assert_eq!(sorted, expected);
}

#[test]
fn sort_sizes_of_nothing_and_of_one() {
    assert_eq!(sort_sizes(&Vec::new()), Vec::<Size>::new());
    assert_eq!(sort_sizes(&vec![Size::new(3, 4)]), vec![Size::new(3, 4)]);
}
