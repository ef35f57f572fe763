use panama::quicksort::{quicksort, QuickSort};
use panama::selectionsort::SelectionSort;
use panama::sorting::{sort, Sorter, StdSorter};

#[test]
fn std_works() {
    let mut things: Vec<u64> = vec![4, 2, 3, 1];
    sort(&StdSorter, &mut things);
    assert_eq!(things, &[1, 2, 3, 4]);
}

#[test]
fn quicksort_it_works() {
    let mut things: Vec<u64> = vec![4, 2, 5, 3, 1];
    QuickSort.sort(&mut things);
    assert_eq!(things, &[1, 2, 3, 4, 5]);
}

#[test]
fn selectionsort_it_works() {
    let mut things: Vec<u64> = vec![4, 2, 5, 3, 1];
    SelectionSort.sort(&mut things);
    assert_eq!(things, &[1, 2, 3, 4, 5]);
}

#[test]
fn empty() {
    let mut things: Vec<u64> = Vec::new();
    SelectionSort.sort(&mut things);
    assert!(things.is_empty());
}

#[test]
fn duplicates_survive_sorting() {
    let mut things: Vec<u64> = vec![3, 1, 3, 2, 1, 3];
    QuickSort.sort(&mut things);
    assert_eq!(things, &[1, 1, 2, 3, 3, 3]);
    let mut things: Vec<u64> = vec![3, 1, 3, 2, 1, 3];
    SelectionSort.sort(&mut things);
    assert_eq!(things, &[1, 1, 2, 3, 3, 3]);
}

#[test]
fn reverse_order_input() {
    let mut things: Vec<u64> = (0..50).rev().collect();
    SelectionSort.sort(&mut things);
    let expected: Vec<u64> = (0..50).collect();
    assert_eq!(things, expected);
}

#[test]
fn quicksort_by_value() {
    let unsorted: Vec<u64> = vec![9, 0, 9, 7, 7, 1];
    let sorted = quicksort(unsorted);
    assert_eq!(sorted, &[0, 1, 7, 7, 9, 9]);
}

#[test]
fn std_sorter_really_sorts() {
    let mut things: Vec<u64> = vec![u64::MAX, 0, 17];
    sort(&StdSorter, &mut things);
    assert_eq!(things, &[0, 17, u64::MAX]);
}
