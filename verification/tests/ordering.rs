use hpx_rs::merge;
use hpx_rs::partial_sort;
use hpx_rs::partial_sort_by;
use hpx_rs::sort;
use hpx_rs::sort_by;
use hpx_rs::HpxError;

#[test]
fn test_hpx_sort() {
    let mut src = vec![5, 2, 8, 1, 9, 3, 7, 6, 4];
    sort(&mut src);
    assert_eq!(src, vec![1, 2, 3, 4, 5, 6, 7, 8, 9]);
}

#[test]
fn test_sort_permutation_with_duplicates() {
    let mut src = vec![3, 1, 3, 2, 1];
    sort(&mut src);
    assert_eq!(src, vec![1, 1, 2, 3, 3]);
    let mut empty: Vec<i32> = Vec::new();
    sort(&mut empty);
    assert!(empty.is_empty());
}

#[test]
fn test_hpx_sort_comp() {
    let mut v = vec![5, 2, 8, 1, 9, 3, 7, 6, 4];
    sort_by(&mut v, |a, b| a > b); // sorting in descending order
    assert_eq!(v, vec![9, 8, 7, 6, 5, 4, 3, 2, 1]);

    // sorting even numbers before odd numbers
    let mut v2 = vec![5, 2, 8, 1, 9, 3, 7, 6, 4];
    sort_by(
        &mut v2,
        |a, b| {
            if a % 2 == b % 2 {
                a < b
            } else {
                a % 2 == 0
            }
        },
    );
    assert_eq!(v2, vec![2, 4, 6, 8, 1, 3, 5, 7, 9]);
}

#[test]
fn test_hpx_merge() {
    let v1 = vec![1, 3, 5, 7, 9, 20, 100];
    let v2 = vec![2, 4, 6, 8, 10, 97];
    let dest = merge(&v1, &v2);
    assert_eq!(dest, vec![1, 2, 3, 4, 5, 6, 7, 8, 9, 10, 20, 97, 100]);
}

#[test]
fn test_merge_stable_on_ties() {
    // equal keys: the left input's copies come first
    let v1 = vec![1, 2, 2];
    let v2 = vec![2, 3];
    let dest = merge(&v1, &v2);
    assert_eq!(dest, vec![1, 2, 2, 2, 3]);
}

#[test]
fn test_merge_with_empty() {
    let v1 = vec![1, 2, 3];
    let empty: Vec<i32> = Vec::new();
    assert_eq!(merge(&v1, &empty), vec![1, 2, 3]);
    assert_eq!(merge(&empty, &v1), vec![1, 2, 3]);
    assert_eq!(merge(&empty, &empty), Vec::<i32>::new());
}

#[test]
fn test_hpx_partial_sort() {
    let mut vec = vec![5, 2, 8, 1, 9, 3, 7, 6, 4];
    let last = 4;
    println!("Before partial sort: {:?}", vec);

    partial_sort(&mut vec, last).unwrap();
    println!("After partial sort: {:?}", vec);

    // If first -> last elements are sorted
    assert!(vec[..last].windows(2).all(|w| w[0] <= w[1]));

    // If ele of sorted part <=  ele of unsorted part
    assert!(vec[..last]
        .iter()
        .all(|&x| vec[last..].iter().all(|&y| x <= y)));
}

#[test]
fn test_hpx_partial_sort_comp() {
    let mut vec = vec![5, 2, 8, 1, 9, 3, 7, 6, 4];
    let last = 4;
    println!("Before partial sort: {:?}", vec);

    partial_sort_by(&mut vec, last, |a, b| b < a).unwrap();
    println!("After partial sort: {:?}", vec);

    // If first -> last elements are sorted dec
    assert!(vec[..last].windows(2).all(|w| w[0] >= w[1]));

    // If ele of sorted part >= ele of unsorted part
    assert!(vec[..last]
        .iter()
        .all(|&x| vec[last..].iter().all(|&y| x >= y)));
}

#[test]
fn test_partial_sort_invalid_range() {
    let mut vec = vec![5, 2, 8];
    let before = vec.clone();
    assert_eq!(partial_sort(&mut vec, 4), Err(HpxError::InvalidRange));
    assert_eq!(vec, before);
    assert_eq!(
        partial_sort_by(&mut vec, 17, |a, b| a < b),
        Err(HpxError::InvalidRange)
    );
    assert_eq!(vec, before);
}

#[test]
fn test_partial_sort_full_range() {
    let mut vec = vec![5, 2, 8, 1];
    partial_sort(&mut vec, 4).unwrap();
    assert_eq!(vec, vec![1, 2, 5, 8]);
    let mut empty: Vec<i32> = Vec::new();
    partial_sort(&mut empty, 0).unwrap();
    assert!(empty.is_empty());
}

#[test]
fn test_sort_then_partial_sort_scenario() {
    let mut s = vec![5, 2, 8, 1, 9, 3, 7, 6, 4];
    sort(&mut s);
    assert_eq!(s, vec![1, 2, 3, 4, 5, 6, 7, 8, 9]);

    let mut p = vec![5, 2, 8, 1, 9, 3, 7, 6, 4];
    partial_sort(&mut p, 4).unwrap();
    assert!(p[..4].windows(2).all(|w| w[0] <= w[1]));
    assert!(p[..4].iter().all(|&x| p[4..].iter().all(|&y| x <= y)));
    assert_eq!(p.len(), 9);
}
