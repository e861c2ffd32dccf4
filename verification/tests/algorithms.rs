use hpx_rs::copy_if;
use hpx_rs::copy_if_divisiblileityby3;
use hpx_rs::copy_n;
use hpx_rs::copy_vector;
use hpx_rs::count;
use hpx_rs::count_if;
use hpx_rs::ends_with;
use hpx_rs::equal;
use hpx_rs::fill;
use hpx_rs::find;
use hpx_rs::find_index;

#[test]
fn test_hpx_copy() {
    let src = vec![1, 2, 3, 4, 5];
    let result = copy_vector(&src);
    assert_eq!(src, result);
}

#[test]
fn test_hpx_copy_range() {
    let src = vec![1, 2, 3, 4, 5];
    let result = copy_vector(&src[0..3]);
    assert_eq!(&src[0..3], &result[..]);
}

#[test]
fn test_copy_vector_empty() {
    let src: Vec<i32> = Vec::new();
    let result = copy_vector(&src);
    assert!(result.is_empty());
}

#[test]
fn test_copy_n() {
    let src = vec![1, 2, 3, 4, 5, 6, 7, 8, 9, 10];
    match copy_n(&src, 5) {
        Ok(result) => assert_eq!(result, vec![1, 2, 3, 4, 5]),
        Err(e) => panic!("Unexpected error: {}", e),
    }

    match copy_n(&src, 15) {
        // expecting error
        Ok(_) => panic!("Expected error, but got Ok"),
        Err(e) => assert_eq!(e, "count larger than source slice length"),
    }
}

#[test]
fn test_copy_n_bounds() {
    let src = vec![4, 5, 6];
    assert_eq!(copy_n(&src, 0).unwrap(), Vec::<i32>::new());
    assert_eq!(copy_n(&src, 3).unwrap(), vec![4, 5, 6]);
    assert!(copy_n(&src, 4).is_err());
}

#[test]
fn test_hpx_copy_if() {
    let src = vec![0, 1, 2, 3, 4, 5, 6, 7, 8, 9, 10, 11, 12];
    let result = copy_if_divisiblileityby3(&src);
    assert_eq!(result, vec![0, 3, 6, 9, 12]);
}

#[test]
fn test_copy_if_preserves_order() {
    let src = vec![10, 11, 12, 9, 2];
    let result = copy_if(&src, |x| x % 2 == 0);
    assert_eq!(result, vec![10, 12, 2]);
    let none = copy_if(&src, |_x| false);
    assert!(none.is_empty());
    let all = copy_if(&src, |_x| true);
    assert_eq!(all, src);
}

#[test]
fn test_copy_if_negative_multiples() {
    let src = vec![-9, -4, -3, 0, 5, 6];
    let result = copy_if_divisiblileityby3(&src);
    assert_eq!(result, vec![-9, -3, 0, 6]);
}

#[test]
fn test_hpx_count() {
    let vec = vec![1, 2, 3, 2, 4, 2, 5, 2];
    let result = count(&vec, 2);
    assert_eq!(result, 4);
}

#[test]
fn test_hpx_count_if() {
    let vec = vec![1, 2, 3, 4, 5, 6, 7, 8, 9, 10];
    let result_even = count_if(&vec, |x| x % 2 == 0);
    assert_eq!(result_even, 5);
    let result_greater_than_5 = count_if(&vec, |x| x > 5);
    assert_eq!(result_greater_than_5, 5);
    let is_prime = |n: i32| {
        if n <= 1 {
            return false;
        }
        for i in 2..=(n as f64).sqrt() as i32 {
            if n % i == 0 {
                return false;
            }
        }
        true
    };
    let result_prime = count_if(&vec, is_prime);
    assert_eq!(result_prime, 4);
}

#[test]
fn test_count_matches_count_if() {
    let vec = vec![1, 2, 3, 2, 4, 2, 5, 2];
    assert_eq!(count(&vec, 2), count_if(&vec, |x| x == 2));
    assert_eq!(count(&vec, 7), count_if(&vec, |x| x == 7));
    let empty: Vec<i32> = Vec::new();
    assert_eq!(count(&empty, 2), count_if(&empty, |x| x == 2));
}

#[test]
fn test_hpx_ends_with() {
    let v1 = vec![1, 2, 3, 4, 5, 6, 7, 8, 9, 10];
    let v2 = vec![8, 9, 10];
    let v3 = vec![7, 8, 9];
    let v4 = vec![1, 2, 3, 4, 5, 6, 7, 8, 9, 10];
    let v5: Vec<i32> = vec![];

    // passing vectors
    assert!(ends_with(&v1, &v2));
    assert!(!ends_with(&v1, &v3));
    assert!(ends_with(&v1, &v4));
    assert!(ends_with(&v1, &v5));
    assert!(ends_with(&v5, &v5));

    // passing slices
    assert!(ends_with(&v1[5..], &v2));
    assert!(ends_with(&v1[..], &v1[8..]));
    assert!(!ends_with(&v1[..5], &v2));
    assert!(ends_with(&v1[..5], &v1[3..5]));

    assert!(ends_with(&v1, &[]));
    assert!(ends_with(&[], &[]));
}

#[test]
fn test_ends_with_longer_suffix() {
    let short = vec![2, 3];
    let long = vec![1, 2, 3];
    assert!(!ends_with(&short, &long));
}

#[test]
fn test_hpx_equal() {
    let v1 = vec![1, 2, 3, 4, 5];
    let v2 = vec![1, 2, 3, 4, 5];
    let v3 = vec![1, 2, 3, 4, 6];
    let v4 = vec![1, 2, 3, 4];
    let v5 = vec![0, 1, 2, 3, 4, 5, 6];

    // passing vectors
    assert!(equal(&v1, &v2));
    assert!(!equal(&v1, &v3));
    assert!(!equal(&v1, &v4));

    // passing slices
    assert!(equal(&v1[..], &v2[..]));
    assert!(equal(&v1[1..4], &v2[1..4]));
    assert!(equal(&v1[..3], &v4[..3]));
    assert!(equal(&v1[..], &v5[1..6]));

    assert!(equal(&v1, &v5[1..6]));
    assert!(!equal(&v1[..4], &v3));
}

#[test]
fn test_equal_reflexive_symmetric() {
    let v1 = vec![1, 2, 3];
    let v2 = vec![1, 2, 4];
    let empty: Vec<i32> = Vec::new();
    assert!(equal(&v1, &v1));
    assert!(equal(&empty, &empty));
    assert_eq!(equal(&v1, &v2), equal(&v2, &v1));
}

#[test]
fn test_hpx_fill() {
    let mut v = vec![0; 10];
    fill(&mut v, 42);
    assert!(v.iter().all(|&x| x == 42));

    let mut v2 = vec![0; 1_000_000]; // testing on a long vector
    fill(&mut v2, 7);
    assert!(v2.iter().all(|&x| x == 7));

    let mut v3: Vec<i32> = Vec::new();
    fill(&mut v3, 100);
    assert!(v3.is_empty());
}

#[test]
fn test_hpx_find() {
    let v = vec![1, 2, 3, 4, 5, 6, 7, 8, 9, 10];

    let result = find(&v, 5); // finding existing value
    assert_eq!(result, Some(4));

    let result = find(&v, 11); // finding non-existing value
    assert_eq!(result, None);

    let result = find(&v, 1);
    assert_eq!(result, Some(0));

    let result = find(&v, 10);
    assert_eq!(result, Some(9));
}

#[test]
fn test_find_index_sentinel() {
    let v = vec![6, 2, 6, 2];
    assert_eq!(find_index(&v, 6), 0);
    assert_eq!(find_index(&v, 2), 1);
    assert_eq!(find_index(&v, 9), -1);
    let empty: Vec<i32> = Vec::new();
    assert_eq!(find_index(&empty, 6), -1);
}
