use std::collections::HashSet;

use meadows::collections::Identity;
use meadows::collections::DecimalKey;
use meadows::collections::Uvec;
use meadows::vec::VecExt;

#[test]
fn test_uvec_clear() {
    let mut uvec = Uvec::from_vec(vec![1, 2, 3, 2, 1]);
    assert_eq!(uvec.len(), 3);
    uvec.clear();
    assert_eq!(uvec.len(), 0);
    assert_eq!(uvec.keys().len(), 0);
    assert_eq!(uvec.as_slice().len(), 0);
}

#[test]
fn test_uvec_is_empty() {
    let mut uvec = Uvec::from_vec(vec![1, 2, 3, 2, 1]);
    assert!(!uvec.is_empty());
    uvec.clear();
    assert!(uvec.is_empty());
}

#[test]
fn test_uvec_new() {
    let mut uvec = Uvec::new();
    assert!(uvec.push(1));
    assert!(uvec.push(2));
    assert!(uvec.push(3));
    assert!(!uvec.push(2));
    assert!(!uvec.push(1));

    assert_eq!(uvec.keys().iter().copied().collect::<HashSet<i32>>(), HashSet::from([1, 2, 3]));
    assert_eq!(uvec.as_slice().to_vec(), vec![1, 2, 3]);
}

#[test]
fn test_uvec_with_key_to_string() {
    let mut uvec = Uvec::with_key(DecimalKey);
    assert!(uvec.push(1));
    assert!(uvec.push(2));
    assert!(uvec.push(3));
    assert!(!uvec.push(2));
    assert!(!uvec.push(1));

    assert_eq!(
        uvec.keys().iter().cloned().collect::<HashSet<String>>(),
        HashSet::from(["1".to_string(), "2".to_string(), "3".to_string()])
    );
    assert_eq!(uvec.as_slice().to_vec(), vec![1, 2, 3]);
}

#[test]
fn test_as_ref_slice_for_uvec() {
    let uvec = Uvec::from_vec(vec![1, 2, 3, 2, 1]);
    let other: &[i32] = uvec.as_ref();
    assert_eq!(other, &[1, 2, 3]);
}

#[test]
fn test_as_ref_vec_for_uvec() {
    let uvec = Uvec::from_vec(vec![1, 2, 3, 2, 1]);
    let other: &Vec<i32> = uvec.as_ref();
    assert_eq!(other, &[1, 2, 3]);
}

#[test]
fn test_debug_for_uvec() {
    let uvec = Uvec::from_vec(vec![1, 2, 3, 2, 1]);
    assert_eq!(format!("{:?}", uvec.as_slice()), "[1, 2, 3]");
}

#[test]
fn test_deref_for_uvec() {
    let uvec = Uvec::from_vec(vec![1, 2, 3, 2, 1]);
    let other: &[i32] = &uvec;
    assert_eq!(other, &[1, 2, 3]);
}

#[test]
fn test_from_iter_for_uvec() {
    let uvec: Uvec<i32, i32, Identity> = Uvec::from_vec([1, 2, 3, 2, 1].into_iter().collect());
    assert_eq!(uvec.into_vec(), vec![1, 2, 3]);
}

#[test]
fn test_index_for_uvec() {
    let uvec = Uvec::from_vec(vec![1, 2, 3, 2, 1]);
    assert_eq!(uvec[0], 1);
    assert_eq!(uvec[0..3], [1, 2, 3]);
}

#[allow(clippy::explicit_counter_loop)]
#[test]
fn test_into_iter_for_uvec() {
    let uvec = Uvec::from_vec(vec![1, 2, 3, 2, 1]);
    assert_eq!(uvec.len(), 3);
    let mut n = 0;
    for item in uvec {
        match n {
            0 => assert_eq!(item, 1),
            1 => assert_eq!(item, 2),
            _ => assert_eq!(item, 3),
        }
        n += 1;
    }
}

#[allow(clippy::explicit_counter_loop)]
#[test]
fn test_into_iter_for_ref_uvec() {
    let uvec = Uvec::from_vec(vec![1, 2, 3, 2, 1]);
    assert_eq!(uvec.len(), 3);
    let mut n = 0;
    for item in &uvec {
        match n {
            0 => assert_eq!(item, &1),
            1 => assert_eq!(item, &2),
            _ => assert_eq!(item, &3),
        }
        n += 1;
    }
}

#[test]
fn extend_keeps_first_occurrences_in_order() {
    let mut uvec = Uvec::new();
    uvec.extend(vec![1, 2, 3, 2, 1]);
    assert_eq!(uvec.as_slice(), &[1, 2, 3]);
    uvec.extend(vec![4, 3, 5, 4]);
    assert_eq!(uvec.as_slice(), &[1, 2, 3, 4, 5]);
}

#[test]
fn extend_of_nothing_keeps_nothing() {
    let mut uvec: Uvec<i32, i32, Identity> = Uvec::new();
    uvec.extend(Vec::new());
    assert!(uvec.is_empty());
}

#[test]
fn decimal_keys_of_integers() {
    let mut uvec = Uvec::with_key(DecimalKey);
    uvec.extend(vec![10, -3, 10, 7, -3]);
    assert_eq!(uvec.as_slice(), &[10, -3, 7]);
    assert_eq!(uvec.keys(), &["10".to_string(), "-3".to_string(), "7".to_string()]);
}

#[test]
fn push_then_pop_gives_back_a_new_value() {
    let mut uvec = Uvec::from_vec(vec![1, 2]);
    assert!(uvec.push(3));
    assert_eq!(uvec.pop(), Some(3));
    assert_eq!(uvec.as_slice(), &[1, 2]);
}

#[test]
fn push_then_pop_of_a_present_key_gives_the_last_element() {
    let mut uvec = Uvec::from_vec(vec![1, 2]);
    assert!(!uvec.push(1));
    assert_eq!(uvec.pop(), Some(2));
    assert_eq!(uvec.as_slice(), &[1]);
}

#[test]
fn pop_of_empty_gives_none() {
    let mut uvec: Uvec<i32, i32, Identity> = Uvec::default();
    assert_eq!(uvec.pop(), None);
    let mut uvec = Uvec::from_vec(vec![1, 2, 3, 2, 1]);
    assert_eq!(uvec.pop(), Some(3));
    assert_eq!(uvec.pop(), Some(2));
    assert_eq!(uvec.pop(), Some(1));
    assert_eq!(uvec.pop(), None);
}

#[test]
fn remove_frees_the_key() {
    let mut uvec = Uvec::from_vec(vec![1, 2, 3]);
    assert!(!uvec.push(2));
    assert_eq!(uvec.remove(1), 2);
    assert_eq!(uvec.as_slice(), &[1, 3]);
    assert!(uvec.push(2));
    assert_eq!(uvec.as_slice(), &[1, 3, 2]);
    assert_eq!(uvec.keys(), &[1, 3, 2]);
}

#[test]
fn insert_shifts_and_refuses_duplicates() {
    let mut uvec = Uvec::new();
    assert!(uvec.insert(0, 3));
    assert!(uvec.insert(0, 2));
    assert!(uvec.insert(0, 1));
    assert_eq!(uvec.as_slice(), &[1, 2, 3]);
    assert!(!uvec.insert(1, 3));
    assert!(uvec.insert(3, 4));
    assert_eq!(uvec.as_slice(), &[1, 2, 3, 4]);
    assert_eq!(uvec.keys(), &[1, 2, 3, 4]);
}

#[test]
fn string_values_are_their_own_keys() {
    let mut uvec = Uvec::new();
    assert!(uvec.push("hello".to_string()));
    assert!(!uvec.push("hello".to_string()));
    assert!(uvec.push("world".to_string()));
    assert_eq!(uvec.len(), 2);
}

#[test]
fn dedup_all_by_key_keeps_first_of_each_key() {
    let mut v = vec![1, 2, 3, 2, 1];
    v.dedup_all_by_key(Identity);
    assert_eq!(v, vec![1, 2, 3]);
    let mut w = vec![5, 4, 6, 4, 5, 8];
    w.dedup_all_by_key(DecimalKey);
    assert_eq!(w, vec![5, 4, 6, 8]);
}

#[test]
fn equality_and_order_follow_the_elements() {
    let a = Uvec::from_vec(vec![1, 2, 3, 2, 1]);
    let b = Uvec::from_vec(vec![1, 2, 3]);
    let c = Uvec::from_vec(vec![1, 3]);
    assert!(a == b);
    assert!(a != c);
    assert!(a < c);
    assert!(Uvec::from_vec(vec![1, 2]) < a);
    assert_eq!(a.partial_cmp(&b), Some(std::cmp::Ordering::Equal));
    assert_eq!(c.partial_cmp(&a), Some(std::cmp::Ordering::Greater));
}

#[test]
fn decimal_keys_of_extreme_integers() {
    let mut uvec = Uvec::with_key(DecimalKey);
    uvec.extend(vec![i32::MIN, 0, i32::MAX, 0]);
    assert_eq!(uvec.keys(), &["-2147483648".to_string(), "0".to_string(), "2147483647".to_string()]);
}
