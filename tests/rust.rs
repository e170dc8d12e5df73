use std::mem;
use std::num::NonZero;

use meadows::math::some_math_function;
use meadows::TEXT_WIDTH;

#[test]
fn test_rust_test_div_i32() {
    assert_eq!(1 / 2, 0);
    assert_eq!(3 / 2, 1);
}

#[test]
fn test_size_of_option() {
    assert_eq!(mem::size_of::<i32>(), 4);
    assert_eq!(mem::size_of::<Option<i32>>(), 8);
    assert_eq!(mem::size_of::<Option<NonZero<i32>>>(), 4);

    let size_of_usize = mem::size_of::<usize>();

    assert_eq!(mem::size_of::<Box<i32>>(), size_of_usize);
    assert_eq!(mem::size_of::<Option<Box<i32>>>(), size_of_usize);
}

#[test]
fn test_std_test_div_i32() {
    assert_eq!(1 / 2, 0);
    assert_eq!(3 / 2, 1);
}

#[test]
fn test_std_mem_size_of() {
    assert_eq!(mem::size_of::<i32>(), 4);
    assert_eq!(mem::size_of::<Option<i32>>(), 8);
    assert_eq!(mem::size_of::<Option<NonZero<i32>>>(), 4);

    let size_of_usize = mem::size_of::<usize>();

    assert_eq!(mem::size_of::<Box<i32>>(), size_of_usize);
    assert_eq!(mem::size_of::<Option<Box<i32>>>(), size_of_usize);
}

#[test]
fn text_width_and_math_function() {
    some_math_function();
    assert_eq!(TEXT_WIDTH, 110);
}
