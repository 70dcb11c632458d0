use swf_emitter::bit_count::{get_i32_bit_count, get_i32_min_bit_count, get_u32_bit_count, get_u32_min_bit_count};

#[test]
fn test_get_u32_bit_count() {
    assert_eq!(get_u32_bit_count(0), 0);
    assert_eq!(get_u32_bit_count(1), 1);
    assert_eq!(get_u32_bit_count(2), 2);
    assert_eq!(get_u32_bit_count(3), 2);
    assert_eq!(get_u32_bit_count(4), 3);
    assert_eq!(get_u32_bit_count(5), 3);
    assert_eq!(get_u32_bit_count(7), 3);
    assert_eq!(get_u32_bit_count(8), 4);
    assert_eq!(get_u32_bit_count(15), 4);
    assert_eq!(get_u32_bit_count(16), 5);
    assert_eq!(get_u32_bit_count(2147483647), 31);
}

#[test]
fn test_get_i32_bit_count() {
    assert_eq!(get_i32_bit_count(0), 0);
    assert_eq!(get_i32_bit_count(1), 2);
    assert_eq!(get_i32_bit_count(2), 3);
    assert_eq!(get_i32_bit_count(3), 3);
    assert_eq!(get_i32_bit_count(4), 4);
    assert_eq!(get_i32_bit_count(5), 4);
    assert_eq!(get_i32_bit_count(7), 4);
    assert_eq!(get_i32_bit_count(8), 5);
    assert_eq!(get_i32_bit_count(15), 5);
    assert_eq!(get_i32_bit_count(16), 6);
    assert_eq!(get_i32_bit_count(2147483647), 32);
    assert_eq!(get_i32_bit_count(-1), 1);
    assert_eq!(get_i32_bit_count(-2), 2);
    assert_eq!(get_i32_bit_count(-3), 3);
    assert_eq!(get_i32_bit_count(-4), 3);
    assert_eq!(get_i32_bit_count(-5), 4);
    assert_eq!(get_i32_bit_count(-2147483648), 32);
}

#[test]
fn test_get_u32_min_bit_count() {
    assert_eq!(get_u32_min_bit_count(&[]), 0);
    assert_eq!(get_u32_min_bit_count(&[0]), 0);
    assert_eq!(get_u32_min_bit_count(&[0, 0]), 0);
    assert_eq!(get_u32_min_bit_count(&[1]), 1);
    assert_eq!(get_u32_min_bit_count(&[1, 1]), 1);
    assert_eq!(get_u32_min_bit_count(&[0, 1]), 1);
    assert_eq!(get_u32_min_bit_count(&[1, 0]), 1);
    assert_eq!(get_u32_min_bit_count(&[0, 0, 2, 3]), 2);
    assert_eq!(get_u32_min_bit_count(&[4, 0, 2, 3]), 3);
    assert_eq!(get_u32_min_bit_count(&[2, 1, 2]), 2);
    assert_eq!(get_u32_min_bit_count(&[2147483647, 3, 0, 1000]), 31);
}

#[test]
fn test_get_i32_min_bit_count() {
    assert_eq!(get_i32_min_bit_count(&[]), 0);
    assert_eq!(get_i32_min_bit_count(&[0]), 0);
    assert_eq!(get_i32_min_bit_count(&[-1]), 1);
    assert_eq!(get_i32_min_bit_count(&[0, -1]), 1);
    assert_eq!(get_i32_min_bit_count(&[-1, 0]), 1);
    assert_eq!(get_i32_min_bit_count(&[16, 0, -5]), 6);
    assert_eq!(get_i32_min_bit_count(&[2147483647, -2147483648]), 32);
}
