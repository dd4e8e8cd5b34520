use vtpm::bytes::{
    append, copy_range, overwrite, push_be, push_le, push_zeros, read_be, read_le, wrapping_sum,
    zeroed,
};

#[test]
fn byte_order() {
    let mut v = vec![9];
    push_le(&mut v, 0x0102_0304, 4);
    assert_eq!(v, vec![9, 4, 3, 2, 1]);
    push_be(&mut v, 0x0102_0304, 3);
    assert_eq!(v, vec![9, 4, 3, 2, 1, 2, 3, 4]);
    assert_eq!(read_le(&[4, 3, 2, 1]), 0x0102_0304);
    assert_eq!(read_be(&[4, 3, 2, 1]), 0x0403_0201);
    assert_eq!(read_le(&[0xFF; 8]), u64::MAX);
    assert_eq!(read_be(&[0xFF; 8]), u64::MAX);
    assert_eq!(read_le(&[]), 0);
}

#[test]
fn ranges() {
    let mut v = vec![1, 2, 3, 4, 5];
    overwrite(&mut v, 1, &vec![7, 8]);
    assert_eq!(v, vec![1, 7, 8, 4, 5]);
    assert_eq!(copy_range(&v, 2, 3), vec![8, 4, 5]);
    append(&mut v, &[6]);
    push_zeros(&mut v, 2);
    assert_eq!(v, vec![1, 7, 8, 4, 5, 6, 0, 0]);
    assert_eq!(zeroed(3), vec![0, 0, 0]);
    assert_eq!(wrapping_sum(&[200, 100, 1]), 45);
}
