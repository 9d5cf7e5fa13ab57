use redox_core::slicing::GetSlice;

#[test]
fn slice_within_bounds_matches_range() {
    let v = [1, 2, 3, 4, 5];
    assert_eq!(v[..].get_slice(Some(1), Some(3)), &v[1..3]);
    assert_eq!(v[..].get_slice(Some(2), None), &v[2..]);
    assert_eq!(v[..].get_slice(None, Some(4)), &v[..4]);
    assert_eq!(v[..].get_slice(None, None), &v[..]);
}

#[test]
fn slice_bounds_are_clamped() {
    let v = [10, 20, 30];
    assert_eq!(v[..].get_slice(Some(1), Some(100)), &[20, 30]);
    assert_eq!(v[..].get_slice(Some(7), None), &[] as &[i32]);
    assert_eq!(v[..].get_slice(None, Some(9)), &[10, 20, 30]);
}

#[test]
fn slice_empty_when_start_not_below_end() {
    let v = [1, 2, 3, 4];
    assert_eq!(v[..].get_slice(Some(3), Some(1)), &[] as &[i32]);
    assert_eq!(v[..].get_slice(Some(2), Some(2)), &[] as &[i32]);
    let e: [u8; 0] = [];
    assert_eq!(e[..].get_slice(None, None), &[] as &[u8]);
}

#[test]
fn str_slice_by_byte_offsets() {
    let s = "hello world";
    assert_eq!(s.get_slice(Some(0), Some(5)), "hello");
    assert_eq!(s.get_slice(Some(6), None), "world");
    assert_eq!(s.get_slice(None, Some(4)), "hell");
    assert_eq!(s.get_slice(Some(3), Some(300)), "lo world");
    assert_eq!(s.get_slice(Some(5), Some(2)), "");
    assert_eq!(s.get_slice(Some(50), Some(60)), "");
}

#[test]
fn str_slice_multibyte_on_boundaries() {
    let s = "aé€b";
    // a: 1 byte, é: 2 bytes, €: 3 bytes, b: 1 byte
    assert_eq!(s.get_slice(Some(1), Some(3)), "é");
    assert_eq!(s.get_slice(Some(3), None), "€b");
    assert_eq!(s.get_slice(None, Some(6)), "aé€");
}
