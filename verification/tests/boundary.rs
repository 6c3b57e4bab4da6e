use rust_lib::boundary::{free_string, sum_of_squares};

#[test]
fn handle_holds_digits_and_terminator() {
    let handle = sum_of_squares(&[46341]);
    assert_eq!(handle.as_bytes_with_nul(), b"2147488281\0");
}

#[test]
fn handle_of_nothing_is_zero() {
    let handle = sum_of_squares(&[]);
    assert_eq!(handle.as_bytes_with_nul(), b"0\0");
}

#[test]
fn handle_of_both_extremes() {
    let handle = sum_of_squares(&[i32::MAX, i32::MIN]);
    assert_eq!(handle.as_bytes_with_nul(), b"9223372032559808513\0");
}

#[test]
fn handle_has_one_zero_byte_at_its_end() {
    let handle = sum_of_squares(&[7, -9, i32::MIN, 12345]);
    let bytes = handle.as_bytes_with_nul();
    assert_eq!(bytes.iter().filter(|&&b| b == 0).count(), 1);
    assert_eq!(bytes.last(), Some(&0u8));
}

#[test]
fn handle_gives_its_storage_up() {
    let handle = sum_of_squares(&[1, 2, 3]);
    let seen = handle.as_bytes_with_nul().to_vec();
    let owned = handle.into_bytes_with_nul();
    assert_eq!(owned, seen);
    assert_eq!(owned, b"14\0".to_vec());
}

#[test]
fn release_once_completes() {
    let handle = sum_of_squares(&[46341, -46341]);
    free_string(Some(handle));
}

#[test]
fn release_of_no_handle_does_nothing() {
    free_string(None);
}

#[test]
fn handles_are_independent() {
    let first = sum_of_squares(&[10]);
    let second = sum_of_squares(&[20]);
    free_string(Some(first));
    assert_eq!(second.as_bytes_with_nul(), b"400\0");
    free_string(Some(second));
}
