use ringrtc_devices::c_string::{copy_and_truncate_string, CopyError};

/// Verify that extremely long strings are properly truncated and
/// nul-terminated
#[test]
fn copy_and_truncate_long_string() {
    let mut data = vec![0xaau8; 10];
    let src = String::from_iter(['A'; 20]); // longer than data
    let len = data.len();
    copy_and_truncate_string(&src, Some(&mut data), len).unwrap();
    let mut expected = vec![0x41u8; 9]; // 'A'
    expected.push(0);
    assert_eq!(data, expected);
}

/// Ensure that we do not read past the end of `src`
#[test]
fn copy_and_truncate_short_string() {
    let mut data = vec![0xaau8; 10];
    let src = String::from_iter(['A'; 4]); // shorter than data
    let len = data.len();
    copy_and_truncate_string(&src, Some(&mut data), len).unwrap();
    let expected = vec![0x41u8, 0x41, 0x41, 0x41, 0x0, 0xaa, 0xaa, 0xaa, 0xaa, 0xaa];
    assert_eq!(data, expected);
}

/// Check for off-by-one errors
#[test]
fn copy_and_truncate_max_len_string() {
    let mut data = vec![0xaau8; 10];
    let src = String::from_iter(['A'; 10]); // equal length to data
    let len = data.len();
    copy_and_truncate_string(&src, Some(&mut data), len).unwrap();
    let mut expected = vec![0x41u8; 9]; // 'A'
    expected.push(0);
    assert_eq!(data, expected);
}

/// Check for off-by-one errors
#[test]
fn copy_and_truncate_barely_short_string() {
    let mut data = vec![0xaau8; 10];
    let src = String::from_iter(['A'; 9]); // one shorter than data
    let len = data.len();
    copy_and_truncate_string(&src, Some(&mut data), len).unwrap();
    let mut expected = vec![0x41u8; 9]; // 'A'
    expected.push(0);
    assert_eq!(data, expected);
}

/// Check for overwrite errors
#[test]
fn copy_no_overwrite() {
    let mut data = vec![0xaau8; 10];
    let src = String::from_iter(['A'; 20]); // longer than data
    // State that data has one fewer byte than it actually does to make sure
    // the function doesn't write past the end.
    let len = data.len() - 1;
    copy_and_truncate_string(&src, Some(&mut data), len).unwrap();
    let mut expected = vec![0x41u8; 8]; // 'A'
    expected.push(0);
    expected.push(0xaa);
    assert_eq!(data, expected);
}

/// Verify that a string with internal nul characters is handled gracefully.
#[test]
fn string_with_nuls() {
    let mut data = vec![0xaau8; 10];
    let src = "a\0b";
    let len = data.len() - 1;
    assert!(copy_and_truncate_string(src, Some(&mut data), len).is_err());
    // data should be untouched
    assert_eq!(data, vec![0xaau8; 10]);
}

/// Verify that a null dest pointer is handled gracefully
#[test]
fn null_ptr() {
    let src = "AA";
    assert!(copy_and_truncate_string(src, None, 5).is_err());
}

#[test]
fn copy_errors_tell_why() {
    let mut data = vec![0xaau8; 10];
    assert_eq!(
        copy_and_truncate_string("a\0b\0", Some(&mut data), 10),
        Err(CopyError::InteriorNul(1))
    );
    // Two bytes are left for a character that takes three.
    assert_eq!(
        copy_and_truncate_string("你", Some(&mut data), 3),
        Err(CopyError::SplitCharacter)
    );
    assert_eq!(copy_and_truncate_string("AA", None, 5), Err(CopyError::NullDestination));
    // The text is looked at before the buffer is.
    assert_eq!(copy_and_truncate_string("你", None, 3), Err(CopyError::SplitCharacter));
    assert_eq!(copy_and_truncate_string("\0", None, 3), Err(CopyError::InteriorNul(0)));
    assert_eq!(data, vec![0xaau8; 10]);
}

#[test]
fn nul_past_the_cut_is_not_copied() {
    let mut data = vec![0xaau8; 4];
    assert_eq!(copy_and_truncate_string("abc\0d", Some(&mut data), 4), Ok(()));
    assert_eq!(data, b"abc\0".to_vec());
}

#[test]
fn buffer_of_one_byte_holds_the_terminator() {
    let mut data = vec![0xaau8; 2];
    assert_eq!(copy_and_truncate_string("abc", Some(&mut data), 1), Ok(()));
    assert_eq!(data, vec![0, 0xaa]);
}

#[test]
fn characters_that_fit_are_copied_whole() {
    let mut data = vec![0xaau8; 8];
    assert_eq!(copy_and_truncate_string("你好", Some(&mut data), 7), Ok(()));
    assert_eq!(data, vec![0xe4, 0xbd, 0xa0, 0xe5, 0xa5, 0xbd, 0, 0xaa]);
}
