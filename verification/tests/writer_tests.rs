use dl_nzb::writer::FileImage;

#[test]
fn allocation_gives_zeros_of_the_full_size() {
    let image = FileImage::allocate(10);
    assert_eq!(image.len(), 10);
    assert_eq!(image.bytes, vec![0u8; 10]);
    assert_eq!(FileImage::allocate(0).len(), 0);
}

#[test]
fn write_lands_at_its_offset() {
    let mut image = FileImage::allocate(10);
    assert!(image.write_at(3, b"abc"));
    assert_eq!(image.bytes, b"\0\0\0abc\0\0\0\0".to_vec());
    assert_eq!(image.len(), 10);
}

#[test]
fn writes_in_any_order_give_the_same_file() {
    let mut forward = FileImage::allocate(9);
    forward.write_at(0, b"aaa");
    forward.write_at(3, b"bbb");
    forward.write_at(6, b"ccc");
    let mut backward = FileImage::allocate(9);
    backward.write_at(6, b"ccc");
    backward.write_at(3, b"bbb");
    backward.write_at(0, b"aaa");
    assert_eq!(forward.bytes, b"aaabbbccc".to_vec());
    assert_eq!(forward.bytes, backward.bytes);
}

#[test]
fn unwritten_slot_stays_zero() {
    let mut image = FileImage::allocate(9);
    image.write_at(0, b"aaa");
    image.write_at(6, b"ccc");
    assert_eq!(image.bytes, b"aaa\0\0\0ccc".to_vec());
}

#[test]
fn short_segment_leaves_the_rest_of_its_slot() {
    let mut image = FileImage::allocate(6);
    image.write_at(0, b"ab");
    image.write_at(3, b"xyz");
    assert_eq!(image.bytes, b"ab\0xyz".to_vec());
}

#[test]
fn write_beyond_the_end_extends_with_zeros() {
    let mut image = FileImage::allocate(2);
    assert!(image.write_at(4, b"zz"));
    assert_eq!(image.bytes, b"\0\0\0\0zz".to_vec());
    let mut image = FileImage::allocate(2);
    assert!(image.write_at(1, b"xyz"));
    assert_eq!(image.bytes, b"\0xyz".to_vec());
}

#[test]
fn empty_write_changes_nothing() {
    let mut image = FileImage::allocate(3);
    assert!(image.write_at(100, b""));
    assert_eq!(image.bytes, vec![0u8; 3]);
}

#[test]
fn write_that_cannot_be_addressed_is_refused() {
    let mut image = FileImage::allocate(3);
    assert!(!image.write_at(usize::MAX, b"ab"));
    assert_eq!(image.bytes, vec![0u8; 3]);
}

#[test]
fn single_segment_file_is_its_data() {
    let data = b"the whole file".to_vec();
    let mut image = FileImage::allocate(data.len());
    image.write_at(0, &data);
    assert_eq!(image.bytes, data);
}
