use mb8::mem::STORAGE_SIZE;
use mb8::storage::{build_storage_image, StorageError};

#[test]
fn test_storage_image_layout() {
    let files = vec![
        (b"a".to_vec(), vec![0xAB; 300]),
        (b"bc".to_vec(), vec![0x01; 10]),
    ];
    let img = build_storage_image(&files).unwrap();
    assert_eq!(img.len(), STORAGE_SIZE as usize);

    // First record: occupied, data in blocks 1-2 (300 bytes round up to
    // two blocks), name "a".
    assert_eq!(&img[0..4], &[1, 1, 2, b'a']);
    assert_eq!(img[4], 0);
    assert_eq!(img[256], 0xAB);
    assert_eq!(img[256 + 299], 0xAB);
    assert_eq!(img[256 + 300], 0);

    // Second record: occupied, one block starting at block 3, name "bc".
    assert_eq!(&img[16..21], &[1, 3, 1, b'b', b'c']);
    assert_eq!(img[3 * 256], 0x01);
    assert_eq!(img[3 * 256 + 9], 0x01);
    assert_eq!(img[3 * 256 + 10], 0);
}

#[test]
fn test_storage_image_empty_file_takes_one_block() {
    let files = vec![(b"e".to_vec(), Vec::new())];
    let img = build_storage_image(&files).unwrap();
    assert_eq!(&img[0..4], &[1, 1, 1, b'e']);
}

#[test]
fn test_storage_image_rejects_long_name() {
    let files = vec![(b"ninechars".to_vec(), vec![1, 2, 3])];
    assert_eq!(build_storage_image(&files), Err(StorageError::NameTooLong));
}

#[test]
fn test_storage_image_rejects_too_many_files() {
    let mut files = Vec::new();
    for i in 0..17u8 {
        files.push((vec![b'f', b'0' + (i % 10)], vec![i]));
    }
    // The first sixteen records fill the directory block; adding one more
    // fails even though its name is unique enough for the machine.
    let mut unique = Vec::new();
    for (i, f) in files.into_iter().enumerate() {
        let mut name = f.0.clone();
        name.push(b'a' + (i as u8 / 10));
        unique.push((name, f.1));
    }
    assert_eq!(
        build_storage_image(&unique),
        Err(StorageError::TooManyFiles)
    );
}

#[test]
fn test_storage_image_rejects_oversized_data() {
    let files = vec![(b"big".to_vec(), vec![0u8; 63 * 256])];
    assert_eq!(build_storage_image(&files), Err(StorageError::ImageFull));
    let files = vec![(b"fits".to_vec(), vec![0x7Fu8; 62 * 256 + 255])];
    let img = build_storage_image(&files).unwrap();
    assert_eq!(&img[0..3], &[1, 1, 63]);
    // The data starts at block 1, so its last byte sits one short of the
    // end of the region.
    assert_eq!(img[STORAGE_SIZE as usize - 2], 0x7F);
    assert_eq!(img[STORAGE_SIZE as usize - 1], 0);
}
