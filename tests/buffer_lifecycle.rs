use hyprland_preview_share_picker::buffer::Buffer;
use hyprland_preview_share_picker::error::Error;

#[test]
fn allocate_valid_geometry() {
    let b = Buffer::new(3, 2, 12, 1).unwrap();
    assert_eq!((b.width(), b.height(), b.stride(), b.format()), (3, 2, 12, 1));
    assert_eq!(b.size(), 24);
    assert_eq!(b.pool_size(), 24);
    assert!(!b.is_destroyed());
}

#[test]
fn get_bytes_returns_whole_region() {
    let b = Buffer::new(3, 2, 12, 1).unwrap();
    let bytes = b.get_bytes(vec![7u8; 24]).unwrap();
    assert_eq!(bytes.len(), 3 * 2 * 4);
}

#[test]
fn get_bytes_after_destroy_fails() {
    let mut b = Buffer::new(3, 2, 12, 1).unwrap();
    b.destroy();
    assert!(b.is_destroyed());
    assert!(matches!(b.get_bytes(vec![0u8; 24]), Err(Error::BufferRead)));
}

#[test]
fn get_bytes_short_read_fails() {
    let b = Buffer::new(3, 2, 12, 1).unwrap();
    assert!(matches!(b.get_bytes(vec![0u8; 23]), Err(Error::BufferRead)));
}

#[test]
fn allocate_rejects_bad_geometry() {
    assert!(matches!(Buffer::new(0, 2, 0, 1), Err(Error::BufferAllocationFailed)));
    assert!(matches!(Buffer::new(2, 0, 8, 1), Err(Error::BufferAllocationFailed)));
    assert!(matches!(Buffer::new(2, 2, 9, 1), Err(Error::BufferAllocationFailed)));
    assert!(matches!(Buffer::new(40000, 40000, 160000, 1), Err(Error::BufferAllocationFailed)));
}

#[test]
fn allocate_largest_pool() {
    // 0x7fff_ffff / 4 pixels rounded down to whole rows of 1 pixel
    let b = Buffer::new(1, 0x1fff_ffff, 4, 0).unwrap();
    assert_eq!(b.pool_size(), 0x7fff_fffc);
    assert!(Buffer::new(1, 0x2000_0000, 4, 0).is_err());
}
