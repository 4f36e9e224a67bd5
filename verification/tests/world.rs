use psx_raster::world::{validate_texture_ref, Direction, TextureRef, TextureRefError, MAX_STRING_LEN};

#[test]
fn a_reference_needs_both_names() {
    assert!(TextureRef::new("SAMPLE".to_string(), "floor_01".to_string()).is_valid());
    assert!(!TextureRef::new(String::new(), "floor_01".to_string()).is_valid());
    assert!(!TextureRef::new("SAMPLE".to_string(), String::new()).is_valid());
    assert!(!TextureRef::none().is_valid());
    assert!(!TextureRef::default().is_valid());
    assert_eq!(TextureRef::none(), TextureRef::new(String::new(), String::new()));
    let t = TextureRef::new("a".to_string(), "b".to_string());
    assert_eq!((t.pack.as_str(), t.name.as_str()), ("a", "b"));
}

#[test]
fn names_may_be_as_long_as_the_limit() {
    assert_eq!(MAX_STRING_LEN, 256);
    let at = "x".repeat(256);
    let over = "x".repeat(257);
    assert_eq!(validate_texture_ref(&TextureRef::new(at.clone(), at.clone())), Ok(()));
    assert_eq!(validate_texture_ref(&TextureRef::none()), Ok(()));
    assert_eq!(
        validate_texture_ref(&TextureRef::new(over.clone(), at.clone())),
        Err(TextureRefError::PackNameTooLong { len: 257 })
    );
    assert_eq!(
        validate_texture_ref(&TextureRef::new(at.clone(), over.clone())),
        Err(TextureRefError::NameTooLong { len: 257 })
    );
    // The pack name is looked at first.
    assert_eq!(
        validate_texture_ref(&TextureRef::new("y".repeat(300), over)),
        Err(TextureRefError::PackNameTooLong { len: 300 })
    );
}

#[test]
fn length_is_counted_in_bytes() {
    // 129 two-byte letters are 258 bytes.
    let wide = "é".repeat(129);
    assert_eq!(wide.chars().count(), 129);
    assert_eq!(
        validate_texture_ref(&TextureRef::new("p".to_string(), wide)),
        Err(TextureRefError::NameTooLong { len: 258 })
    );
    assert_eq!(validate_texture_ref(&TextureRef::new("p".to_string(), "é".repeat(128))), Ok(()));
}

#[test]
fn directions() {
    assert_eq!(Direction::North.opposite(), Direction::South);
    assert_eq!(Direction::East.opposite(), Direction::West);
    assert_eq!(Direction::South.opposite(), Direction::North);
    assert_eq!(Direction::West.opposite(), Direction::East);
    assert_eq!(Direction::North.offset(), (0, -1));
    assert_eq!(Direction::East.offset(), (1, 0));
    assert_eq!(Direction::South.offset(), (0, 1));
    assert_eq!(Direction::West.offset(), (-1, 0));
    for d in [Direction::North, Direction::East, Direction::South, Direction::West] {
        assert_eq!(d.opposite().opposite(), d);
        let (x, z) = d.offset();
        assert_eq!(d.opposite().offset(), (-x, -z));
    }
}
