use sprite_render::{check_dimensions, check_gl_version, parse_version_number, Error};

#[test]
fn parse_version_strings() {
    assert_eq!(parse_version_number(b"4.6.0 NVIDIA 535.113.01"), Some((4, 6)));
    assert_eq!(parse_version_number(b"OpenGL ES 3.2 Mesa 23.0"), Some((3, 2)));
    assert_eq!(parse_version_number(b"2.1"), Some((2, 1)));
    assert_eq!(parse_version_number(b"10 5"), Some((10, 5)));
    assert_eq!(parse_version_number(b"007.08x"), Some((7, 8)));
    assert_eq!(parse_version_number(b"3"), None);
    assert_eq!(parse_version_number(b"3."), None);
    assert_eq!(parse_version_number(b"300.1"), None);
    assert_eq!(parse_version_number(b"3.256"), None);
    assert_eq!(parse_version_number(b"abc"), None);
    assert_eq!(parse_version_number(b""), None);
}

#[test]
fn gl_version_check() {
    assert!(matches!(check_gl_version(None), Err(Error::CouldNotQueryVersion)));
    assert!(matches!(check_gl_version(Some(b"garbage")), Err(Error::CouldNotQueryVersion)));
    assert!(matches!(check_gl_version(Some(b"1.5")), Err(Error::UnsupportedOpenGlVersion)));
    assert!(matches!(check_gl_version(Some(b"2.0")), Ok(2)));
    assert!(matches!(check_gl_version(Some(b"4.6.0")), Ok(4)));
}

#[test]
fn surface_dimensions_check() {
    assert!(check_dimensions(800, 600).is_ok());
    assert!(matches!(check_dimensions(0, 600), Err(Error::BadDimensions)));
    assert!(matches!(check_dimensions(800, 0), Err(Error::BadDimensions)));
}
