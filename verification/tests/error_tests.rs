use neomacs::error::{wrap_err, NeomacsError};
use neomacs::point::Point;

#[test]
fn wrap_err_passes_success_and_wraps_errors() {
    let ok: Result<u8, std::fmt::Error> = Ok(3);
    assert_eq!(wrap_err(ok).unwrap(), 3);
    let err: Result<u8, std::fmt::Error> = Err(std::fmt::Error);
    assert!(matches!(wrap_err(err), Err(NeomacsError::Unhandled(_))));
}

#[test]
fn points() {
    assert_eq!(Point::new().char_idx, 0);
    assert_eq!(Point::default().char_idx, 0);
    let mut p = Point::at_idx(4);
    assert_eq!(p.char_idx, 4);
    p.set_char_idx(9);
    assert_eq!(p.char_idx, 9);
}
