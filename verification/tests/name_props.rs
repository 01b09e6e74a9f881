use avif2png::name::try_output_name;

#[test]
fn simple_extension_is_replaced() {
    let r = try_output_name(&b"photo.avif".to_vec());
    assert_eq!(r, Some(b"photo.png".to_vec()));
}

#[test]
fn last_extension_wins() {
    let r = try_output_name(&b"archive.tar.gz".to_vec());
    assert_eq!(r, Some(b"archive.tar.png".to_vec()));
}

#[test]
fn no_extension_is_skipped() {
    assert_eq!(try_output_name(&b"README".to_vec()), None);
}

#[test]
fn hidden_file_is_skipped() {
    assert_eq!(try_output_name(&b".hidden".to_vec()), None);
}

#[test]
fn empty_extension_is_skipped() {
    assert_eq!(try_output_name(&b"trailing.".to_vec()), None);
}

#[test]
fn empty_name_is_skipped() {
    assert_eq!(try_output_name(&b"".to_vec()), None);
}

#[test]
fn lone_dot_is_skipped() {
    assert_eq!(try_output_name(&b".".to_vec()), None);
}

#[test]
fn hidden_file_with_extension_is_eligible() {
    let r = try_output_name(&b".config.avif".to_vec());
    assert_eq!(r, Some(b".config.png".to_vec()));
}

#[test]
fn same_stem_collides_across_extensions() {
    let a = try_output_name(&b"shot.avif".to_vec()).unwrap();
    let b = try_output_name(&b"shot.heic".to_vec()).unwrap();
    assert_eq!(a, b);
    assert_eq!(a, b"shot.png".to_vec());
}
