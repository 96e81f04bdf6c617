use slate::{version, VERSION_MAJOR, VERSION_MINOR, VERSION_PATCH};

#[test]
fn the_version_has_three_parts() {
    assert_eq!("0.1.0", version());
    assert_eq!(format!("{}.{}.{}", VERSION_MAJOR, VERSION_MINOR, VERSION_PATCH), version());
}

#[test]
fn the_program_has_the_version_of_the_library() {
    assert_eq!(version(), slate::utils::version());
}
