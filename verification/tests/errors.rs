use slate::errors::{CommandError, SlateError};
use std::io;

fn json_error() -> serde_json::Error {
    serde_json::from_str::<String>("nonsense").unwrap_err()
}

#[test]
fn an_argument_error_shows_its_text() {
    let err = CommandError::Argument("You must provide the name of a key".to_string());

    assert_eq!("You must provide the name of a key", err.to_string());
}

#[test]
fn an_io_error_shows_what_it_holds() {
    let err = SlateError::IO(io::Error::new(io::ErrorKind::Other, "disk full"));

    assert_eq!("disk full", err.to_string());
    assert_eq!("disk full", CommandError::Slate(err).to_string());
    assert_eq!("no input", CommandError::IO(io::Error::new(io::ErrorKind::Other, "no input")).to_string());
}

#[test]
fn a_json_error_shows_what_it_holds() {
    let expected = json_error().to_string();
    let err = SlateError::JSON(json_error());

    assert!(!expected.is_empty());
    assert_eq!(expected, err.to_string());
    assert_eq!(expected, CommandError::Slate(err).to_string());
}

#[test]
fn errors_convert_into_the_variant_that_holds_them() {
    match SlateError::from(io::Error::new(io::ErrorKind::NotFound, "gone")) {
        SlateError::IO(err) => assert_eq!(io::ErrorKind::NotFound, err.kind()),
        other => panic!("unexpected error: {:?}", other),
    }
    assert!(matches!(SlateError::from(json_error()), SlateError::JSON(_)));
    match CommandError::from(io::Error::new(io::ErrorKind::BrokenPipe, "pipe")) {
        CommandError::IO(err) => assert_eq!(io::ErrorKind::BrokenPipe, err.kind()),
        other => panic!("unexpected error: {:?}", other),
    }
    assert!(matches!(
        CommandError::from(SlateError::from(json_error())),
        CommandError::Slate(SlateError::JSON(_))
    ));
    match CommandError::from("missing".to_string()) {
        CommandError::Argument(text) => assert_eq!("missing", text),
        other => panic!("unexpected error: {:?}", other),
    }
}
