use avif2png::cli::{parse_args, CliError};

fn args(list: Vec<&str>) -> Vec<Vec<u8>> {
    list.into_iter().map(|a| a.as_bytes().to_vec()).collect()
}

#[test]
fn no_arguments_yield_the_conventional_roots() {
    let c = parse_args(&args(vec![])).unwrap();
    assert_eq!(c.input, b"INPUT".to_vec());
    assert_eq!(c.output, b"OUTPUT".to_vec());
    assert!(c.recursive);
}

#[test]
fn long_flags_set_the_roots() {
    let c = parse_args(&args(vec!["--input", "in", "--output", "out"])).unwrap();
    assert_eq!(c.input, b"in".to_vec());
    assert_eq!(c.output, b"out".to_vec());
    assert!(c.recursive);
}

#[test]
fn short_flags_set_the_roots() {
    let c = parse_args(&args(vec!["-i", "a", "-o", "b", "--recursive"])).unwrap();
    assert_eq!(c.input, b"a".to_vec());
    assert_eq!(c.output, b"b".to_vec());
    assert!(c.recursive);
}

#[test]
fn last_occurrence_wins() {
    let c = parse_args(&args(vec!["-i", "first", "-i", "second"])).unwrap();
    assert_eq!(c.input, b"second".to_vec());
}

#[test]
fn missing_input_value_is_rejected() {
    let e = parse_args(&args(vec!["--input"])).unwrap_err();
    assert!(matches!(e, CliError::MissingInputValue));
}

#[test]
fn missing_output_value_is_rejected() {
    let e = parse_args(&args(vec!["-i", "in", "-o"])).unwrap_err();
    assert!(matches!(e, CliError::MissingOutputValue));
}

#[test]
fn unknown_argument_is_rejected() {
    let e = parse_args(&args(vec!["--loud"])).unwrap_err();
    match e {
        CliError::UnknownArgument(a) => assert_eq!(a, b"--loud".to_vec()),
        _ => panic!("wrong error"),
    }
}
