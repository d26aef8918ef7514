use contract_runtime::repl::{CommandType, ReplError};

#[test]
fn test_new_command_tyep() {
    assert_eq!(CommandType::Help, CommandType::new("help").unwrap());
    assert_eq!(CommandType::Build, CommandType::new("build fs").unwrap());
    assert_eq!(
        CommandType::Command(String::from("s")),
        CommandType::new("command --input s").unwrap()
    );
}

#[test]
fn setup_and_unknown_lines() {
    assert_eq!(CommandType::Setup, CommandType::new("setup now").unwrap());
    assert_eq!(
        CommandType::Unknown(String::from("deploy it")),
        CommandType::new("deploy it").unwrap()
    );
    assert_eq!(CommandType::Unknown(String::new()), CommandType::new("").unwrap());
    // only the first word counts, and it must match exactly
    assert_eq!(
        CommandType::Unknown(String::from(" help")),
        CommandType::new(" help").unwrap()
    );
    assert_eq!(
        CommandType::Unknown(String::from("helpme")),
        CommandType::new("helpme").unwrap()
    );
}

#[test]
fn command_without_input_keeps_it_empty() {
    assert_eq!(CommandType::Command(String::new()), CommandType::new("command").unwrap());
    assert_eq!(
        CommandType::Command(String::from("x")),
        CommandType::new("command --input=x").unwrap()
    );
}

fn parse_error_output(line: &str) -> (String, String) {
    match CommandType::new(line) {
        Err(ReplError::ParseCommand { stdout, stderr }) => {
            (String::from_utf8(stdout).unwrap(), String::from_utf8(stderr).unwrap())
        }
        other => panic!("expected a parse error, got {:?}", other),
    }
}

#[test]
fn command_with_bad_options_is_refused() {
    let (out, err) = parse_error_output("command --input");
    assert!(out.is_empty());
    assert!(err.starts_with("Usage:"));
    assert!(err.contains("command: "));
    let (out, err) = parse_error_output("command --other s");
    assert!(out.is_empty());
    assert!(err.contains("--other"));
    let e = CommandType::new("command --other s").unwrap_err();
    assert_eq!(e.message(), "parse command error");
}

#[test]
fn command_help_is_returned_not_printed() {
    let (out, err) = parse_error_output("command --help");
    assert!(out.starts_with("Usage:"));
    assert!(out.contains("--input"));
    assert!(out.contains("Output source"));
    assert!(err.is_empty());
}

#[test]
fn from_input_option_maps_outcomes() {
    assert_eq!(
        Ok(CommandType::Command(String::from("abc"))),
        CommandType::from_input_option(Ok(String::from("abc")), vec![], vec![])
    );
    assert_eq!(
        Err(ReplError::ParseCommand { stdout: vec![], stderr: b"bad".to_vec() }),
        CommandType::from_input_option(Err(2), vec![], b"bad".to_vec())
    );
}
