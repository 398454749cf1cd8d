use wasi_test_runner::errors::RunnerError;
use wasi_test_runner::invocation::{
    find_token, parse_invocation, tokens_without, Invocation, Target,
};

fn strings(items: &[&str]) -> Vec<String> {
    items.iter().map(|s| s.to_string()).collect()
}

#[test]
fn well_formed_command_line() {
    let r = parse_invocation(strings(&["--target", "wasm32-wasip2", "--", "test.wasm", "--nocapture"]));
    assert_eq!(
        r,
        Ok(Invocation { target: Target::Wasm32WasiP2, trailing: strings(&["test.wasm", "--nocapture"]) })
    );
}

#[test]
fn nothing_after_the_separator() {
    let r = parse_invocation(strings(&["--target", "wasm32-wasip2", "--"]));
    assert_eq!(r, Ok(Invocation { target: Target::Wasm32WasiP2, trailing: Vec::new() }));
}

#[test]
fn only_the_first_separator_splits() {
    let r = parse_invocation(strings(&["--target", "wasm32-wasip2", "--", "a", "--", "b", ""]));
    assert_eq!(
        r,
        Ok(Invocation { target: Target::Wasm32WasiP2, trailing: strings(&["a", "--", "b", ""]) })
    );
}

#[test]
fn missing_separator() {
    assert_eq!(parse_invocation(Vec::new()), Err(RunnerError::MissingSeparator));
    assert_eq!(
        parse_invocation(strings(&["--target", "wasm32-wasip2", "test.wasm"])),
        Err(RunnerError::MissingSeparator)
    );
}

#[test]
fn missing_target() {
    assert_eq!(parse_invocation(strings(&["--", "x"])), Err(RunnerError::MissingTargetArgument));
    assert_eq!(
        parse_invocation(strings(&["wasm32-wasip2", "--", "x"])),
        Err(RunnerError::MissingTargetArgument)
    );
}

#[test]
fn unrecognized_target() {
    assert_eq!(
        parse_invocation(strings(&["--target", "wasm32-wasip1", "--", "x"])),
        Err(RunnerError::UnrecognizedTarget { tokens: strings(&["wasm32-wasip1"]) })
    );
    assert_eq!(
        parse_invocation(strings(&["--target", "--"])),
        Err(RunnerError::UnrecognizedTarget { tokens: Vec::new() })
    );
    assert_eq!(
        parse_invocation(strings(&["-v", "--target", "wasm32-wasip2", "--target", "--", "x"])),
        Err(RunnerError::UnrecognizedTarget { tokens: strings(&["-v", "wasm32-wasip2"]) })
    );
    assert_eq!(
        parse_invocation(strings(&["wasm32-wasip2", "--target", "--"])),
        Err(RunnerError::UnrecognizedTarget { tokens: strings(&["wasm32-wasip2"]) })
    );
}

#[test]
fn find_token_gives_the_first_place() {
    let tokens = strings(&["a", "--", "b", "--"]);
    assert_eq!(find_token(&tokens, "--"), Some(1));
    assert_eq!(find_token(&tokens, "a"), Some(0));
    assert_eq!(find_token(&tokens, "c"), None);
    assert_eq!(find_token(&Vec::new(), "--"), None);
}

#[test]
fn tokens_without_keeps_the_order() {
    let tokens = strings(&["x", "--target", "y", "--target", "z"]);
    assert_eq!(tokens_without(&tokens, "--target"), strings(&["x", "y", "z"]));
    assert_eq!(tokens_without(&tokens, "w"), tokens);
    assert_eq!(tokens_without(&Vec::new(), "w"), Vec::<String>::new());
}

#[test]
fn diagnostics() {
    assert_eq!(RunnerError::MissingSeparator.message(), "-- argument is required.");
    assert_eq!(RunnerError::MissingTargetArgument.message(), "missing argument: --target t");
    assert_eq!(
        RunnerError::UnrecognizedTarget { tokens: strings(&["wasm32-wasip1", "x"]) }.message(),
        "unrecognized target: \"wasm32-wasip1 x\""
    );
    assert_eq!(
        RunnerError::UnrecognizedTarget { tokens: Vec::new() }.message(),
        "unrecognized target: \"\""
    );
    assert_eq!(RunnerError::MetadataUnavailable.message(), "workspace metadata is unavailable");
    assert_eq!(
        RunnerError::PathRelativization { target: "ws".to_string(), base: "/ws/a".to_string() }
            .message(),
        "cannot express \"ws\" relative to \"/ws/a\""
    );
}

#[test]
fn exit_codes_are_never_zero() {
    assert_eq!(RunnerError::MissingSeparator.exit_code(), -1);
    assert_eq!(RunnerError::MissingTargetArgument.exit_code(), -1);
    assert_eq!(RunnerError::UnrecognizedTarget { tokens: Vec::new() }.exit_code(), -1);
    assert_eq!(RunnerError::MetadataUnavailable.exit_code(), 1);
    assert_eq!(
        RunnerError::PathRelativization { target: String::new(), base: String::new() }.exit_code(),
        1
    );
}
