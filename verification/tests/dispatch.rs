use transmogrifier::dispatch::{exit_status, run, CliError, Invocation, Operation};

fn args(list: &[&str]) -> Vec<String> {
    list.iter().map(|s| s.to_string()).collect()
}

#[test]
fn each_name_selects_its_operation() {
    assert_eq!(Operation::from_name("reverse"), Some(Operation::Reverse));
    assert_eq!(Operation::from_name("invert"), Some(Operation::Invert));
    assert_eq!(Operation::from_name("uppercase"), Some(Operation::Uppercase));
    assert_eq!(Operation::from_name("no-spaces"), Some(Operation::NoSpaces));
    assert_eq!(Operation::from_name("leet"), Some(Operation::Leet));
    assert_eq!(Operation::from_name("acronym"), Some(Operation::Acronym));
}

#[test]
fn names_are_matched_exactly() {
    assert_eq!(Operation::from_name("Reverse"), None);
    assert_eq!(Operation::from_name("LEET"), None);
    assert_eq!(Operation::from_name("no_spaces"), None);
    assert_eq!(Operation::from_name("nospaces"), None);
    assert_eq!(Operation::from_name(" leet"), None);
    assert_eq!(Operation::from_name("leet "), None);
    assert_eq!(Operation::from_name(""), None);
    assert_eq!(Operation::from_name("rot13"), None);
}

#[test]
fn apply_runs_the_chosen_operation() {
    assert_eq!(Operation::Reverse.apply("abc"), "cba");
    assert_eq!(Operation::Invert.apply("aBc"), "AbC");
    assert_eq!(Operation::Uppercase.apply("abc"), "ABC");
    assert_eq!(Operation::NoSpaces.apply("a b c"), "abc");
    assert_eq!(Operation::Leet.apply("toast"), "70457");
    assert_eq!(Operation::Acronym.apply("as soon as possible"), "ASAP");
}

#[test]
fn run_applies_the_operation_to_the_text() {
    assert_eq!(run(&args(&["prog", "reverse", "hello"])), Ok(String::from("olleh")));
    assert_eq!(run(&args(&["prog", "invert", "Hello"])), Ok(String::from("hELLO")));
    assert_eq!(run(&args(&["prog", "uppercase", "hello"])), Ok(String::from("HELLO")));
    assert_eq!(run(&args(&["prog", "no-spaces", "h e l l o"])), Ok(String::from("hello")));
    assert_eq!(run(&args(&["prog", "leet", "aeiost"])), Ok(String::from("431057")));
    assert_eq!(
        run(&args(&["prog", "acronym", "the quick brown fox"])),
        Ok(String::from("TQBF"))
    );
}

#[test]
fn run_on_an_empty_text() {
    assert_eq!(run(&args(&["prog", "reverse", ""])), Ok(String::new()));
    assert_eq!(run(&args(&["prog", "acronym", ""])), Ok(String::new()));
}

#[test]
fn one_argument_is_a_usage_error() {
    let result = run(&args(&["prog", "reverse"]));
    assert_eq!(result, Err(CliError::Usage { program: String::from("prog") }));
    assert_eq!(exit_status(&result), 1);
}

#[test]
fn no_argument_is_a_usage_error() {
    let result = run(&args(&["prog"]));
    assert_eq!(result, Err(CliError::Usage { program: String::from("prog") }));
    assert_eq!(exit_status(&result), 1);
}

#[test]
fn three_arguments_are_a_usage_error() {
    let result = run(&args(&["prog", "reverse", "hello", "world"]));
    assert_eq!(result, Err(CliError::Usage { program: String::from("prog") }));
    assert_eq!(exit_status(&result), 1);
}

#[test]
fn many_arguments_are_a_usage_error() {
    let result = run(&args(&["prog", "leet", "a", "b", "c", "d", "e"]));
    assert_eq!(result, Err(CliError::Usage { program: String::from("prog") }));
    assert_eq!(exit_status(&result), 1);
}

#[test]
fn an_empty_argument_list_is_a_usage_error() {
    let result = run(&args(&[]));
    assert_eq!(result, Err(CliError::Usage { program: String::new() }));
    assert_eq!(exit_status(&result), 1);
}

#[test]
fn the_count_is_checked_before_the_name() {
    let result = run(&args(&["prog", "rot13"]));
    assert_eq!(result, Err(CliError::Usage { program: String::from("prog") }));
}

#[test]
fn rot13_is_an_unknown_operation() {
    let result = run(&args(&["prog", "rot13", "hello"]));
    assert_eq!(result, Err(CliError::UnknownOperation { name: String::from("rot13") }));
    assert_eq!(exit_status(&result), 1);
}

#[test]
fn a_name_in_another_case_is_unknown() {
    let result = run(&args(&["prog", "Reverse", "hello"]));
    assert_eq!(result, Err(CliError::UnknownOperation { name: String::from("Reverse") }));
    assert_eq!(exit_status(&result), 1);
}

#[test]
fn success_has_status_zero() {
    let result = run(&args(&["prog", "leet", "toast"]));
    assert_eq!(result, Ok(String::from("70457")));
    assert_eq!(exit_status(&result), 0);
}

#[test]
fn usage_message_names_the_program() {
    let error = CliError::Usage { program: String::from("transmogrifier") };
    assert_eq!(error.message(), "Usage: transmogrifier <op> <text>");
}

#[test]
fn unknown_operation_message_names_the_operation() {
    let error = CliError::UnknownOperation { name: String::from("rot13") };
    assert_eq!(error.message(), "Invalid operation: rot13");
}

#[test]
fn invocation_holds_operation_and_input() {
    let invocation = Invocation::from_args(&args(&["prog", "leet", "some text"]));
    assert_eq!(
        invocation,
        Ok(Invocation { operation: String::from("leet"), input: String::from("some text") })
    );
}

#[test]
fn invocation_needs_two_arguments() {
    assert_eq!(
        Invocation::from_args(&args(&["prog", "leet"])),
        Err(CliError::Usage { program: String::from("prog") })
    );
}

#[test]
fn invocation_runs_its_operation() {
    let invocation =
        Invocation { operation: String::from("acronym"), input: String::from("read the manual") };
    assert_eq!(invocation.run(), Ok(String::from("RTM")));
    let unknown = Invocation { operation: String::from("shout"), input: String::from("x") };
    assert_eq!(unknown.run(), Err(CliError::UnknownOperation { name: String::from("shout") }));
}
