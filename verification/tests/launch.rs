use fzf_launcher::fzf::{Fzf, FzfArgs, SpawnError};
use std::io::{Error, ErrorKind};

#[test]
fn new_launcher_names_fzf_and_has_no_base_arguments() {
    let fzf = Fzf::new();
    assert_eq!(fzf.executable, "fzf");
    assert!(fzf.args.is_empty());
}

#[test]
fn multi_line_initial_input_goes_to_standard_input() {
    let args = FzfArgs {
        print_query: Some("Hello\nWorld".to_string()),
        delimiter: Some(String::from("\t")),
        ..Default::default()
    };
    let fzf = Fzf::new();
    let invocation = fzf.invocation(&args);
    assert_eq!(invocation.program, "fzf");
    assert_eq!(invocation.args, vec!["--delimiter=\t"]);
    assert_eq!(invocation.input, Some("Hello\nWorld\n".to_string()));
}

#[test]
fn initial_line_gets_exactly_one_newline() {
    let options = FzfArgs { print_query: Some("query".to_string()), ..Default::default() };
    assert_eq!(options.input(), Some("query\n".to_string()));
    let empty = FzfArgs { print_query: Some(String::new()), ..Default::default() };
    assert_eq!(empty.input(), Some("\n".to_string()));
    let ended = FzfArgs { print_query: Some("line\n".to_string()), ..Default::default() };
    assert_eq!(ended.input(), Some("line\n\n".to_string()));
}

#[test]
fn no_initial_line_means_no_input() {
    assert_eq!(FzfArgs::default().input(), None);
    let options = FzfArgs {
        header: Some("h".to_string()),
        query: Some("q".to_string()),
        reverse: true,
        ..Default::default()
    };
    assert_eq!(options.input(), None);
    assert_eq!(Fzf::new().invocation(&options).input, None);
}

#[test]
fn invocation_names_the_executable_of_the_launcher() {
    let fzf = Fzf { executable: "/opt/bin/fzf".to_string(), args: vec!["--ansi".to_string()] };
    let options = FzfArgs { reverse: true, ..Default::default() };
    let invocation = fzf.invocation(&options);
    assert_eq!(invocation.program, "/opt/bin/fzf");
    assert_eq!(invocation.args, vec!["--ansi", "--reverse"]);
    assert_eq!(invocation.args, fzf.arguments(&options));
    assert_eq!(invocation.input, options.input());
}

#[test]
fn consecutive_launches_do_not_affect_each_other() {
    let fzf = Fzf { executable: "fzf".to_string(), args: vec!["--ansi".to_string()] };
    let first = FzfArgs {
        print_query: Some("one".to_string()),
        header: Some("first".to_string()),
        cycle: true,
        ..Default::default()
    };
    let second = FzfArgs { query: Some("second".to_string()), ..Default::default() };

    let a = fzf.invocation(&first);
    let b = fzf.invocation(&second);
    let again = fzf.invocation(&first);

    assert_eq!(a.args, vec!["--ansi", "--header=first", "--cycle"]);
    assert_eq!(a.input, Some("one\n".to_string()));
    assert_eq!(b.args, vec!["--ansi", "--query=second"]);
    assert_eq!(b.input, None);
    assert_eq!(again.program, a.program);
    assert_eq!(again.args, a.args);
    assert_eq!(again.input, a.input);
    assert_eq!(fzf.executable, "fzf");
    assert_eq!(fzf.args, vec!["--ansi"]);
}

#[test]
fn failed_step_becomes_an_io_error_with_its_cause() {
    let cause = Error::new(ErrorKind::NotFound, "no such program");
    let outcome: Result<u32, SpawnError> = SpawnError::lift(Err(cause));
    match outcome {
        Err(SpawnError::IOError(e)) => {
            assert_eq!(e.kind(), ErrorKind::NotFound);
            assert_eq!(e.to_string(), "no such program");
        }
        Ok(_) => panic!("a failure was reported as a success"),
    }
}

#[test]
fn successful_step_passes_through() {
    let outcome: Result<u32, SpawnError> = SpawnError::lift(Ok(7));
    assert!(matches!(outcome, Ok(7)));
}

#[test]
fn broken_pipe_is_reported_like_a_failed_start() {
    let cause = Error::from(ErrorKind::BrokenPipe);
    let outcome: Result<(), SpawnError> = SpawnError::lift(Err(cause));
    assert!(matches!(outcome, Err(SpawnError::IOError(ref e)) if e.kind() == ErrorKind::BrokenPipe));
}

#[test]
fn errors_can_be_printed_for_debugging() {
    let local = SpawnError::IOError(Error::from(ErrorKind::PermissionDenied));
    assert!(format!("{:?}", local).starts_with("IOError("));
    let general = fzf_launcher::SpawnError::IOError(Error::from(ErrorKind::NotFound));
    assert!(format!("{:?}", general).starts_with("IOError("));
}
