use cargo_rpl::command::orchestrator_program;
use cargo_rpl::router::{route, Route};
use cargo_rpl::{process, RplCmd};

fn tokens(line: &str) -> Vec<String> {
    line.split_whitespace().map(ToString::to_string).collect()
}

fn strings(items: &[&str]) -> Vec<String> {
    items.iter().map(|s| s.to_string()).collect()
}

#[test]
fn fix() {
    let cmd = RplCmd::new(tokens("cargo rpl --fix"));
    assert_eq!("fix", cmd.cargo_subcommand);
    assert!(!cmd.args.iter().any(|arg| arg.ends_with("unstable-options")));
}

#[test]
fn fix_implies_no_deps() {
    let cmd = RplCmd::new(tokens("cargo rpl --fix"));
    assert!(cmd.rpl_args.iter().any(|arg| arg == "--no-deps"));
}

#[test]
fn no_deps_not_duplicated_with_fix() {
    let cmd = RplCmd::new(tokens("cargo rpl --fix -- --no-deps"));
    assert_eq!(cmd.rpl_args.iter().filter(|arg| *arg == "--no-deps").count(), 1);
}

#[test]
fn check() {
    let cmd = RplCmd::new(tokens("cargo rpl"));
    assert_eq!("check", cmd.cargo_subcommand);
}

#[test]
fn empty_input_is_plain_check() {
    let cmd = RplCmd::new(Vec::new());
    assert_eq!(cmd.cargo_subcommand, "check");
    assert!(cmd.args.is_empty());
    assert!(cmd.rpl_args.is_empty());
}

#[test]
fn lone_fix() {
    let cmd = RplCmd::new(strings(&["--fix"]));
    assert_eq!(cmd.cargo_subcommand, "fix");
    assert!(cmd.args.is_empty());
    assert_eq!(cmd.rpl_args, strings(&["--no-deps"]));
}

#[test]
fn fix_with_no_deps_after_separator() {
    let cmd = RplCmd::new(strings(&["--fix", "--", "--no-deps"]));
    assert_eq!(cmd.cargo_subcommand, "fix");
    assert!(cmd.args.is_empty());
    assert_eq!(cmd.rpl_args, strings(&["--no-deps"]));
}

#[test]
fn manifest_path_goes_to_orchestrator() {
    let cmd = RplCmd::new(strings(&["--manifest-path", "x/Cargo.toml"]));
    assert_eq!(cmd.cargo_subcommand, "check");
    assert_eq!(cmd.args, strings(&["--manifest-path", "x/Cargo.toml"]));
    assert!(cmd.rpl_args.is_empty());
}

#[test]
fn fix_after_other_arguments() {
    let cmd = RplCmd::new(strings(&["--all-targets", "--locked", "--fix"]));
    assert_eq!(cmd.cargo_subcommand, "fix");
    assert_eq!(cmd.args, strings(&["--all-targets", "--locked"]));
    assert_eq!(cmd.rpl_args, strings(&["--no-deps"]));
}

#[test]
fn explicit_no_deps_before_separator_not_duplicated() {
    let cmd = RplCmd::new(strings(&["--no-deps", "--fix"]));
    assert_eq!(cmd.cargo_subcommand, "fix");
    assert!(cmd.args.is_empty());
    assert_eq!(cmd.rpl_args, strings(&["--no-deps"]));
}

#[test]
fn repeated_no_deps_is_kept() {
    let cmd = RplCmd::new(strings(&["--no-deps", "--no-deps"]));
    assert_eq!(cmd.rpl_args, strings(&["--no-deps", "--no-deps"]));
}

#[test]
fn tokens_after_separator_are_not_interpreted() {
    let cmd = RplCmd::new(strings(&["-p", "foo", "--", "--fix", "-W", "--no-deps", "--"]));
    assert_eq!(cmd.cargo_subcommand, "check");
    assert_eq!(cmd.args, strings(&["-p", "foo"]));
    assert_eq!(cmd.rpl_args, strings(&["--fix", "-W", "--no-deps", "--"]));
}

#[test]
fn every_token_lands_once() {
    let input = strings(&["a", "--no-deps", "--fix", "b", "--", "c", "--no-deps"]);
    let cmd = RplCmd::new(input);
    assert_eq!(cmd.cargo_subcommand, "fix");
    assert_eq!(cmd.args, strings(&["a", "b"]));
    assert_eq!(cmd.rpl_args, strings(&["--no-deps", "c", "--no-deps"]));
}

#[test]
fn analysis_arguments_serialized_with_marker() {
    let cmd = RplCmd::new(strings(&["--fix", "--", "-D", "x"]));
    assert_eq!(
        cmd.rpl_args_env(),
        "-D__RPL_HACKERY__x__RPL_HACKERY__--no-deps__RPL_HACKERY__"
    );
    assert_eq!(RplCmd::new(Vec::new()).rpl_args_env(), "");
}

#[test]
fn orchestrator_arguments_start_with_subcommand() {
    let cmd = RplCmd::new(strings(&["--fix", "--locked"]));
    assert_eq!(cmd.orchestrator_args(), strings(&["fix", "--locked"]));
    let cmd = RplCmd::new(Vec::new());
    assert_eq!(cmd.orchestrator_args(), strings(&["check"]));
}

#[test]
fn orchestrator_program_override() {
    assert_eq!(orchestrator_program(None), "cargo");
    assert_eq!(orchestrator_program(Some("/opt/cargo".to_string())), "/opt/cargo");
}

#[test]
fn process_outcomes() {
    assert_eq!(process(true, Some(0)), Ok(()));
    assert_eq!(process(false, Some(101)), Err(101));
    assert_eq!(process(false, None), Err(-1));
}

#[test]
fn short_help_exits_early() {
    assert!(matches!(route(&tokens("cargo-rpl rpl -h")), Route::ShowHelp));
    assert!(matches!(route(&tokens("cargo-rpl rpl --fix --help")), Route::ShowHelp));
}

#[test]
fn help_wins_over_version() {
    assert!(matches!(route(&tokens("cargo-rpl rpl -V --help")), Route::ShowHelp));
}

#[test]
fn version_exits_early() {
    assert!(matches!(route(&tokens("cargo-rpl rpl --version")), Route::ShowVersion));
    assert!(matches!(route(&tokens("cargo-rpl rpl -V")), Route::ShowVersion));
}

#[test]
fn explain_lowercases_lint_name() {
    match route(&tokens("cargo-rpl rpl --explain Some_LINT-9")) {
        Route::Explain(lint) => assert_eq!(lint, "some_lint-9"),
        _ => panic!("expected an explanation"),
    }
}

#[test]
fn explain_without_lint_shows_help() {
    assert!(matches!(route(&tokens("cargo-rpl rpl --explain")), Route::ShowHelp));
}

#[test]
fn plain_run_strips_program_and_subcommand() {
    match route(&tokens("cargo-rpl rpl --fix --locked -- -W x")) {
        Route::Run(cmd) => {
            assert_eq!(cmd.cargo_subcommand, "fix");
            assert_eq!(cmd.args, strings(&["--locked"]));
            assert_eq!(cmd.rpl_args, strings(&["-W", "x", "--no-deps"]));
        }
        _ => panic!("expected a run"),
    }
    match route(&tokens("cargo-rpl")) {
        Route::Run(cmd) => {
            assert_eq!(cmd.cargo_subcommand, "check");
            assert!(cmd.args.is_empty());
            assert!(cmd.rpl_args.is_empty());
        }
        _ => panic!("expected a run"),
    }
}
