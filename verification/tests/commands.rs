use fargo::commands::{
    build_binary_args, build_tests_args, cargo_target_args, run_binary_args, run_tests_args,
    runner_command, stripped_file_name, target_command, target_destination, target_params_arg,
};
use fargo::text::{chars_eq, join_texts, str_eq, text_of};

#[test]
fn build_and_run_take_their_parameters() {
    assert_eq!(build_binary_args(&[]), vec!["build"]);
    assert_eq!(build_binary_args(&["--example", "hello"]), vec!["build", "--example", "hello"]);
    assert_eq!(run_binary_args(&["--example", "hello"]), vec!["run", "--example", "hello"]);
}

#[test]
fn test_arguments_follow_the_options() {
    assert_eq!(run_tests_args(false, "", &[]), vec!["test"]);
    assert_eq!(run_tests_args(true, "", &[]), vec!["test", "--no-run"]);
    assert_eq!(
        run_tests_args(true, "channel", &["a", "b"]),
        vec!["test", "--test", "channel", "--no-run", "a", "b"]
    );
    assert_eq!(run_tests_args(false, "channel", &["a"]), vec!["test", "--test", "channel", "a"]);
    assert_eq!(build_tests_args("channel"), vec!["test", "--test", "channel", "--no-run"]);
    assert_eq!(target_params_arg("--nocapture"), "--args=--nocapture");
}

#[test]
fn cargo_builds_for_fuchsia() {
    assert_eq!(cargo_target_args(false), vec!["--target", "x86_64-unknown-fuchsia"]);
    assert_eq!(cargo_target_args(true), vec!["--target", "x86_64-unknown-fuchsia", "--release"]);
}

#[test]
fn runner_command_is_spaced() {
    assert_eq!(runner_command("/bin/fargo", false, None, false, None), "/bin/fargo run-on-target");
    assert_eq!(
        runner_command("/bin/fargo", true, Some("ivy-donut"), true, Some("--args=x")),
        "/bin/fargo -v --device-name ivy-donut run-on-target --launch --args=x"
    );
}

#[test]
fn target_command_lists_parameters() {
    assert_eq!(target_command(false, "/tmp/app", &[], None), "/tmp/app");
    assert_eq!(target_command(true, "/tmp/app", &["a", "b"], None), "launch /tmp/app a b");
    assert_eq!(
        target_command(false, "/tmp/app", &["a"], Some("--nocapture")),
        "/tmp/app a -- --nocapture"
    );
    assert_eq!(target_destination("app_stripped"), "/tmp/app_stripped");
    assert_eq!(stripped_file_name("app"), "app_stripped");
}

#[test]
fn texts_are_compared_and_joined() {
    assert!(str_eq("abc", "abc"));
    assert!(!str_eq("abc", "abd"));
    assert!(!str_eq("abc", "ab"));
    assert!(chars_eq(&[], &[]));
    assert!(!chars_eq(&['a'], &[]));
    assert_eq!(text_of(&['a', 'b', 'c', 'd'], 1, 3), "bc");
    assert_eq!(text_of(&['a'], 1, 1), "");
    assert_eq!(join_texts(&vec![], ' '), "");
    assert_eq!(join_texts(&vec![String::from("a")], ' '), "a");
    assert_eq!(join_texts(&vec![String::from("a"), String::new(), String::from("b")], '_'), "a__b");
}
