//! The command lines that the tools run, as lists of arguments.

use crate::text::{join_texts, join_with, strs, texts};
use vstd::prelude::*;

verus! {

/// The target triple that cargo builds for.
pub const FUCHSIA_TRIPLE: &'static str = "x86_64-unknown-fuchsia";

/// The arguments where `present`, else none.
pub open spec fn optional(present: bool, arguments: Seq<Seq<char>>) -> Seq<Seq<char>> {
    if present {
        arguments
    } else {
        Seq::empty()
    }
}

/// Adds a copy of `text` to the list.
pub(crate) fn push_str(list: &mut Vec<String>, text: &str)
    ensures
        texts(final(list)@) == texts(old(list)@).push(text@),
{
    list.push(text.to_owned());
    assert(texts(list@) =~= texts(old(list)@).push(text@));
}

/// Adds a copy of each text of `more` to the list, in order.
fn push_all(list: &mut Vec<String>, more: &[&str])
    ensures
        texts(final(list)@) == texts(old(list)@) + strs(more@),
{
    let mut i: usize = 0;
    while i < more.len()
        invariant
            i <= more.len(),
            texts(list@) == texts(old(list)@) + strs(more@).subrange(0, i as int),
        decreases more.len() - i,
    {
        push_str(list, more[i]);
        i = i + 1;
        assert(strs(more@).subrange(0, i as int) == strs(more@).subrange(0, i as int - 1).push(
            more@[i as int - 1]@,
        ));
    }
    assert(strs(more@).subrange(0, more@.len() as int) == strs(more@));
}

/// `subcommand` and then `params`.
pub open spec fn spec_subcommand_args(subcommand: Seq<char>, params: Seq<Seq<char>>) -> Seq<
    Seq<char>,
> {
    seq![subcommand] + params
}

/// The arguments for cargo to build a binary: `build`, then `params`.
pub fn build_binary_args(params: &[&str]) -> (args: Vec<String>)
    ensures
        texts(args@) == spec_subcommand_args("build"@, strs(params@)),
{
    let mut args: Vec<String> = Vec::new();
    assert(texts(args@) =~= Seq::<Seq<char>>::empty());
    push_str(&mut args, "build");
    push_all(&mut args, params);
    args
}

/// The arguments for cargo to run a binary: `run`, then `params`.
pub fn run_binary_args(params: &[&str]) -> (args: Vec<String>)
    ensures
        texts(args@) == spec_subcommand_args("run"@, strs(params@)),
{
    let mut args: Vec<String> = Vec::new();
    assert(texts(args@) =~= Seq::<Seq<char>>::empty());
    push_str(&mut args, "run");
    push_all(&mut args, params);
    args
}

/// `test`; `--test` and the test target, where one is named; `--no-run`,
/// where the tests are only built; then `params`.
pub open spec fn spec_run_tests_args(no_run: bool, test_target: Seq<char>, params: Seq<Seq<char>>) -> Seq<
    Seq<char>,
> {
    seq!["test"@] + optional(test_target.len() > 0, seq!["--test"@, test_target]) + optional(
        no_run,
        seq!["--no-run"@],
    ) + params
}

/// The arguments for cargo to build the tests and, unless `no_run`, run
/// them.
pub fn run_tests_args(no_run: bool, test_target: &str, params: &[&str]) -> (args: Vec<String>)
    ensures
        texts(args@) == spec_run_tests_args(no_run, test_target@, strs(params@)),
{
    let mut args: Vec<String> = Vec::new();
    assert(texts(args@) =~= Seq::<Seq<char>>::empty());
    push_str(&mut args, "test");
    if !test_target.is_empty() {
        push_str(&mut args, "--test");
        push_str(&mut args, test_target);
    }
    if no_run {
        push_str(&mut args, "--no-run");
    }
    push_all(&mut args, params);
    assert(texts(args@) =~= spec_run_tests_args(no_run, test_target@, strs(params@)));
    args
}

/// The arguments for cargo that only build the tests of `test_target`.
pub fn build_tests_args(test_target: &str) -> (args: Vec<String>)
    ensures
        texts(args@) == spec_run_tests_args(true, test_target@, Seq::empty()),
{
    let none: [&str; 0] = [];
    let args = run_tests_args(true, test_target, &none);
    assert(strs(none@) =~= Seq::<Seq<char>>::empty());
    args
}

/// How the parameters for the tests on the target are handed to the runner.
pub fn target_params_arg(target_params: &str) -> (arg: String)
    ensures
        arg@ == "--args="@ + target_params@,
{
    let mut arg = "--args=".to_owned();
    arg.append(target_params);
    arg
}

/// `--target` and the triple, then `--release` for a release build.
pub fn cargo_target_args(release: bool) -> (args: Vec<String>)
    ensures
        texts(args@) == seq!["--target"@, FUCHSIA_TRIPLE@] + optional(release, seq!["--release"@]),
{
    let mut args: Vec<String> = Vec::new();
    assert(texts(args@) =~= Seq::<Seq<char>>::empty());
    push_str(&mut args, "--target");
    push_str(&mut args, FUCHSIA_TRIPLE);
    if release {
        push_str(&mut args, "--release");
    }
    assert(texts(args@) =~= seq!["--target"@, FUCHSIA_TRIPLE@] + optional(
        release,
        seq!["--release"@],
    ));
    args
}

/// The words of the runner command: the program, `-v` where verbose,
/// `--device-name` and the name where a device is named, `run-on-target`,
/// `--launch` where asked for, and the further arguments where given.
pub open spec fn spec_runner_args(
    fargo_path: Seq<char>,
    verbose: bool,
    device_name: Option<&str>,
    launch: bool,
    additional_target_args: Option<&str>,
) -> Seq<Seq<char>> {
    seq![fargo_path] + optional(verbose, seq!["-v"@]) + (match device_name {
        Some(name) => seq!["--device-name"@, name@],
        None => Seq::empty(),
    }) + seq!["run-on-target"@] + optional(launch, seq!["--launch"@]) + (match additional_target_args {
        Some(more) => seq![more@],
        None => Seq::empty(),
    })
}

/// The command that cargo is told to run test and program binaries with:
/// the words of the runner command, set apart by single spaces.
pub fn runner_command(
    fargo_path: &str,
    verbose: bool,
    device_name: Option<&str>,
    launch: bool,
    additional_target_args: Option<&str>,
) -> (command: String)
    ensures
        command@ == join_with(
            spec_runner_args(fargo_path@, verbose, device_name, launch, additional_target_args),
            ' ',
        ),
{
    let mut runner_args: Vec<String> = Vec::new();
    assert(texts(runner_args@) =~= Seq::<Seq<char>>::empty());
    push_str(&mut runner_args, fargo_path);
    if verbose {
        push_str(&mut runner_args, "-v");
    }
    if let Some(name) = device_name {
        push_str(&mut runner_args, "--device-name");
        push_str(&mut runner_args, name);
    }
    push_str(&mut runner_args, "run-on-target");
    if launch {
        push_str(&mut runner_args, "--launch");
    }
    if let Some(args_for_target) = additional_target_args {
        push_str(&mut runner_args, args_for_target);
    }
    assert(texts(runner_args@) =~= spec_runner_args(
        fargo_path@,
        verbose,
        device_name,
        launch,
        additional_target_args,
    ));
    join_texts(&runner_args, ' ')
}

/// `params`, each with a space before it.
pub open spec fn spaced(params: Seq<Seq<char>>) -> Seq<char>
    decreases params.len(),
{
    if params.len() == 0 {
        Seq::empty()
    } else {
        spaced(params.drop_last()) + " "@ + params.last()
    }
}

/// The command that runs a program on the target: `launch ` where asked
/// for, the program's path on the target, each parameter after a space,
/// and ` -- ` with the arguments for the tests where given.
pub open spec fn spec_target_command(
    launch: bool,
    destination_path: Seq<char>,
    params: Seq<Seq<char>>,
    test_args: Option<&str>,
) -> Seq<char> {
    (if launch {
        "launch "@
    } else {
        ""@
    }) + destination_path + spaced(params) + (match test_args {
        Some(args) => " -- "@ + args@,
        None => Seq::empty(),
    })
}

/// Builds the command that runs a program on the target.
pub fn target_command(
    launch: bool,
    destination_path: &str,
    params: &[&str],
    test_args: Option<&str>,
) -> (command: String)
    ensures
        command@ == spec_target_command(launch, destination_path@, strs(params@), test_args),
{
    let mut command_string = (if launch {
        "launch "
    } else {
        ""
    }).to_owned();
    command_string.append(destination_path);
    let ghost head = command_string@;
    let mut i: usize = 0;
    assert(strs(params@).subrange(0, 0) =~= Seq::<Seq<char>>::empty());
    while i < params.len()
        invariant
            i <= params.len(),
            command_string@ == head + spaced(strs(params@).subrange(0, i as int)),
        decreases params.len() - i,
    {
        command_string.append(" ");
        command_string.append(params[i]);
        proof {
            let before = strs(params@).subrange(0, i as int);
            let after = strs(params@).subrange(0, i as int + 1);
            assert(after.drop_last() == before);
            assert(after.last() == params@[i as int]@);
            assert(command_string@ =~= head + spaced(after));
        }
        i = i + 1;
    }
    assert(strs(params@).subrange(0, params@.len() as int) == strs(params@));
    if let Some(test_args_str) = test_args {
        command_string.append(" -- ");
        command_string.append(test_args_str);
        assert(command_string@ =~= spec_target_command(
            launch,
            destination_path@,
            strs(params@),
            test_args,
        ));
    } else {
        assert(command_string@ =~= spec_target_command(
            launch,
            destination_path@,
            strs(params@),
            test_args,
        ));
    }
    command_string
}

/// Where a file named `file_name` is copied to on the target.
pub fn target_destination(file_name: &str) -> (path: String)
    ensures
        path@ == "/tmp/"@ + file_name@,
{
    let mut path = "/tmp/".to_owned();
    path.append(file_name);
    path
}

/// The name of the stripped copy of the binary named `file_name`.
pub fn stripped_file_name(file_name: &str) -> (name: String)
    ensures
        name@ == file_name@ + "_stripped"@,
{
    let mut name = file_name.to_owned();
    name.append("_stripped");
    name
}

/// The flags that make rustc link for Fuchsia against `sysroot`.
pub fn cargo_rustflags(sysroot: &str) -> (flags: String)
    ensures
        flags@ == "-C link-arg=--target=x86_64-unknown-fuchsia -C link-arg=--sysroot="@ + sysroot@,
{
    let mut flags = "-C link-arg=--target=x86_64-unknown-fuchsia -C link-arg=--sysroot=".to_owned();
    flags.append(sysroot);
    flags
}

/// The file that holds the driver built from the package `package`.
pub fn driver_file_name(package: &str) -> (name: String)
    ensures
        name@ == "lib"@ + package@ + ".so"@,
{
    let mut name = "lib".to_owned();
    name.append(package);
    name.append(".so");
    name
}

/// The command that loads the driver at `destination_path` on the target.
pub fn add_driver_command(destination_path: &str) -> (command: String)
    ensures
        command@ == "dm add-driver:"@ + destination_path@,
{
    let mut command = "dm add-driver:".to_owned();
    command.append(destination_path);
    command
}

} // verus!
