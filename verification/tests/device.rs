use fargo::commands::{add_driver_command, cargo_rustflags, driver_file_name};
use fargo::cross::{common_c_flags, configure_host, ld_flags, prefix_arg};
use fargo::device::{
    change_runs_tests, emulator_args, ifconfig_step, netaddr_args, scp_destination, RetryStep,
    IFCONFIG_RETRIES,
};

#[test]
fn ifconfig_is_tried_again_until_the_limit() {
    assert_eq!(ifconfig_step(0, true), RetryStep::Done);
    assert_eq!(ifconfig_step(11, true), RetryStep::Done);
    assert_eq!(ifconfig_step(0, false), RetryStep::Retry { attempts: 1 });
    assert_eq!(ifconfig_step(IFCONFIG_RETRIES, false), RetryStep::Retry { attempts: 11 });
    assert_eq!(ifconfig_step(11, false), RetryStep::GiveUp);
    assert_eq!(ifconfig_step(u32::MAX, false), RetryStep::GiveUp);
    let mut failed = 0;
    let mut attempts = 0;
    loop {
        attempts += 1;
        match ifconfig_step(failed, false) {
            RetryStep::Retry { attempts } => failed = attempts,
            RetryStep::GiveUp => break,
            RetryStep::Done => unreachable!(),
        }
    }
    assert_eq!(attempts, 12);
}

#[test]
fn changes_outside_build_and_git_run_tests() {
    assert!(change_runs_tests(false, false));
    assert!(!change_runs_tests(true, false));
    assert!(!change_runs_tests(false, true));
    assert!(!change_runs_tests(true, true));
}

#[test]
fn device_commands_take_their_arguments() {
    assert_eq!(netaddr_args(None), vec!["--fuchsia"]);
    assert_eq!(netaddr_args(Some("ivy-donut")), vec!["--fuchsia", "ivy-donut"]);
    assert_eq!(emulator_args(false), vec!["run", "-N"]);
    assert_eq!(emulator_args(true), vec!["run", "-N", "-g"]);
    assert_eq!(scp_destination("fe80::1%eth0", "/tmp/app"), "[fe80::1%eth0]:/tmp/app");
}

#[test]
fn driver_is_named_after_the_package() {
    assert_eq!(driver_file_name("ethernet"), "libethernet.so");
    assert_eq!(add_driver_command("/tmp/libethernet.so"), "dm add-driver:/tmp/libethernet.so");
    assert_eq!(
        cargo_rustflags("/fuchsia/sysroot"),
        "-C link-arg=--target=x86_64-unknown-fuchsia -C link-arg=--sysroot=/fuchsia/sysroot"
    );
}

#[test]
fn configure_flags_name_sysroot_and_target() {
    let flags = common_c_flags("/sys", "x86_64", "/cross/include");
    assert_eq!(flags, "--sysroot=/sys --target=x86_64-fuchsia -fPIC -I/cross/include");
    assert_eq!(
        ld_flags("-O2", &flags, "/cross/lib"),
        "-O2 --sysroot=/sys --target=x86_64-fuchsia -fPIC -I/cross/include -L/cross/lib"
    );
    assert_eq!(ld_flags("", "c", "l"), " c -Ll");
    assert_eq!(prefix_arg("/cross"), "--prefix=/cross");
    assert_eq!(configure_host("x86-64"), "x86_64-fuchsia-elf");
    assert_eq!(configure_host("aarch64"), "aarch64-fuchsia-elf");
}
