use fargo::cross::{cross_root, pkg_config_path};
use fargo::sdk::{
    clang_linker_path, join_path, possible_target_out_dir, strip_tool_path, sysroot_path,
    target_gen_dir, target_out_dir, toolchain_path, TargetOptions,
};
use fargo::utils::{duration_as_milliseconds, is_mac, is_mac_sysname};

#[test]
fn target_options_are_for_x86_64() {
    let options = TargetOptions::new(true, Some("ivy-donut-grew-stoop"));
    assert!(options.release_os);
    assert_eq!(options.target_cpu, "x86-64");
    assert_eq!(options.target_cpu_linker, "x86_64");
    assert_eq!(options.device_name, Some("ivy-donut-grew-stoop"));
    let options = TargetOptions::new(false, None);
    assert!(!options.release_os);
    assert_eq!(options.device_name, None);
}

#[test]
fn join_path_sets_one_separator() {
    assert_eq!(join_path("/fuchsia", "out"), "/fuchsia/out");
    assert_eq!(join_path("/fuchsia/", "out"), "/fuchsia/out");
    assert_eq!(join_path("", "out"), "out");
    assert_eq!(join_path("/", "out"), "/out");
    assert_eq!(join_path("a", "bin/strip"), "a/bin/strip");
}

#[test]
fn out_dir_follows_build_kind() {
    let release = TargetOptions::new(true, None);
    let debug = TargetOptions::new(false, None);
    assert_eq!(possible_target_out_dir("/fuchsia", &release), "/fuchsia/out/release-x86-64");
    assert_eq!(possible_target_out_dir("/fuchsia", &debug), "/fuchsia/out/debug-x86-64");
    assert_eq!(target_out_dir("/fuchsia", &debug), "/fuchsia/out/debug-x86-64");
    assert_eq!(target_gen_dir("/fuchsia", &release), "/fuchsia/out/release-x86-64/gen");
}

#[test]
fn toolchain_follows_host() {
    assert_eq!(toolchain_path("/fuchsia", true), "/fuchsia/buildtools/mac-x64/clang");
    assert_eq!(toolchain_path("/fuchsia", false), "/fuchsia/buildtools/linux-x64/clang");
    assert_eq!(strip_tool_path("/fuchsia", false), "/fuchsia/buildtools/linux-x64/clang/bin/strip");
    assert_eq!(clang_linker_path("/fuchsia", true), "/fuchsia/buildtools/mac-x64/clang/bin/clang");
}

#[test]
fn sysroot_follows_processor() {
    let options = TargetOptions::new(true, None);
    assert_eq!(
        sysroot_path("/fuchsia", &options),
        "/fuchsia/out/build-zircon/build-user-x86-64/sysroot"
    );
    let arm = TargetOptions {
        release_os: true,
        target_cpu: "aarch64",
        target_cpu_linker: "aarch64",
        device_name: None,
    };
    assert_eq!(sysroot_path("/fuchsia", &arm), "/fuchsia/out/build-zircon/build-user-arm64/sysroot");
}

#[test]
fn cross_root_is_below_home() {
    let options = TargetOptions::new(true, None);
    assert_eq!(cross_root("/home/me", &options), "/home/me/.fargo/native_deps/x86-64");
    assert_eq!(
        pkg_config_path("/home/me/.fargo/native_deps/x86-64"),
        "/home/me/.fargo/native_deps/x86-64/lib/pkgconfig"
    );
}

#[test]
fn duration_in_milliseconds() {
    assert_eq!(duration_as_milliseconds(0, 0), 0);
    assert_eq!(duration_as_milliseconds(2, 345_678_901), 2345);
    assert_eq!(duration_as_milliseconds(1, 999_999), 1000);
    assert_eq!(duration_as_milliseconds(18_446_744_073_709_551, 615_999_999), u64::MAX);
}

#[test]
fn darwin_is_mac() {
    assert!(is_mac_sysname("Darwin"));
    assert!(!is_mac_sysname("Linux"));
    assert!(!is_mac_sysname("darwin"));
    assert!(!is_mac_sysname(""));
    assert!(is_mac().is_some());
}
