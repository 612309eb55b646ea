use crate::text::str_eq;
use vstd::prelude::*;

verus! {

/// The parameters of the Fuchsia target that the tools are run for.
#[derive(Debug)]
pub struct TargetOptions<'a> {
    pub release_os: bool,
    pub target_cpu: &'a str,
    pub target_cpu_linker: &'a str,
    pub device_name: Option<&'a str>,
}

impl<'a> TargetOptions<'a> {
    /// Options for an x86-64 target.
    pub fn new(release_os: bool, device_name: Option<&'a str>) -> (options: TargetOptions<'a>)
        ensures
            options.release_os == release_os,
            options.target_cpu@ == "x86-64"@,
            options.target_cpu_linker@ == "x86_64"@,
            options.device_name == device_name,
    {
        TargetOptions {
            release_os: release_os,
            target_cpu: "x86-64",
            target_cpu_linker: "x86_64",
            device_name: device_name,
        }
    }
}

/// A path with one more relative component behind it: the two are set
/// apart by one `/`, which is left out where the path is empty or ends in
/// one already.
pub open spec fn joined(base: Seq<char>, component: Seq<char>) -> Seq<char> {
    if base.len() == 0 || base.last() == '/' {
        base + component
    } else {
        base + "/"@ + component
    }
}

/// Adds the relative path `component` to the path `base`.
pub fn join_path(base: &str, component: &str) -> (path: String)
    ensures
        path@ == joined(base@, component@),
{
    let n = base.unicode_len();
    let mut path = base.to_owned();
    if n > 0 && base.get_char(n - 1) != '/' {
        path.append("/");
    }
    path.append(component);
    path
}

/// The name of the build output directory: the kind of build, `-`, the
/// target's processor.
pub open spec fn out_dir_name(options: TargetOptions) -> Seq<char> {
    (if options.release_os {
        "release"@
    } else {
        "debug"@
    }) + "-"@ + options.target_cpu@
}

/// The build output directory: `out/<kind>-<processor>` in the tree.
pub open spec fn spec_target_out_dir(fuchsia_root: Seq<char>, options: TargetOptions) -> Seq<
    char,
> {
    joined(joined(fuchsia_root, "out"@), out_dir_name(options))
}

/// Where the build output of the target would be below the tree at
/// `fuchsia_root`. Whether the directory exists is for the caller to find
/// out.
pub fn possible_target_out_dir(fuchsia_root: &str, options: &TargetOptions) -> (path: String)
    ensures
        path@ == spec_target_out_dir(fuchsia_root@, *options),
{
    let out_dir_name_prefix = if options.release_os {
        "release"
    } else {
        "debug"
    };
    let mut out_dir_name = out_dir_name_prefix.to_owned();
    out_dir_name.append("-");
    out_dir_name.append(options.target_cpu);
    let out = join_path(fuchsia_root, "out");
    join_path(out.as_str(), out_dir_name.as_str())
}

/// The build output directory of the target in the tree at `fuchsia_root`.
pub fn target_out_dir(fuchsia_root: &str, options: &TargetOptions) -> (path: String)
    ensures
        path@ == spec_target_out_dir(fuchsia_root@, *options),
{
    possible_target_out_dir(fuchsia_root, options)
}

/// The directory of generated sources: `gen` in the build output directory.
pub fn target_gen_dir(fuchsia_root: &str, options: &TargetOptions) -> (path: String)
    ensures
        path@ == joined(spec_target_out_dir(fuchsia_root@, *options), "gen"@),
{
    let target_out_dir = target_out_dir(fuchsia_root, options);
    join_path(target_out_dir.as_str(), "gen")
}

/// The toolchain directory: `buildtools/<host>/clang` in the tree.
pub open spec fn spec_toolchain_path(fuchsia_root: Seq<char>, host_is_mac: bool) -> Seq<char> {
    joined(
        joined(
            joined(fuchsia_root, "buildtools"@),
            if host_is_mac {
                "mac-x64"@
            } else {
                "linux-x64"@
            },
        ),
        "clang"@,
    )
}

/// The clang toolchain for the host: `buildtools/<host>/clang` in the tree.
pub fn toolchain_path(fuchsia_root: &str, host_is_mac: bool) -> (path: String)
    ensures
        path@ == spec_toolchain_path(fuchsia_root@, host_is_mac),
{
    let platform_name = if host_is_mac {
        "mac-x64"
    } else {
        "linux-x64"
    };
    let buildtools = join_path(fuchsia_root, "buildtools");
    let platform = join_path(buildtools.as_str(), platform_name);
    join_path(platform.as_str(), "clang")
}

/// The strip tool of the toolchain.
pub fn strip_tool_path(fuchsia_root: &str, host_is_mac: bool) -> (path: String)
    ensures
        path@ == joined(spec_toolchain_path(fuchsia_root@, host_is_mac), "bin/strip"@),
{
    let toolchain = toolchain_path(fuchsia_root, host_is_mac);
    join_path(toolchain.as_str(), "bin/strip")
}

/// The clang driver of the toolchain, which is used as the linker.
pub fn clang_linker_path(fuchsia_root: &str, host_is_mac: bool) -> (path: String)
    ensures
        path@ == joined(
            joined(spec_toolchain_path(fuchsia_root@, host_is_mac), "bin"@),
            "clang"@,
        ),
{
    let toolchain = toolchain_path(fuchsia_root, host_is_mac);
    let bin = join_path(toolchain.as_str(), "bin");
    join_path(bin.as_str(), "clang")
}

/// The sysroot of the Zircon build for the target's processor.
pub fn sysroot_path(fuchsia_root: &str, options: &TargetOptions) -> (path: String)
    ensures
        path@ == joined(
            joined(
                joined(joined(fuchsia_root@, "out"@), "build-zircon"@),
                if options.target_cpu@ == "x86-64"@ {
                    "build-user-x86-64"@
                } else {
                    "build-user-arm64"@
                },
            ),
            "sysroot"@,
        ),
{
    let zircon_name = if str_eq(options.target_cpu, "x86-64") {
        "build-user-x86-64"
    } else {
        "build-user-arm64"
    };
    let out = join_path(fuchsia_root, "out");
    let zircon = join_path(out.as_str(), "build-zircon");
    let build = join_path(zircon.as_str(), zircon_name);
    join_path(build.as_str(), "sysroot")
}

} // verus!
