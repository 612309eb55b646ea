use crate::sdk::{join_path, joined, TargetOptions};
use crate::text::str_eq;
use vstd::prelude::*;

verus! {

pub open spec fn spec_cross_root(home: Seq<char>, options: TargetOptions) -> Seq<char> {
    joined(joined(joined(home, ".fargo"@), "native_deps"@), options.target_cpu@)
}

/// Where the native dependencies for the target are kept below the home
/// directory `home`.
pub fn cross_root(home: &str, target_options: &TargetOptions) -> (path: String)
    ensures
        path@ == spec_cross_root(home@, *target_options),
{
    let fargo = join_path(home, ".fargo");
    let native_deps = join_path(fargo.as_str(), "native_deps");
    join_path(native_deps.as_str(), target_options.target_cpu)
}

/// The directory that pkg-config searches: `lib/pkgconfig` in `cross_root`.
pub fn pkg_config_path(cross_root: &str) -> (path: String)
    ensures
        path@ == joined(joined(cross_root@, "lib"@), "pkgconfig"@),
{
    let lib = join_path(cross_root, "lib");
    join_path(lib.as_str(), "pkgconfig")
}

/// The flags for the C compiler: the sysroot, the target and the directory
/// of headers.
pub fn common_c_flags(sysroot: &str, target_cpu_linker: &str, include_dir: &str) -> (flags: String)
    ensures
        flags@ == "--sysroot="@ + sysroot@ + " --target="@ + target_cpu_linker@
            + "-fuchsia -fPIC -I"@ + include_dir@,
{
    let mut flags = "--sysroot=".to_owned();
    flags.append(sysroot);
    flags.append(" --target=");
    flags.append(target_cpu_linker);
    flags.append("-fuchsia -fPIC -I");
    flags.append(include_dir);
    flags
}

/// The flags for the linker: those set before, those for the C compiler,
/// and the directory of libraries.
pub fn ld_flags(prev_flags: &str, common_c_flags: &str, cross_lib: &str) -> (flags: String)
    ensures
        flags@ == prev_flags@ + " "@ + common_c_flags@ + " -L"@ + cross_lib@,
{
    let mut flags = prev_flags.to_owned();
    flags.append(" ");
    flags.append(common_c_flags);
    flags.append(" -L");
    flags.append(cross_lib);
    flags
}

/// The argument that tells configure where to install.
pub fn prefix_arg(cross_root: &str) -> (arg: String)
    ensures
        arg@ == "--prefix="@ + cross_root@,
{
    let mut arg = "--prefix=".to_owned();
    arg.append(cross_root);
    arg
}

/// The host that configure is told to build for.
pub fn configure_host(target_cpu: &str) -> (host: &'static str)
    ensures
        host@ == (if target_cpu@ == "x86-64"@ {
            "x86_64-fuchsia-elf"@
        } else {
            "aarch64-fuchsia-elf"@
        }),
{
    if str_eq(target_cpu, "x86-64") {
        "x86_64-fuchsia-elf"
    } else {
        "aarch64-fuchsia-elf"
    }
}

} // verus!
