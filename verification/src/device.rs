//! What is decided and computed when a device or an emulator is set up and
//! spoken to. Running the commands is left to the caller.

use crate::commands::{optional, push_str};
use crate::text::texts;
use vstd::prelude::*;

verus! {

/// How often bringing up the network interface is tried again after it
/// failed.
pub const IFCONFIG_RETRIES: u32 = 10;

/// What to do after an attempt to bring up the network interface.
#[derive(Debug, Clone, Copy, PartialEq, Eq)]
pub enum RetryStep {
    /// The interface is up.
    Done,
    /// Wait a moment and try again; `attempts` failed so far.
    Retry { attempts: u32 },
    /// Too many attempts failed.
    GiveUp,
}

pub open spec fn spec_ifconfig_step(failed_before: u32, succeeded: bool) -> RetryStep {
    if succeeded {
        RetryStep::Done
    } else if failed_before > IFCONFIG_RETRIES {
        RetryStep::GiveUp
    } else {
        RetryStep::Retry { attempts: (failed_before + 1) as u32 }
    }
}

/// Decides what follows an attempt to bring up the network interface, of
/// which `failed_before` earlier ones failed: a success ends the loop, a
/// failure is tried again until more than `IFCONFIG_RETRIES` have failed.
pub fn ifconfig_step(failed_before: u32, succeeded: bool) -> (step: RetryStep)
    ensures
        step == spec_ifconfig_step(failed_before, succeeded),
{
    if succeeded {
        RetryStep::Done
    } else if failed_before > IFCONFIG_RETRIES {
        RetryStep::GiveUp
    } else {
        RetryStep::Retry { attempts: failed_before + 1 }
    }
}

/// Whether a change in the working directory calls for the tests to run
/// again: changes below the build output and below the repository's own
/// directory do not.
pub fn change_runs_tests(in_target_dir: bool, in_git_dir: bool) -> (runs: bool)
    ensures
        runs == (!in_target_dir && !in_git_dir),
{
    !in_target_dir && !in_git_dir
}

/// The arguments for the tool that finds a device's address: `--fuchsia`,
/// then the device's name where one is given.
pub fn netaddr_args(device_name: Option<&str>) -> (args: Vec<String>)
    ensures
        texts(args@) == seq!["--fuchsia"@] + (match device_name {
            Some(name) => seq![name@],
            None => Seq::empty(),
        }),
{
    let mut args: Vec<String> = Vec::new();
    assert(texts(args@) =~= Seq::<Seq<char>>::empty());
    push_str(&mut args, "--fuchsia");
    if let Some(name) = device_name {
        push_str(&mut args, name);
    }
    assert(texts(args@) =~= seq!["--fuchsia"@] + (match device_name {
        Some(name) => seq![name@],
        None => Seq::empty(),
    }));
    args
}

/// The arguments that start the emulator: `run -N`, then `-g` for graphics.
pub fn emulator_args(with_graphics: bool) -> (args: Vec<String>)
    ensures
        texts(args@) == seq!["run"@, "-N"@] + optional(with_graphics, seq!["-g"@]),
{
    let mut args: Vec<String> = Vec::new();
    assert(texts(args@) =~= Seq::<Seq<char>>::empty());
    push_str(&mut args, "run");
    push_str(&mut args, "-N");
    if with_graphics {
        push_str(&mut args, "-g");
    }
    assert(texts(args@) =~= seq!["run"@, "-N"@] + optional(with_graphics, seq!["-g"@]));
    args
}

/// Where scp copies to: the device's address in brackets, `:`, the path.
pub fn scp_destination(netaddr: &str, destination_path: &str) -> (destination: String)
    ensures
        destination@ == "["@ + netaddr@ + "]:"@ + destination_path@,
{
    let mut destination = "[".to_owned();
    destination.append(netaddr);
    destination.append("]:");
    destination.append(destination_path);
    destination
}

} // verus!
