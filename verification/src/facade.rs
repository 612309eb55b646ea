use crate::text::{chars_eq, chars_of, join_with, push_char, text_of};
use vstd::prelude::*;
use vstd::slice::slice_subrange;
use vstd::string::StrSliceExecFns;

verus! {

/// Why an interface path names no target.
#[derive(Debug, Clone, Copy, PartialEq, Eq)]
pub enum FacadeError {
    /// The path holds more than one `:`.
    MalformedInterfacePath,
}

/// A FIDL target, named as GN names it: a path and, after a `:`, a label.
#[derive(Debug)]
pub struct FacadeTarget<'a> {
    pub gn_path: &'a str,
    pub fs_path: &'a str,
    pub label: &'a str,
}

/// The end of the run that starts at `pos` and holds only `c` (where
/// `equal`) or anything but `c` (where not).
pub open spec fn run_end(s: Seq<char>, pos: int, c: char, equal: bool) -> int
    decreases s.len() - pos,
{
    if 0 <= pos < s.len() && (s[pos] == c) == equal {
        run_end(s, pos + 1, c, equal)
    } else {
        pos
    }
}

/// A run never ends before its start nor outside the text.
proof fn lemma_run_end_bounds(s: Seq<char>, pos: int, c: char, equal: bool)
    requires
        0 <= pos <= s.len(),
    ensures
        pos <= run_end(s, pos, c, equal) <= s.len(),
    decreases s.len() - pos,
{
    if pos < s.len() && (s[pos] == c) == equal {
        lemma_run_end_bounds(s, pos + 1, c, equal);
    }
}

/// Finds the end of the run that starts at `pos`.
fn find_run_end(input: &[char], pos: usize, c: char, equal: bool) -> (end: usize)
    requires
        pos <= input.len(),
    ensures
        end == run_end(input@, pos as int, c, equal),
        pos <= end <= input.len(),
        end < input.len() ==> (input@[end as int] == c) != equal,
{
    let mut i: usize = pos;
    while i < input.len() && (input[i] == c) == equal
        invariant
            pos <= i <= input.len(),
            run_end(input@, pos as int, c, equal) == run_end(input@, i as int, c, equal),
        decreases input.len() - i,
    {
        i = i + 1;
    }
    i
}

/// A path without the `//` that marks the root of the tree.
pub open spec fn without_root_marker(path: Seq<char>) -> Seq<char> {
    if path.len() >= 2 && path[0] == '/' && path[1] == '/' {
        path.skip(2)
    } else {
        path
    }
}

/// The parts of an interface path: the GN path, the path in the file
/// system and the label. Without a `:` the label is `fidl`; with one, the
/// label is what follows it; with more than one the path is malformed.
pub open spec fn spec_parse(path: Seq<char>) -> Result<
    (Seq<char>, Seq<char>, Seq<char>),
    FacadeError,
> {
    let colon = run_end(path, 0, ':', false);
    if colon >= path.len() {
        Ok((path, without_root_marker(path), "fidl"@))
    } else if run_end(path, colon + 1, ':', false) < path.len() {
        Err(FacadeError::MalformedInterfacePath)
    } else {
        let gn_path = path.subrange(0, colon);
        Ok((gn_path, without_root_marker(gn_path), path.subrange(colon + 1, path.len() as int)))
    }
}

/// The non-empty parts of `s` between `/`, from `pos` on, added to `acc`.
pub open spec fn segments_from(s: Seq<char>, pos: int, acc: Seq<Seq<char>>) -> Seq<Seq<char>>
    decreases s.len() - pos,
{
    let start = run_end(s, pos, '/', true);
    if !(pos <= start < s.len()) {
        acc
    } else {
        let end = run_end(s, start, '/', false);
        if start < end <= s.len() {
            segments_from(s, end, acc.push(s.subrange(start, end)))
        } else {
            acc
        }
    }
}

/// The crate's name: the parts of the path and then the label, unless the
/// last part is the label already, with `_` between them. A path without
/// parts gives the empty name.
pub open spec fn spec_crate_name(fs_path: Seq<char>, label: Seq<char>) -> Seq<char> {
    let parts = segments_from(fs_path, 0, Seq::empty());
    if parts.len() > 0 && parts.last() != label {
        join_with(parts.push(label), '_')
    } else {
        join_with(parts, '_')
    }
}

/// Strips the `//` that marks the root of the tree.
fn without_root_marker_of<'a>(path: &'a str) -> (stripped: &'a str)
    ensures
        stripped@ == without_root_marker(path@),
{
    let n = path.unicode_len();
    if n >= 2 && path.get_char(0) == '/' && path.get_char(1) == '/' {
        path.substring_char(2, n)
    } else {
        path
    }
}

/// Adds the characters from `from` up to `to` to the text.
fn append_chars(text: &mut String, chars: &[char], from: usize, to: usize)
    requires
        from <= to <= chars.len(),
    ensures
        final(text)@ == old(text)@ + chars@.subrange(from as int, to as int),
{
    let part = text_of(chars, from, to);
    text.append(part.as_str());
}

impl<'a> FacadeTarget<'a> {
    /// Splits an interface path into GN path, file system path and label.
    pub fn parse(path_to_interface: &'a str) -> (r: Result<FacadeTarget<'a>, FacadeError>)
        ensures
            match r {
                Ok(target) => spec_parse(path_to_interface@) == Ok::<
                    (Seq<char>, Seq<char>, Seq<char>),
                    FacadeError,
                >((target.gn_path@, target.fs_path@, target.label@)),
                Err(e) => spec_parse(path_to_interface@) == Err::<
                    (Seq<char>, Seq<char>, Seq<char>),
                    FacadeError,
                >(e),
            },
    {
        let chars = chars_of(path_to_interface);
        let n = chars.len();
        let colon = find_run_end(chars.as_slice(), 0, ':', false);
        if colon >= n {
            return Ok(
                FacadeTarget {
                    gn_path: path_to_interface,
                    fs_path: without_root_marker_of(path_to_interface),
                    label: "fidl",
                },
            );
        }
        if find_run_end(chars.as_slice(), colon + 1, ':', false) < n {
            return Err(FacadeError::MalformedInterfacePath);
        }
        let path_without_label = path_to_interface.substring_char(0, colon);
        Ok(
            FacadeTarget {
                gn_path: path_without_label,
                fs_path: without_root_marker_of(path_without_label),
                label: path_to_interface.substring_char(colon + 1, n),
            },
        )
    }

    /// The name of the facade crate for this target.
    pub fn crate_name(&self) -> (name: String)
        ensures
            name@ == spec_crate_name(self.fs_path@, self.label@),
    {
        let path_chars = chars_of(self.fs_path);
        let path = path_chars.as_slice();
        let label_chars = chars_of(self.label);
        let label = label_chars.as_slice();
        let mut name = String::new();
        let mut at: usize = 0;
        let mut last_start: usize = 0;
        let mut last_end: usize = 0;
        let mut any = false;
        let ghost mut parts: Seq<Seq<char>> = Seq::empty();
        loop
            invariant
                at <= path.len(),
                segments_from(path@, 0, Seq::empty()) == segments_from(path@, at as int, parts),
                name@ == join_with(parts, '_'),
                any == (parts.len() > 0),
                any ==> last_start <= last_end <= path.len() && parts.last() == path@.subrange(
                    last_start as int,
                    last_end as int,
                ),
            ensures
                segments_from(path@, 0, Seq::empty()) == parts,
                name@ == join_with(parts, '_'),
                any == (parts.len() > 0),
                any ==> last_start <= last_end <= path.len() && parts.last() == path@.subrange(
                    last_start as int,
                    last_end as int,
                ),
            decreases path.len() - at,
        {
            let start = find_run_end(path, at, '/', true);
            if start >= path.len() {
                break ;
            }
            let end = find_run_end(path, start, '/', false);
            proof {
                lemma_run_end_bounds(path@, start as int + 1, '/', false);
            }
            if any {
                push_char(&mut name, '_');
            }
            append_chars(&mut name, path, start, end);
            proof {
                let part = path@.subrange(start as int, end as int);
                assert(parts.push(part).drop_last() == parts);
                parts = parts.push(part);
            }
            any = true;
            last_start = start;
            last_end = end;
            at = end;
        }
        if any && !chars_eq(slice_subrange(path, last_start, last_end), label) {
            push_char(&mut name, '_');
            append_chars(&mut name, label, 0, label.len());
            proof {
                assert(parts.push(label@).drop_last() == parts);
                assert(label@.subrange(0, label@.len() as int) == label@);
            }
        }
        name
    }
}

/// The manifest of a facade crate named `crate_name`.
pub fn create_cargo_toml_contents(crate_name: &str) -> (contents: String)
    ensures
        contents@ == CARGO_TOML_HEAD@ + crate_name@ + CARGO_TOML_TAIL@,
{
    let mut contents = CARGO_TOML_HEAD.to_owned();
    contents.append(crate_name);
    contents.append(CARGO_TOML_TAIL);
    contents
}

/// The build file of a facade crate named `crate_name` for the interface
/// at `interface_path` with the label `module_name`.
pub fn create_build_gn_contents(crate_name: &str, interface_path: &str, module_name: &str) -> (contents:
    String)
    ensures
        contents@ == BUILD_GN_HEAD@ + crate_name@ + BUILD_GN_DEPS@ + interface_path@ + ":"@
            + module_name@ + BUILD_GN_TAIL@,
{
    let mut contents = BUILD_GN_HEAD.to_owned();
    contents.append(crate_name);
    contents.append(BUILD_GN_DEPS);
    contents.append(interface_path);
    contents.append(":");
    contents.append(module_name);
    contents.append(BUILD_GN_TAIL);
    contents
}

pub const CARGO_TOML_HEAD: &'static str =
    "# Copyright 2018 The Fuchsia Authors. All rights reserved.\n# Use of this source code is governed by a BSD-style license that can be\n# found in the LICENSE file.\n[package]\nname = \"";

pub const CARGO_TOML_TAIL: &'static str =
    "\"\nversion = \"0.1.0\"\nlicense = \"BSD-3-Clause\"\nauthors = [\"rust-fuchsia@fuchsia.com\"]\ndescription = \"Generated interface\"\nrepository = \"https://fuchsia.googlesource.com/garnet/\"\n\n[dependencies]\nfidl = \"0.1\"\nfuchsia-zircon = \"0.3\"\nfutures = \"0.1.15\"\ntokio-core = \"0.1\"\ntokio-fuchsia = \"0.1\"\n";

pub const BUILD_GN_HEAD: &'static str =
    "# Copyright 2017 The Fuchsia Authors. All rights reserved.\n# Use of this source code is governed by a BSD-style license that can be\n# found in the LICENSE file.\n\nimport(\"//build/rust/rust_library.gni\")\n\nrust_library(\"";

pub const BUILD_GN_DEPS: &'static str = "\") {\n  deps = [\n    \"//";

pub const BUILD_GN_TAIL: &'static str = "_rust\",\n  ]\n  }\n";

} // verus!
