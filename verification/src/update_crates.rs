//! Rewriting the manifests of crates from the build tree for publication.

use crate::text::str_eq;
use vstd::prelude::*;

verus! {

/// Where the published crates are kept.
pub const FUCHSIA_CRATES_URL: &'static str = "https://fuchsia.googlesource.com/fuchsia-crates";

/// The version that the system crates are published with.
pub const SYSTEM_CRATE_VERSION: &'static str = "0.1.0";

#[derive(Debug)]
pub struct Dependency {
    pub path: Option<String>,
    pub git: Option<String>,
    pub version: Option<String>,
}

#[derive(Debug)]
pub struct Package {
    pub name: String,
    pub version: String,
}

#[derive(Debug)]
pub struct Library {
    pub path: String,
    pub name: String,
}

/// A crate's manifest. The dependencies are kept by name, in the order in
/// which the manifest lists them.
#[derive(Debug)]
pub struct Cargo {
    pub package: Package,
    pub lib: Option<Library>,
    pub dependencies: Option<Vec<(String, Dependency)>>,
}

/// An optional text as a value.
pub open spec fn text_of_option(text: Option<String>) -> Option<Seq<char>> {
    match text {
        Some(t) => Some(t@),
        None => None,
    }
}

/// What a dependency says, as values.
pub struct DependencyModel {
    pub path: Option<Seq<char>>,
    pub git: Option<Seq<char>>,
    pub version: Option<Seq<char>>,
}

/// The crates that are published with a version and not from the
/// repository of crates.
pub open spec fn is_system_crate(name: Seq<char>) -> bool {
    name == "magenta"@ || name == "mxruntime"@
}

/// A dependency as it is published: without a path; a system crate with
/// the fixed version, any other from the repository of crates.
pub open spec fn rewritten(name: Seq<char>, dependency: DependencyModel) -> DependencyModel {
    if is_system_crate(name) {
        DependencyModel { path: None, git: dependency.git, version: Some(SYSTEM_CRATE_VERSION@) }
    } else {
        DependencyModel { path: None, git: Some(FUCHSIA_CRATES_URL@), version: dependency.version }
    }
}

fn clone_option(text: &Option<String>) -> (copy: Option<String>)
    ensures
        text_of_option(copy) == text_of_option(*text),
{
    match text {
        Some(t) => Some(t.clone()),
        None => None,
    }
}

impl Dependency {
    pub open spec fn model(self) -> DependencyModel {
        DependencyModel {
            path: text_of_option(self.path),
            git: text_of_option(self.git),
            version: text_of_option(self.version),
        }
    }

    /// This dependency of the crate `name`, as it is published.
    pub fn rewrite(&self, name: &str) -> (r: Dependency)
        ensures
            r.model() == rewritten(name@, self.model()),
    {
        if str_eq(name, "magenta") || str_eq(name, "mxruntime") {
            Dependency {
                path: None,
                git: clone_option(&self.git),
                version: Some(SYSTEM_CRATE_VERSION.to_owned()),
            }
        } else {
            Dependency {
                path: None,
                git: Some(FUCHSIA_CRATES_URL.to_owned()),
                version: clone_option(&self.version),
            }
        }
    }
}

impl Cargo {
    /// Whether `other` lists the dependencies of `self`, each under its
    /// name and rewritten, in the same order.
    pub open spec fn dependencies_rewritten(self, other: Cargo) -> bool {
        match (self.dependencies, other.dependencies) {
            (None, None) => true,
            (Some(old_deps), Some(new_deps)) => {
                &&& new_deps@.len() == old_deps@.len()
                &&& forall|i: int|
                    0 <= i < old_deps@.len() ==> {
                        &&& (#[trigger] new_deps@[i]).0@ == old_deps@[i].0@
                        &&& new_deps@[i].1.model() == rewritten(
                            old_deps@[i].0@,
                            old_deps@[i].1.model(),
                        )
                    }
            },
            _ => false,
        }
    }

    /// The manifest as it is published: package and library as they are,
    /// every dependency rewritten.
    pub fn rewrite(&self) -> (r: Cargo)
        ensures
            r.package.name@ == self.package.name@,
            r.package.version@ == self.package.version@,
            match (self.lib, r.lib) {
                (None, None) => true,
                (Some(old_lib), Some(new_lib)) => new_lib.path@ == old_lib.path@ && new_lib.name@
                    == old_lib.name@,
                _ => false,
            },
            self.dependencies_rewritten(r),
    {
        let new_deps = match &self.dependencies {
            Some(old_deps) => {
                let mut new_deps: Vec<(String, Dependency)> = Vec::new();
                let mut i: usize = 0;
                while i < old_deps.len()
                    invariant
                        i <= old_deps.len(),
                        new_deps@.len() == i,
                        forall|j: int|
                            0 <= j < i ==> {
                                &&& (#[trigger] new_deps@[j]).0@ == old_deps@[j].0@
                                &&& new_deps@[j].1.model() == rewritten(
                                    old_deps@[j].0@,
                                    old_deps@[j].1.model(),
                                )
                            },
                    decreases old_deps.len() - i,
                {
                    let name = &old_deps[i].0;
                    let dependency = old_deps[i].1.rewrite(name.as_str());
                    new_deps.push((name.clone(), dependency));
                    i = i + 1;
                }
                Some(new_deps)
            },
            None => None,
        };
        let lib = match &self.lib {
            Some(old_lib) => Some(
                Library { path: old_lib.path.clone(), name: old_lib.name.clone() },
            ),
            None => None,
        };
        Cargo {
            package: Package {
                name: self.package.name.clone(),
                version: self.package.version.clone(),
            },
            lib: lib,
            dependencies: new_deps,
        }
    }
}

} // verus!
