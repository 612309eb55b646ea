//! The dependencies that a crate's manifest names.

use vstd::prelude::*;

verus! {

/// What a manifest holds for one dependency.
#[derive(Debug)]
pub enum DependencyValue {
    /// A version requirement, written as a string.
    Version(String),
    /// Anything else: a table, a number, a list.
    Other,
}

/// What a manifest holds under `dependencies`.
#[derive(Debug)]
pub enum Dependencies {
    /// The manifest has no such entry.
    Missing,
    /// The entry is no table.
    NotATable,
    /// The entries of the table, in the manifest's order.
    Table(Vec<(String, DependencyValue)>),
}

/// Why the dependencies of a manifest cannot be listed.
#[derive(Debug, PartialEq, Eq)]
pub enum DependencyError {
    NoDependencies,
    DependenciesNotATable,
    /// The dependency `name` is not given by a version string.
    NonStringDependency { name: String },
}

/// The index of the first entry at or after `from` that is not a version
/// string, or the number of entries where there is none.
pub open spec fn first_non_string(entries: Seq<(String, DependencyValue)>, from: int) -> int
    decreases entries.len() - from,
{
    if 0 <= from < entries.len() && entries[from].1 is Version {
        first_non_string(entries, from + 1)
    } else {
        from
    }
}

/// The names of the entries, in order.
pub open spec fn names(entries: Seq<(String, DependencyValue)>) -> Seq<Seq<char>> {
    Seq::new(entries.len(), |i: int| entries[i].0@)
}

/// The names of a manifest's dependencies, in the manifest's order. Every
/// dependency must be given by a version string: the first that is not is
/// named in the error.
pub fn get_dependency_names(dependencies: &Dependencies) -> (r: Result<Vec<String>, DependencyError>)
    ensures
        match *dependencies {
            Dependencies::Missing => r == Err::<Vec<String>, DependencyError>(
                DependencyError::NoDependencies,
            ),
            Dependencies::NotATable => r == Err::<Vec<String>, DependencyError>(
                DependencyError::DependenciesNotATable,
            ),
            Dependencies::Table(entries) => {
                let stop = first_non_string(entries@, 0);
                if stop < entries@.len() {
                    &&& r is Err
                    &&& r->Err_0 is NonStringDependency
                    &&& r->Err_0->name@ == entries@[stop].0@
                } else {
                    &&& r is Ok
                    &&& crate::text::texts(r->Ok_0@) == names(entries@)
                }
            },
        },
{
    let entries = match dependencies {
        Dependencies::Missing => return Err(DependencyError::NoDependencies),
        Dependencies::NotATable => return Err(DependencyError::DependenciesNotATable),
        Dependencies::Table(entries) => entries,
    };
    let mut dep_names: Vec<String> = Vec::new();
    let mut i: usize = 0;
    while i < entries.len()
        invariant
            *dependencies == Dependencies::Table(*entries),
            i <= entries.len(),
            first_non_string(entries@, 0) == first_non_string(entries@, i as int),
            dep_names@.len() == i,
            forall|j: int| 0 <= j < i ==> (#[trigger] dep_names@[j])@ == entries@[j].0@,
        decreases entries.len() - i,
    {
        match &entries[i].1 {
            DependencyValue::Version(_) => {
                dep_names.push(entries[i].0.clone());
            },
            DependencyValue::Other => {
                return Err(DependencyError::NonStringDependency { name: entries[i].0.clone() });
            },
        }
        i = i + 1;
    }
    assert(crate::text::texts(dep_names@) =~= names(entries@));
    Ok(dep_names)
}

} // verus!
