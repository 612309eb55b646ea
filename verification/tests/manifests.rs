use fargo::gn_deps::{get_dependency_names, Dependencies, DependencyError, DependencyValue};
use fargo::update_crates::{Cargo, Dependency, Library, Package};

const FUCHSIA_APP_CONTENTS: &str = r#"
    # Copyright 2017 The Fuchsia Authors. All rights reserved.
    # Use of this source code is governed by a BSD-style license that can be
    # found in the LICENSE file.

    [package]
    name = "fuchsia-app"
    version = "0.1.0"
    license = "BSD-3-Clause"
    authors = ["Taylor Cramer <cramertj@google.com>"]
    description = "Library for managing Fuchsia applications and services"

    [dependencies]
    fdio = "0.2.0"
    fidl = "0.1.0"
    fuchsia-zircon = "0.3.2"
    futures = "0.1.15"
    garnet_examples_fidl_services = "0.1.0"
    garnet_public_lib_app_fidl = "0.1.0"
    garnet_public_lib_app_fidl_service_provider = "0.1.0"
    mxruntime = "0.1.0"
    tokio-core = "0.1"
    tokio-fuchsia = "0.1.0"
    "#;

fn dependencies_of(manifest: &str) -> Dependencies {
    let decoded: toml::Value = manifest.parse().unwrap();
    match decoded.get("dependencies") {
        None => Dependencies::Missing,
        Some(toml::Value::Table(table)) => Dependencies::Table(
            table
                .iter()
                .map(|(name, value)| {
                    let value = match value {
                        toml::Value::String(version) => DependencyValue::Version(version.clone()),
                        _ => DependencyValue::Other,
                    };
                    (name.clone(), value)
                })
                .collect(),
        ),
        Some(_) => Dependencies::NotATable,
    }
}

#[test]
fn test_get_dependency_names() {
    let result = get_dependency_names(&dependencies_of(FUCHSIA_APP_CONTENTS)).unwrap();
    println!("result = {:?}", result);
    assert_eq!(10, result.len());
}

#[test]
fn dependency_names_keep_their_order() {
    let table = Dependencies::Table(vec![
        (String::from("fidl"), DependencyValue::Version(String::from("0.1.0"))),
        (String::from("fdio"), DependencyValue::Version(String::from("0.2.0"))),
    ]);
    assert_eq!(get_dependency_names(&table), Ok(vec![String::from("fidl"), String::from("fdio")]));
    assert_eq!(get_dependency_names(&Dependencies::Table(vec![])), Ok(vec![]));
}

#[test]
fn dependency_names_fail_as_the_manifest_does() {
    assert_eq!(get_dependency_names(&Dependencies::Missing), Err(DependencyError::NoDependencies));
    assert_eq!(
        get_dependency_names(&Dependencies::NotATable),
        Err(DependencyError::DependenciesNotATable)
    );
    let table = Dependencies::Table(vec![
        (String::from("fidl"), DependencyValue::Version(String::from("0.1.0"))),
        (String::from("mio"), DependencyValue::Other),
        (String::from("rand"), DependencyValue::Other),
    ]);
    assert_eq!(
        get_dependency_names(&table),
        Err(DependencyError::NonStringDependency { name: String::from("mio") })
    );
    assert_eq!(
        get_dependency_names(&dependencies_of("[dependencies]\nmio = { path = \"../mio\" }\n")),
        Err(DependencyError::NonStringDependency { name: String::from("mio") })
    );
    assert_eq!(
        get_dependency_names(&dependencies_of("dependencies = 3\n")),
        Err(DependencyError::DependenciesNotATable)
    );
    assert_eq!(
        get_dependency_names(&dependencies_of("[package]\nname = \"x\"\n")),
        Err(DependencyError::NoDependencies)
    );
}

#[test]
fn rewrite_publishes_dependencies() {
    let manifest = Cargo {
        package: Package { name: String::from("app"), version: String::from("0.2.0") },
        lib: Some(Library { path: String::from("src/lib.rs"), name: String::from("app") }),
        dependencies: Some(vec![
            (
                String::from("magenta"),
                Dependency {
                    path: Some(String::from("../magenta")),
                    git: Some(String::from("https://example.com/m")),
                    version: None,
                },
            ),
            (
                String::from("fidl"),
                Dependency {
                    path: Some(String::from("../fidl")),
                    git: None,
                    version: Some(String::from("0.3")),
                },
            ),
            (String::from("mxruntime"), Dependency { path: None, git: None, version: None }),
        ]),
    };
    let rewritten = manifest.rewrite();
    assert_eq!(rewritten.package.name, "app");
    assert_eq!(rewritten.package.version, "0.2.0");
    let lib = rewritten.lib.unwrap();
    assert_eq!(lib.path, "src/lib.rs");
    assert_eq!(lib.name, "app");
    let deps = rewritten.dependencies.unwrap();
    assert_eq!(deps.len(), 3);
    assert_eq!(deps[0].0, "magenta");
    assert_eq!(deps[0].1.path, None);
    assert_eq!(deps[0].1.git, Some(String::from("https://example.com/m")));
    assert_eq!(deps[0].1.version, Some(String::from("0.1.0")));
    assert_eq!(deps[1].0, "fidl");
    assert_eq!(deps[1].1.path, None);
    assert_eq!(
        deps[1].1.git,
        Some(String::from("https://fuchsia.googlesource.com/fuchsia-crates"))
    );
    assert_eq!(deps[1].1.version, Some(String::from("0.3")));
    assert_eq!(deps[2].0, "mxruntime");
    assert_eq!(deps[2].1.git, None);
    assert_eq!(deps[2].1.version, Some(String::from("0.1.0")));
}

#[test]
fn rewrite_keeps_a_manifest_without_dependencies() {
    let manifest = Cargo {
        package: Package { name: String::from("app"), version: String::from("0.2.0") },
        lib: None,
        dependencies: None,
    };
    let rewritten = manifest.rewrite();
    assert!(rewritten.lib.is_none());
    assert!(rewritten.dependencies.is_none());
}
