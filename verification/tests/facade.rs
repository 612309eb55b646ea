use fargo::facade::{
    create_build_gn_contents, create_cargo_toml_contents, FacadeError, FacadeTarget,
};

#[test]
fn noop_test() {}

#[test]
fn test_crate_name_from_path() {
    let facade_target = FacadeTarget::parse("//garnet/public/lib/app/fidl:fidl").unwrap();
    assert_eq!(facade_target.crate_name(), "garnet_public_lib_app_fidl");
    let facade_target = FacadeTarget::parse("//foo/bar/bar:fidl").unwrap();
    assert_eq!(facade_target.crate_name(), "foo_bar_bar_fidl");
    let facade_target =
        FacadeTarget::parse("//garnet/public/lib/app/fidl:service_provider").unwrap();
    assert_eq!(facade_target.crate_name(), "garnet_public_lib_app_fidl_service_provider");
}

#[test]
fn parse_splits_path_and_label() {
    let target = FacadeTarget::parse("//garnet/public/lib/app/fidl:service_provider").unwrap();
    assert_eq!(target.gn_path, "//garnet/public/lib/app/fidl");
    assert_eq!(target.fs_path, "garnet/public/lib/app/fidl");
    assert_eq!(target.label, "service_provider");
}

#[test]
fn parse_without_label_uses_fidl() {
    let target = FacadeTarget::parse("//apps/mozart/services/input").unwrap();
    assert_eq!(target.gn_path, "//apps/mozart/services/input");
    assert_eq!(target.fs_path, "apps/mozart/services/input");
    assert_eq!(target.label, "fidl");
    assert_eq!(target.crate_name(), "apps_mozart_services_input_fidl");
}

#[test]
fn parse_keeps_a_path_without_root_marker() {
    let target = FacadeTarget::parse("lib/ui:views").unwrap();
    assert_eq!(target.gn_path, "lib/ui");
    assert_eq!(target.fs_path, "lib/ui");
    assert_eq!(target.label, "views");
    let target = FacadeTarget::parse("/lib:x").unwrap();
    assert_eq!(target.fs_path, "/lib");
}

#[test]
fn parse_rejects_two_colons() {
    assert_eq!(
        FacadeTarget::parse("//a/b:c:d").err(),
        Some(FacadeError::MalformedInterfacePath)
    );
    assert_eq!(FacadeTarget::parse("::").err(), Some(FacadeError::MalformedInterfacePath));
}

#[test]
fn parse_accepts_empty_parts() {
    let target = FacadeTarget::parse(":").unwrap();
    assert_eq!(target.gn_path, "");
    assert_eq!(target.fs_path, "");
    assert_eq!(target.label, "");
    assert_eq!(target.crate_name(), "");
    let target = FacadeTarget::parse("").unwrap();
    assert_eq!(target.label, "fidl");
    assert_eq!(target.crate_name(), "");
}

#[test]
fn crate_name_skips_empty_parts() {
    let target = FacadeTarget { gn_path: "//a//b/", fs_path: "a//b/", label: "c" };
    assert_eq!(target.crate_name(), "a_b_c");
    let target = FacadeTarget { gn_path: "///", fs_path: "/", label: "c" };
    assert_eq!(target.crate_name(), "");
    let target = FacadeTarget { gn_path: "c", fs_path: "c", label: "c" };
    assert_eq!(target.crate_name(), "c");
}

#[test]
fn cargo_toml_contents_name_the_crate() {
    let contents = create_cargo_toml_contents("garnet_public_lib_app_fidl");
    assert!(contents.starts_with("# Copyright 2018 The Fuchsia Authors. All rights reserved.\n"));
    assert!(contents.contains("[package]\nname = \"garnet_public_lib_app_fidl\"\nversion = \"0.1.0\"\n"));
    assert!(contents.ends_with("tokio-core = \"0.1\"\ntokio-fuchsia = \"0.1\"\n"));
}

#[test]
fn build_gn_contents_name_crate_and_interface() {
    let contents = create_build_gn_contents("foo_bar_fidl", "foo/bar", "fidl");
    assert!(contents.ends_with(
        "import(\"//build/rust/rust_library.gni\")\n\nrust_library(\"foo_bar_fidl\") {\n  deps = [\n    \"//foo/bar:fidl_rust\",\n  ]\n  }\n"
    ));
}
