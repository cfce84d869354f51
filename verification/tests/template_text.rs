use modcrafter::errors::Error;
use modcrafter::java::{JavaAccessLevel, JavaClass, JavaField, JavaType};
use modcrafter::template::{discover_sdk_version, pack_mcmeta_text, rewrite_build_definition};

#[test]
fn discovers_version_between_marker_and_dash() {
    let text = "dependencies { minecraft 'net.example:forge:36.2.0-build' }";
    assert_eq!(discover_sdk_version(text).unwrap(), "36.2.0");
}

#[test]
fn discovers_version_in_realistic_build_definition() {
    let text = "minecraft 'net.minecraftforge:forge:1.16.5-36.2.39'\n";
    assert_eq!(discover_sdk_version(text).unwrap(), "1.16.5");
}

#[test]
fn missing_marker_is_pattern_not_found() {
    assert_eq!(
        discover_sdk_version("no dependency line here").unwrap_err(),
        Error::PatternNotFound
    );
}

#[test]
fn marker_without_dash_is_pattern_not_found() {
    assert_eq!(
        discover_sdk_version("x 'net.example:forge:36' y").unwrap_err(),
        Error::PatternNotFound
    );
}

#[test]
fn rewrite_applies_all_four_substitutions() {
    let text = "group = 'com.yourname.modid'\nmodid here, examplemod there\nversion = '1.0'\n";
    let out = rewrite_build_definition(text, "mymod", "2.0.0");
    assert_eq!(
        out,
        "group = 'modcrafter.mymod'\nmymod here, mymod there\nversion = '2.0.0'\n"
    );
}

#[test]
fn rewrite_without_placeholders_changes_nothing() {
    let text = "plain text, nothing to see\n";
    assert_eq!(rewrite_build_definition(text, "id", "1.2.3"), text);
}

#[test]
fn pack_metadata_embeds_display_name() {
    let out = pack_mcmeta_text("My Mod");
    assert!(out.contains("\"description\": \"My Mod resources\""));
    assert!(out.contains("\"pack_format\": 5"));
    assert!(out.starts_with("{\n    \"pack\": {\n"));
    assert!(out.ends_with("}\n"));
}

#[test]
fn class_renders_like_the_template() {
    let class = JavaClass::new(
        "com.creepsy.main",
        "TestClass",
        Some("TestSuperClass"),
        vec!["Baum1", "Baum2", "Baum3"],
        vec![
            JavaField::new("test_var", "0.25", JavaType::Float, JavaAccessLevel::Public),
            JavaField::new("test_var2", "true", JavaType::Bool, JavaAccessLevel::Protected),
        ],
        Vec::new(),
    );
    let expected = "package com.creepsy.main;\n\nimport none;\n\npublic class TestClass extends TestSuperClass implements Baum1, Baum2, Baum3 {\n    public float test_var = 0.25;\n    protected bool test_var2 = true;\n}\n";
    assert_eq!(class.render(), expected);
}

#[test]
fn class_without_super_or_interfaces_renders_bare() {
    let class = JavaClass::new("p", "C", None, Vec::new(), Vec::new(), Vec::new());
    assert_eq!(class.render(), "package p;\n\nimport none;\n\npublic class C {\n}\n");
}

#[test]
fn unknown_types_render_as_undefined() {
    let f = JavaField::new("x", "0", JavaType::Long, JavaAccessLevel::Private);
    assert_eq!(f.render(), "private undefined x = 0;");
    assert_eq!(JavaType::Float.render(), "float");
    assert_eq!(JavaAccessLevel::Public.render(), "public");
}
