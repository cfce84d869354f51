use modcrafter::codec::{config_to_json, parse_config};
use modcrafter::config::{ModConfig, Version};
use modcrafter::errors::Error;

#[test]
fn version_parse_three_components() {
    let v = Version::parse("1.16.5").unwrap();
    assert_eq!(v.major, 1);
    assert_eq!(v.minor, 16);
    assert_eq!(v.revision, 5);
}

#[test]
fn version_parse_two_components_fails() {
    assert_eq!(Version::parse("1.16").unwrap_err(), Error::Parse);
}

#[test]
fn version_parse_non_numeric_fails() {
    assert_eq!(Version::parse("a.b.c").unwrap_err(), Error::Parse);
}

#[test]
fn version_parse_four_components_fails() {
    assert_eq!(Version::parse("1.2.3.4").unwrap_err(), Error::Parse);
}

#[test]
fn version_parse_overflow_fails() {
    assert_eq!(Version::parse("1.2.70000").unwrap_err(), Error::Parse);
}

#[test]
fn version_empty_is_zero() {
    let v = Version::empty();
    assert_eq!(v.major, 0);
    assert_eq!(v.minor, 0);
    assert_eq!(v.revision, 0);
}

#[test]
fn descriptor_defaults_from_directory_name() {
    let c = ModConfig::new(Some("My Mod"), None, None, None, None, None).unwrap();
    assert_eq!(c.display_name(), "My Mod");
    assert_eq!(c.mod_id(), "my_mod");
    assert_eq!(c.mod_version(), "0.1.0");
    assert_eq!(c.description, "This mod was created using modcrafter.");
    assert_eq!(c.authors, None);
    assert_eq!(c.mc_version, Version::empty());
}

#[test]
fn descriptor_explicit_values_win() {
    let c = ModConfig::new(
        Some("dir"),
        Some("Fancy Name"),
        Some("customid"),
        Some("3.4.5"),
        Some("words"),
        Some("someone"),
    )
    .unwrap();
    assert_eq!(c.display_name(), "Fancy Name");
    assert_eq!(c.mod_id(), "customid");
    assert_eq!(c.mod_version(), "3.4.5");
    assert_eq!(c.description, "words");
    assert_eq!(c.authors.as_deref(), Some("someone"));
}

#[test]
fn descriptor_without_any_name_fails() {
    assert_eq!(
        ModConfig::new(None, None, None, None, None, None).unwrap_err(),
        Error::FileIo
    );
}

#[test]
fn set_mc_version_parses_and_keeps_other_fields() {
    let mut c = ModConfig::new(Some("proj"), None, None, None, None, None).unwrap();
    c.set_mc_version("1.16.5").unwrap();
    assert_eq!(c.mc_version, Version::parse("1.16.5").unwrap());
    assert_eq!(c.mod_id(), "proj");
    assert_eq!(c.set_mc_version("nonsense").unwrap_err(), Error::Parse);
    assert_eq!(c.mc_version, Version::parse("1.16.5").unwrap());
}

#[test]
fn explicit_project_version_round_trips_through_json() {
    let mut c = ModConfig::new(Some("My Mod"), None, None, Some("2.5.1"), None, None).unwrap();
    c.set_mc_version("1.16.5").unwrap();
    let text = config_to_json(&c);
    let back = parse_config(&text).unwrap();
    assert_eq!(back.mod_version(), "2.5.1");
    assert_eq!(back.display_name(), "My Mod");
    assert_eq!(back.mod_id(), "my_mod");
    assert_eq!(back.description, c.description);
    assert_eq!(back.authors, None);
    assert_eq!(back.mc_version, c.mc_version);
}

#[test]
fn awkward_strings_round_trip_through_json() {
    let c = ModConfig::new(
        Some("dir"),
        Some("Name \"quoted\" \\ slashed"),
        Some("id"),
        Some("0.0.1"),
        Some("line one\nline\ttwo\r"),
        Some("a, b"),
    )
    .unwrap();
    let text = config_to_json(&c);
    let back = parse_config(&text).unwrap();
    assert_eq!(back.display_name(), "Name \"quoted\" \\ slashed");
    assert_eq!(back.description, "line one\nline\ttwo\r");
    assert_eq!(back.authors.as_deref(), Some("a, b"));
}

#[test]
fn json_field_names_are_the_external_contract() {
    let c = ModConfig::new(Some("proj"), None, None, None, None, None).unwrap();
    let text = config_to_json(&c);
    assert!(text.contains("\"mc_version\""));
    assert!(text.contains("\"major\""));
    assert!(text.contains("\"minor\""));
    assert!(text.contains("\"revision\""));
    assert!(text.contains("\"mod_version\""));
    assert!(text.contains("\"display_name\""));
    assert!(text.contains("\"description\""));
    assert!(text.contains("\"mod_id\""));
    assert!(text.contains("\"authors\""));
}

#[test]
fn malformed_descriptor_text_is_rejected() {
    assert_eq!(parse_config("not json at all").unwrap_err(), Error::Parse);
    assert_eq!(parse_config("").unwrap_err(), Error::Parse);
    assert_eq!(
        parse_config("{\"mc_version\":{\"major\":1,\"minor\":2,\"revision\":3}}").unwrap_err(),
        Error::Parse
    );
}

#[test]
fn largest_version_numbers_round_trip() {
    let mut c = ModConfig::new(Some("proj"), None, None, None, None, None).unwrap();
    c.set_mc_version("65535.0.65535").unwrap();
    let back = parse_config(&config_to_json(&c)).unwrap();
    assert_eq!(back.mc_version.major, 65535);
    assert_eq!(back.mc_version.minor, 0);
    assert_eq!(back.mc_version.revision, 65535);
}

#[test]
fn pretty_printed_descriptor_parses() {
    let text = "{\n  \"mc_version\": {\n    \"major\": 1,\n    \"minor\": 16,\n    \"revision\": 5\n  },\n  \"mod_version\": \"0.1.0\",\n  \"display_name\": \"My Mod\",\n  \"description\": \"a b\",\n  \"mod_id\": \"my_mod\",\n  \"authors\": null\n}\n";
    let c = parse_config(text).unwrap();
    assert_eq!(c.mod_id(), "my_mod");
    assert_eq!(c.display_name(), "My Mod");
    assert_eq!(c.description, "a b");
    assert_eq!(c.mc_version, Version::parse("1.16.5").unwrap());
    assert_eq!(c.authors, None);
}

#[test]
fn whitespace_between_tokens_is_tolerated_not_invented() {
    let text = "\t{ \"mc_version\" :\n{ \"major\" : 0 , \"minor\" : 2 , \"revision\" : 3 } ,\r\n\"mod_version\" : \"1.0.0\" , \"display_name\" : \" padded \" , \"description\" : \"\" , \"mod_id\" : \"x\" , \"authors\" : \"someone\" }  ";
    let c = parse_config(text).unwrap();
    assert_eq!(c.mod_version(), "1.0.0");
    // Whitespace inside string values is kept exactly.
    assert_eq!(c.display_name(), " padded ");
    assert_eq!(c.authors.as_deref(), Some("someone"));
    // But whitespace cannot split a token.
    assert_eq!(
        parse_config("{\"mc_ version\":{\"major\":1,\"minor\":2,\"revision\":3},\"mod_version\":\"1\",\"display_name\":\"n\",\"description\":\"d\",\"mod_id\":\"i\",\"authors\":null}").unwrap_err(),
        Error::Parse
    );
}

#[test]
fn unicode_display_name_lowercases_in_id() {
    let c = ModConfig::new(Some("ÄBC Mod"), None, None, None, None, None).unwrap();
    assert_eq!(c.mod_id(), "äbc_mod");
}

#[test]
fn descriptor_fields_out_of_order_are_rejected() {
    let c = ModConfig::new(Some("proj"), None, None, None, None, None).unwrap();
    let text = config_to_json(&c);
    // Swap two field names: the canonical document is the contract.
    let swapped = text
        .replace("\"mod_version\"", "\"TMP\"")
        .replace("\"display_name\"", "\"mod_version\"")
        .replace("\"TMP\"", "\"display_name\"");
    assert_eq!(parse_config(&swapped).unwrap_err(), Error::Parse);
}

#[test]
fn error_messages_name_each_failure() {
    assert!(Error::ProjectExists.message().contains("exists"));
    assert!(Error::PatternNotFound.message().contains("marker"));
    assert!(Error::BuildFailed.message().contains("failure"));
}
