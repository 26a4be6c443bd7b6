use server_bootstrap::spigot::{
    get_resource_id, get_spigot_url, parse_spigot_info, parse_spigot_latest_version,
    spigot_info_url, spigot_latest_version_url, FieldKind, SourceError,
};

#[test]
fn bare_numeric_id_is_unchanged() {
    assert_eq!(get_resource_id("1234"), "1234");
}

#[test]
fn slug_prefix_is_stripped_at_the_dot() {
    assert_eq!(get_resource_id("CoolPlugin.1234"), "1234");
}

#[test]
fn trailing_dot_leaves_identifier_unchanged() {
    assert_eq!(get_resource_id("CoolPlugin."), "CoolPlugin.");
}

#[test]
fn last_dot_separates_the_id() {
    assert_eq!(get_resource_id("cool.plugin.1234"), "1234");
}

#[test]
fn download_url_is_deterministic() {
    assert_eq!(
        get_spigot_url("CoolPlugin.1234"),
        "https://api.spiget.org/v2/resources/1234/download"
    );
}

#[test]
fn metadata_and_latest_version_urls() {
    assert_eq!(
        spigot_info_url("CoolPlugin.1234"),
        "https://api.spiget.org/v2/resources/1234"
    );
    assert_eq!(
        spigot_latest_version_url("777"),
        "https://api.spiget.org/v2/resources/777/versions/latest"
    );
}

#[test]
fn info_is_extracted_from_a_metadata_body() {
    let info = parse_spigot_info("{\"name\":\"Cool\",\"tag\":\"A cool plugin\",\"id\":7}")
        .expect("both fields present");
    assert_eq!(info.name, "Cool");
    assert_eq!(info.tag, "A cool plugin");
}

#[test]
fn missing_name_field_is_a_typed_error() {
    let err = parse_spigot_info("{\"tag\":\"t\"}").unwrap_err();
    assert_eq!(err, SourceError::MissingField(FieldKind::Name));
}

#[test]
fn missing_tag_field_is_a_typed_error() {
    let err = parse_spigot_info("{\"name\":\"n\"}").unwrap_err();
    assert_eq!(err, SourceError::MissingField(FieldKind::Tag));
}

#[test]
fn wrongly_typed_field_counts_as_missing() {
    let err = parse_spigot_info("{\"name\":7,\"tag\":\"t\"}").unwrap_err();
    assert_eq!(err, SourceError::MissingField(FieldKind::Name));
}

#[test]
fn unparsable_body_is_invalid_json() {
    assert_eq!(
        parse_spigot_info("not json").unwrap_err(),
        SourceError::InvalidJson
    );
    assert_eq!(
        parse_spigot_latest_version("{oops").unwrap_err(),
        SourceError::InvalidJson
    );
}

#[test]
fn latest_version_id_is_rendered_in_decimal() {
    assert_eq!(
        parse_spigot_latest_version("{\"id\":465247,\"name\":\"2.0\"}").unwrap(),
        "465247"
    );
    assert_eq!(parse_spigot_latest_version("{\"id\":0}").unwrap(), "0");
}

#[test]
fn negative_id_keeps_its_sign() {
    assert_eq!(parse_spigot_latest_version("{\"id\":-7}").unwrap(), "-7");
}

#[test]
fn missing_or_non_integer_id_is_a_typed_error() {
    assert_eq!(
        parse_spigot_latest_version("{\"name\":\"2.0\"}").unwrap_err(),
        SourceError::MissingField(FieldKind::Id)
    );
    assert_eq!(
        parse_spigot_latest_version("{\"id\":\"42\"}").unwrap_err(),
        SourceError::MissingField(FieldKind::Id)
    );
}
