use tdlib_rs::text::replace_str;
use tdlib_rs::tool::{clean_tag_exec, customize_cargo_toml, default_output_path_exec, tl_urls};

#[test]
fn tags_of_versions() {
    assert_eq!(clean_tag_exec("1.8.67"), "v1.8.67");
    assert_eq!(clean_tag_exec("v1.8.62"), "v1.8.62");
    assert_eq!(clean_tag_exec("master"), "master");
    assert_eq!(clean_tag_exec(""), "v");
}

#[test]
fn addresses_of_schemas() {
    assert_eq!(
        tl_urls("1.8.0"),
        vec![
            "https://raw.githubusercontent.com/tdlib/td/v1.8.0/td/generate/scheme/td_api.tl".to_string(),
            "https://raw.githubusercontent.com/tdlib/td/1.8.0/td/generate/scheme/td_api.tl".to_string(),
        ]
    );
    assert_eq!(tl_urls("master")[0], tl_urls("master")[1]);
}

#[test]
fn default_output_paths() {
    assert_eq!(default_output_path_exec("master"), "api_master.tl");
    assert_eq!(default_output_path_exec("feature/x/y"), "api_feature_x_y.tl");
}

#[test]
fn manifest_customization() {
    let template = "[package]\nname = \"tdlib-rs\"\nversion = \"1.3.0\"\n\n[dependencies]\nx = { version = \"1.3.0\" }\n";
    assert_eq!(customize_cargo_toml(template, None, None), template);
    assert_eq!(
        customize_cargo_toml(template, Some("mytd"), Some("0.2.0")),
        "[package]\nname = \"mytd\"\nversion = \"0.2.0\"\n\n[dependencies]\nx = { version = \"0.2.0\" }\n"
    );
    assert_eq!(
        customize_cargo_toml(template, Some("mytd"), None),
        "[package]\nname = \"mytd\"\nversion = \"1.3.0\"\n\n[dependencies]\nx = { version = \"1.3.0\" }\n"
    );
}

#[test]
fn replacing_text() {
    assert_eq!(replace_str("aaa", "aa", "b"), "ba");
    assert_eq!(replace_str("abcabc", "bc", "X"), "aXaX");
    assert_eq!(replace_str("", "x", "y"), "");
}
