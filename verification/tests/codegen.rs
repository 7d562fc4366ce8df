use tdlib_rs::codegen::enums::enums_module;
use tdlib_rs::codegen::functions::{function_text_exec, functions_module};
use tdlib_rs::codegen::types::types_module;
use tdlib_rs::codegen::{generate_modules, ignore_type};
use tdlib_rs::metadata::Metadata;
use tdlib_rs::rustifier::{function_name, snake_case_exec, variant_name};
use tdlib_rs::tl::{Category, Definition, Type};
use tdlib_rs::tool::{fetch_step, FetchStep};

fn def(text: &str) -> Definition {
    Definition::from_str(text).unwrap()
}

fn func(text: &str) -> Definition {
    let mut d = def(text);
    d.category = Category::Functions;
    d
}

fn schema() -> Vec<Definition> {
    vec![
        def("//@description Plain text\n//@text The text\nrichTextPlain text:string = RichText"),
        def("//@description Bold text\n//@text The text\nrichTextBold text:RichText = RichText"),
        def("//@description The ok\nok = Ok"),
        def("//@description Empty marker\nmarkerNone = Marker"),
        func("//@description Returns the current user\ngetMe = User"),
        func(
            "//@description Sends a message\n//@chat_id Chat identifier\n//@text Text; pass null to send nothing\nsendMessage chat_id:int53 text:string = Message",
        ),
        func("//@description Closes it\nclose = Ok"),
        func("//@description Answers a query; for bots only\n//@id Query identifier\nanswerInlineQuery id:int64 = Ok"),
    ]
}

const STRUCT_HEAD: &str = "#[allow(clippy::all)]\nuse serde::{Deserialize, Serialize};\nuse serde_with::{serde_as, DisplayFromStr};\n\n";

#[test]
fn snake_case_names() {
    assert_eq!(snake_case_exec("RichTextPlain"), "rich_text_plain");
    assert_eq!(function_name(&func("getMe = User")), "get_me");
    assert_eq!(function_name(&func("sendMessage chat_id:int53 = Message")), "send_message");
}

#[test]
fn variant_names() {
    assert_eq!(variant_name(&def("chatTypePrivate = ChatType")), "Private");
    assert_eq!(variant_name(&def("richTextPlain text:string = RichText")), "Plain");
    assert_eq!(variant_name(&def("messageSelf = Message")), "MessageSelf");
    assert_eq!(variant_name(&def("userStatus = UserStatus")), "Status");
}

#[test]
fn special_cased_types_are_ignored() {
    assert!(ignore_type(&Type::from_str("Ok").unwrap()));
    assert!(ignore_type(&Type::from_str("Int64").unwrap()));
    assert!(!ignore_type(&Type::from_str("RichText").unwrap()));
}

#[test]
fn types_module_groups_structs_by_domain() {
    let defs = schema();
    let m = Metadata::new(&defs);
    let module = types_module(&defs, &m, false);
    assert_eq!(module.mod_rs, "mod message;\npub use message::*;\n\n");
    assert_eq!(module.files.len(), 1);
    assert_eq!(module.files[0].name, "message");
    assert_eq!(
        module.files[0].content,
        format!(
            "{STRUCT_HEAD}/// Plain text\n#[derive(Clone, Debug, Default, PartialEq, Deserialize, Serialize)]\npub struct RichTextPlain {{\n    /// The text\n    pub text: String,\n}}\n\n/// Bold text\n#[derive(Clone, Debug, PartialEq, Deserialize, Serialize)]\npub struct RichTextBold {{\n    /// The text\n    pub text: crate::enums::RichText,\n}}\n\n"
        )
    );
}

#[test]
fn serde_adapters_and_optional_fields() {
    let defs = vec![def(
        "//@description Ids\n//@id The id\n//@ids All ids\n//@note Note; may be null\nitem id:int64 ids:vector<int64> note:string = Item",
    )];
    let m = Metadata::new(&defs);
    let module = types_module(&defs, &m, false);
    assert_eq!(module.files[0].name, "misc");
    assert_eq!(
        module.files[0].content,
        format!(
            "{STRUCT_HEAD}/// Ids\n#[serde_as]\n#[derive(Clone, Debug, Default, PartialEq, Deserialize, Serialize)]\npub struct Item {{\n    /// The id\n    #[serde_as(as = \"DisplayFromStr\")]\n    pub id: i64,\n    /// All ids\n    #[serde_as(as = \"Vec<DisplayFromStr>\")]\n    pub ids: Vec<i64>,\n    /// Note; may be null\n    pub note: Option<String>,\n}}\n\n"
        )
    );
}

#[test]
fn bots_only_structs_are_kept_on_request() {
    let defs = vec![def("//@description Bot data; for bots only\n//@x X\nbotData x:int32 = BotData")];
    let m = Metadata::new(&defs);
    assert_eq!(types_module(&defs, &m, false).files.len(), 0);
    let with_bots = types_module(&defs, &m, true);
    assert_eq!(with_bots.files.len(), 1);
    assert_eq!(with_bots.files[0].name, "bot");
}

const ENUM_HEAD: &str = "#[allow(clippy::all)]\nuse serde::{Deserialize, Serialize};\n\n";
const ENUM_DERIVE: &str = "#[derive(Clone, Debug, PartialEq, Deserialize, Serialize)]\n#[serde(tag = \"@type\")]\n";

fn wrappers(enum_name: &str, variant: &str, ctor: &str, payload: &str) -> String {
    format!(
        "\nimpl {enum_name} {{\n    pub fn {ctor}(value: {payload}) -> Self {{\n        Self::{variant}(Box::new(value))\n    }}\n}}\n\nimpl From<{payload}> for {enum_name} {{\n    fn from(value: {payload}) -> Self {{\n        Self::{variant}(Box::new(value))\n    }}\n}}\n"
    )
}

#[test]
fn enums_module_boxes_every_payload() {
    let defs = schema();
    let m = Metadata::new(&defs);
    let module = enums_module(&defs, &m, false);
    assert_eq!(
        module.mod_rs,
        "mod message;\npub use message::*;\n\nmod misc;\npub use misc::*;\n\n"
    );
    assert_eq!(module.files.len(), 2);
    assert_eq!(module.files[0].name, "message");
    assert_eq!(
        module.files[0].content,
        format!(
            "{ENUM_HEAD}{ENUM_DERIVE}pub enum RichText {{\n    /// Plain text\n    #[serde(rename(serialize = \"richTextPlain\", deserialize = \"richTextPlain\"))]\n    Plain(Box<crate::types::RichTextPlain>),\n    /// Bold text\n    #[serde(rename(serialize = \"richTextBold\", deserialize = \"richTextBold\"))]\n    Bold(Box<crate::types::RichTextBold>),\n}}\n{}{}\n",
            wrappers("RichText", "Plain", "plain", "crate::types::RichTextPlain"),
            wrappers("RichText", "Bold", "bold", "crate::types::RichTextBold"),
        )
    );
    assert_eq!(module.files[1].name, "misc");
    assert_eq!(
        module.files[1].content,
        format!(
            "{ENUM_HEAD}{ENUM_DERIVE}pub enum Marker {{\n    /// Empty marker\n    #[serde(rename(serialize = \"markerNone\", deserialize = \"markerNone\"))]\n    None,\n}}\n\n"
        )
    );
}

#[test]
fn enums_carry_class_docs_and_raw_constructor_names() {
    let defs = vec![
        def("//@class Value @description A value\n//@description A type value\n//@x X\nvalueType x:int32 = Value"),
    ];
    let m = Metadata::new(&defs);
    let module = enums_module(&defs, &m, false);
    assert_eq!(
        module.files[0].content,
        format!(
            "{ENUM_HEAD}/// A value\n{ENUM_DERIVE}pub enum Value {{\n    /// A type value\n    #[serde(rename(serialize = \"valueType\", deserialize = \"valueType\"))]\n    Type(Box<crate::types::ValueType>),\n}}\n{}\n",
            wrappers("Value", "Type", "r#type", "crate::types::ValueType"),
        )
    );
}

const CLIENT_ID_DOC: &str = "/// * `client_id` - The numeric client identifier to send the request to.\n";
const ERR_DOC: &str = "/// * `Err(crate::types::Error)` - On failure, returns a TDLib error.\n";
const SEND: &str = "    let response = send_request(client_id, request).await;\n    if response[\"@type\"] == \"error\" {\n        return Err(serde_json::from_value(response).unwrap());\n    }\n";

#[test]
fn single_function_text() {
    let text = function_text_exec(
        &func(
            "//@description Sends a message\n//@chat_id Chat identifier\n//@text Text; pass null to send nothing\nsendMessage chat_id:int53 text:string = Message",
        ),
        false,
    );
    let expected = format!(
        "/// Sends a message\n///\n/// # Arguments\n///\n/// * `chat_id` - Chat identifier\n/// * `text` - Text; pass null to send nothing\n{CLIENT_ID_DOC}///\n/// # Returns\n///\n/// * `Ok(crate::enums::Message)` - On success.\n{ERR_DOC}#[allow(clippy::too_many_arguments)]\npub async fn send_message(chat_id: i64, text: Option<String>, client_id: i32) -> Result<crate::enums::Message, crate::types::Error> {{\n    let request = json!({{\n        \"@type\": \"sendMessage\",\n        \"chat_id\": chat_id,\n        \"text\": text,\n    }});\n{SEND}    Ok(serde_json::from_value(response).unwrap())\n}}\n\n"
    );
    assert_eq!(text, expected);
}

#[test]
fn ok_functions_return_unit() {
    let text = function_text_exec(&func("//@description Closes it\nclose = Ok"), false);
    let expected = format!(
        "/// Closes it\n///\n/// # Arguments\n///\n{CLIENT_ID_DOC}///\n/// # Returns\n///\n/// * `Ok(())` - On success.\n{ERR_DOC}#[allow(clippy::too_many_arguments)]\npub async fn close(client_id: i32) -> Result<(), crate::types::Error> {{\n    let request = json!({{\n        \"@type\": \"close\",\n    }});\n{SEND}    Ok(())\n}}\n\n"
    );
    assert_eq!(text, expected);
}

#[test]
fn multiline_argument_docs_and_keywords() {
    let text = function_text_exec(
        &func("//@description Moves\n//@type The kind\n//-of move\nmove type:int32 = Ok"),
        false,
    );
    assert!(text.contains("/// * `r#type` - The kind\n/// of move\n"));
    assert!(text.contains("pub async fn move(r#type: i32, client_id: i32)"));
    assert!(text.contains("        \"type\": r#type,\n"));
}

#[test]
fn bots_only_functions_are_skipped() {
    let f = func("//@description Answers a query; for bots only\nanswerInlineQuery id:int64 = Ok");
    assert_eq!(function_text_exec(&f, false), "");
    assert!(function_text_exec(&f, true).starts_with("/// Answers a query; for bots only\n"));
}

#[test]
fn functions_module_groups_by_domain() {
    let defs = schema();
    let module = functions_module(&defs, false);
    assert_eq!(
        module.mod_rs,
        "//!\n//! TDLib asynchronous API functions, categorized by business domain.\n//!\npub mod bot;\npub use bot::*;\n\npub mod message;\npub use message::*;\n\npub mod misc;\npub use misc::*;\n\npub mod user;\npub use user::*;\n\n"
    );
    let names: Vec<&str> = module.files.iter().map(|f| f.name.as_str()).collect();
    assert_eq!(names, vec!["bot", "message", "misc", "user"]);
    let bot_header = "//!\n//! TDLib `bot` domain functions.\n//!\n//! Types, enums, and functions for Telegram Bots, Web Apps, and inline queries.\n//!\n\n#[allow(clippy::all)]\nuse serde_json::json;\nuse crate::send_request;\n\n";
    assert_eq!(module.files[0].content, bot_header);
    let user = format!(
        "//!\n//! TDLib `user` domain functions.\n//!\n//! Types, enums, and functions for user accounts, privacy settings, and contacts.\n//!\n\n#[allow(clippy::all)]\nuse serde_json::json;\nuse crate::send_request;\n\n/// Returns the current user\n///\n/// # Arguments\n///\n{CLIENT_ID_DOC}///\n/// # Returns\n///\n/// * `Ok(crate::enums::User)` - On success.\n{ERR_DOC}#[allow(clippy::too_many_arguments)]\npub async fn get_me(client_id: i32) -> Result<crate::enums::User, crate::types::Error> {{\n    let request = json!({{\n        \"@type\": \"getMe\",\n    }});\n{SEND}    Ok(serde_json::from_value(response).unwrap())\n}}\n\n"
    );
    assert_eq!(module.files[3].content, user);
    let with_bots = functions_module(&defs, true);
    assert!(with_bots.files[0].content.contains("pub async fn answer_inline_query(id: i64, client_id: i32)"));
}

#[test]
fn generated_modules_agree() {
    let defs = schema();
    let m = Metadata::new(&defs);
    let all = generate_modules(&defs, false);
    assert_eq!(all.types.mod_rs, types_module(&defs, &m, false).mod_rs);
    assert_eq!(all.enums.mod_rs, enums_module(&defs, &m, false).mod_rs);
    assert_eq!(all.functions.mod_rs, functions_module(&defs, false).mod_rs);
    assert_eq!(all.functions.files.len(), 4);
}

#[test]
fn every_function_lands_in_one_domain_file() {
    let defs = schema();
    let module = functions_module(&defs, true);
    let written: usize = module
        .files
        .iter()
        .map(|f| f.content.matches("pub async fn ").count())
        .sum();
    let functions = defs.iter().filter(|d| d.category == Category::Functions).count();
    assert_eq!(written, functions);
}

#[test]
fn download_steps() {
    assert_eq!(fetch_step(0, 2, Some(10)), FetchStep::Keep);
    assert_eq!(fetch_step(0, 2, Some(0)), FetchStep::TryNext(1));
    assert_eq!(fetch_step(0, 2, None), FetchStep::TryNext(1));
    assert_eq!(fetch_step(1, 2, None), FetchStep::GiveUp);
    assert_eq!(fetch_step(1, 2, Some(3)), FetchStep::Keep);
}
