use tdlib_rs::domain::{classify, domain_description, ALL_DOMAINS};

#[test]
fn test_domain_classification() {
    assert_eq!(classify("Chat"), "chat");
    assert_eq!(classify("SendMessage"), "message");
    assert_eq!(classify("FormattedText"), "message");
    assert_eq!(classify("User"), "user");
    assert_eq!(classify("get_me"), "user");
    assert_eq!(classify("InputFile"), "file");
    assert_eq!(classify("GroupCall"), "call");
    assert_eq!(classify("StickerSet"), "sticker");
    assert_eq!(classify("ForumTopic"), "forum");
    assert_eq!(classify("CreateInvoiceLink"), "payment");
    assert_eq!(classify("SetTdlibParameters"), "misc");
}

#[test]
fn classify_priority_and_exact_names() {
    // `sticker` is checked before `message`.
    assert_eq!(classify("send_sticker_message"), "sticker");
    // `me` only matches as a whole name.
    assert_eq!(classify("ME"), "user");
    assert_eq!(classify("get_meta"), "misc");
    assert_eq!(classify("passport_element"), "passport");
    assert_eq!(classify("story"), "story");
    assert_eq!(classify("premium_feature"), "premium");
    assert_eq!(classify("poll_option"), "poll");
    assert_eq!(classify("bot_command"), "bot");
    assert_eq!(classify("notification_group"), "notification");
    assert_eq!(classify("supergroup"), "chat");
    assert_eq!(classify(""), "misc");
}

#[test]
fn classify_result_is_a_domain() {
    for name in ["Chat", "x", "get_me", "CreateInvoiceLink", "Öl"] {
        assert!(ALL_DOMAINS.contains(&classify(name)));
    }
}

#[test]
fn descriptions() {
    assert_eq!(
        domain_description("poll"),
        "Types, enums, and functions for polls, quiz questions, and voter answers."
    );
    assert_eq!(
        domain_description("anything"),
        "Miscellaneous types, enums, network settings, and core TDLib options."
    );
    assert_eq!(domain_description("misc"), domain_description("other"));
}

#[test]
fn descriptions_are_distinct() {
    let domains = [
        "bot", "call", "chat", "file", "forum", "message", "notification", "passport", "payment",
        "poll", "premium", "sticker", "story", "user", "misc",
    ];
    for (i, a) in domains.iter().enumerate() {
        for b in domains.iter().skip(i + 1) {
            assert_ne!(domain_description(a), domain_description(b));
        }
    }
}
