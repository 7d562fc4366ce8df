//! Business-domain classification of TL names: every type, enum and
//! function is assigned to one of a fixed set of cohesive modules.

use vstd::prelude::*;
use crate::text::{chars_eq_str, chars_of, contains_seq, contains_str, lower_chars, lower_seq};

verus! {

/// Every domain that `classify` can return, in the order the generated
/// `mod.rs` declares them.
pub const ALL_DOMAINS: [&'static str; 15] = [
    "bot",
    "call",
    "chat",
    "file",
    "forum",
    "message",
    "notification",
    "passport",
    "payment",
    "poll",
    "premium",
    "sticker",
    "story",
    "user",
    "misc",
];

/// The lower-cased name mentions a keyword of the `sticker` domain.
pub open spec fn mentions_sticker(l: Seq<char>) -> bool {
    contains_seq(l, "sticker"@) || contains_seq(l, "emoji"@) || contains_seq(l, "dice"@) || contains_seq(l, "animated"@)
}

/// The lower-cased name mentions a keyword of the `passport` domain.
pub open spec fn mentions_passport(l: Seq<char>) -> bool {
    contains_seq(l, "passport"@) || contains_seq(l, "identity_document"@) || contains_seq(l, "personal_details"@) || contains_seq(l, "bank_card"@)
}

/// The lower-cased name mentions a keyword of the `payment` domain.
pub open spec fn mentions_payment(l: Seq<char>) -> bool {
    contains_seq(l, "payment"@) || contains_seq(l, "invoice"@) || contains_seq(l, "stars"@) || contains_seq(l, "star_"@) || contains_seq(l, "revenue"@) || contains_seq(l, "checkout"@) || contains_seq(l, "receipt"@) || contains_seq(l, "order_info"@) || contains_seq(l, "shipping"@)
}

/// The lower-cased name mentions a keyword of the `story` domain.
pub open spec fn mentions_story(l: Seq<char>) -> bool {
    contains_seq(l, "story"@) || contains_seq(l, "stories"@)
}

/// The lower-cased name mentions a keyword of the `premium` domain.
pub open spec fn mentions_premium(l: Seq<char>) -> bool {
    contains_seq(l, "premium"@) || contains_seq(l, "boost"@) || contains_seq(l, "giveaway"@) || contains_seq(l, "gift_code"@) || contains_seq(l, "affiliate"@) || contains_seq(l, "business"@)
}

/// The lower-cased name mentions a keyword of the `forum` domain.
pub open spec fn mentions_forum(l: Seq<char>) -> bool {
    contains_seq(l, "forum"@) || contains_seq(l, "topic"@)
}

/// The lower-cased name mentions a keyword of the `poll` domain.
pub open spec fn mentions_poll(l: Seq<char>) -> bool {
    contains_seq(l, "poll"@)
}

/// The lower-cased name mentions a keyword of the `call` domain.
pub open spec fn mentions_call(l: Seq<char>) -> bool {
    contains_seq(l, "call"@) || contains_seq(l, "video_chat"@) || contains_seq(l, "group_call"@)
}

/// The lower-cased name mentions a keyword of the `bot` domain.
pub open spec fn mentions_bot(l: Seq<char>) -> bool {
    contains_seq(l, "bot"@) || contains_seq(l, "inline_query"@) || contains_seq(l, "callback_query"@) || contains_seq(l, "web_app"@) || contains_seq(l, "menu_button"@)
}

/// The lower-cased name mentions a keyword of the `notification` domain.
pub open spec fn mentions_notification(l: Seq<char>) -> bool {
    contains_seq(l, "notification"@) || contains_seq(l, "push_receiver"@)
}

/// The lower-cased name mentions a keyword of the `file` domain.
pub open spec fn mentions_file(l: Seq<char>) -> bool {
    contains_seq(l, "file"@) || contains_seq(l, "photo"@) || contains_seq(l, "video"@) || contains_seq(l, "audio"@) || contains_seq(l, "document"@) || contains_seq(l, "voice_note"@) || contains_seq(l, "animation"@) || contains_seq(l, "thumbnail"@)
}

/// The lower-cased name mentions a keyword of the `message` domain.
pub open spec fn mentions_message(l: Seq<char>) -> bool {
    contains_seq(l, "message"@) || contains_seq(l, "text"@) || contains_seq(l, "draft"@) || contains_seq(l, "caption"@) || contains_seq(l, "reaction"@) || contains_seq(l, "reply_markup"@)
}

/// The lower-cased name mentions a keyword of the `chat` domain.
pub open spec fn mentions_chat(l: Seq<char>) -> bool {
    contains_seq(l, "chat"@) || contains_seq(l, "supergroup"@) || contains_seq(l, "basic_group"@) || contains_seq(l, "secret_chat"@) || contains_seq(l, "channel"@)
}

/// The lower-cased name mentions a keyword of the `user` domain or is
/// exactly `get_me` or `me`.
pub open spec fn mentions_user(l: Seq<char>) -> bool {
    contains_seq(l, "user"@) || contains_seq(l, "profile"@) || contains_seq(l, "contact"@)
        || l == "get_me"@ || l == "me"@
}

/// The domain of a name: the first domain, in a fixed order of priority,
/// one of whose keywords occurs in the ASCII lower-cased name; `misc` when
/// none does.
pub open spec fn spec_classify(name: Seq<char>) -> Seq<char> {
    let l = lower_seq(name);
    if mentions_sticker(l) {
        "sticker"@
    }     else if mentions_passport(l) {
        "passport"@
    }     else if mentions_payment(l) {
        "payment"@
    }     else if mentions_story(l) {
        "story"@
    }     else if mentions_premium(l) {
        "premium"@
    }     else if mentions_forum(l) {
        "forum"@
    }     else if mentions_poll(l) {
        "poll"@
    }     else if mentions_call(l) {
        "call"@
    }     else if mentions_bot(l) {
        "bot"@
    }     else if mentions_notification(l) {
        "notification"@
    }     else if mentions_file(l) {
        "file"@
    }     else if mentions_message(l) {
        "message"@
    }     else if mentions_chat(l) {
        "chat"@
    }     else if mentions_user(l) {
        "user"@
    } else {
        "misc"@
    }
}

fn mentions_sticker_exec(l: &Vec<char>) -> (r: bool)
    ensures
        r == mentions_sticker(l@),
{
    contains_str(l, "sticker") || contains_str(l, "emoji") || contains_str(l, "dice") || contains_str(l, "animated")
}

fn mentions_passport_exec(l: &Vec<char>) -> (r: bool)
    ensures
        r == mentions_passport(l@),
{
    contains_str(l, "passport") || contains_str(l, "identity_document") || contains_str(l, "personal_details") || contains_str(l, "bank_card")
}

fn mentions_payment_exec(l: &Vec<char>) -> (r: bool)
    ensures
        r == mentions_payment(l@),
{
    contains_str(l, "payment") || contains_str(l, "invoice") || contains_str(l, "stars") || contains_str(l, "star_") || contains_str(l, "revenue") || contains_str(l, "checkout") || contains_str(l, "receipt") || contains_str(l, "order_info") || contains_str(l, "shipping")
}

fn mentions_story_exec(l: &Vec<char>) -> (r: bool)
    ensures
        r == mentions_story(l@),
{
    contains_str(l, "story") || contains_str(l, "stories")
}

fn mentions_premium_exec(l: &Vec<char>) -> (r: bool)
    ensures
        r == mentions_premium(l@),
{
    contains_str(l, "premium") || contains_str(l, "boost") || contains_str(l, "giveaway") || contains_str(l, "gift_code") || contains_str(l, "affiliate") || contains_str(l, "business")
}

fn mentions_forum_exec(l: &Vec<char>) -> (r: bool)
    ensures
        r == mentions_forum(l@),
{
    contains_str(l, "forum") || contains_str(l, "topic")
}

fn mentions_poll_exec(l: &Vec<char>) -> (r: bool)
    ensures
        r == mentions_poll(l@),
{
    contains_str(l, "poll")
}

fn mentions_call_exec(l: &Vec<char>) -> (r: bool)
    ensures
        r == mentions_call(l@),
{
    contains_str(l, "call") || contains_str(l, "video_chat") || contains_str(l, "group_call")
}

fn mentions_bot_exec(l: &Vec<char>) -> (r: bool)
    ensures
        r == mentions_bot(l@),
{
    contains_str(l, "bot") || contains_str(l, "inline_query") || contains_str(l, "callback_query") || contains_str(l, "web_app") || contains_str(l, "menu_button")
}

fn mentions_notification_exec(l: &Vec<char>) -> (r: bool)
    ensures
        r == mentions_notification(l@),
{
    contains_str(l, "notification") || contains_str(l, "push_receiver")
}

fn mentions_file_exec(l: &Vec<char>) -> (r: bool)
    ensures
        r == mentions_file(l@),
{
    contains_str(l, "file") || contains_str(l, "photo") || contains_str(l, "video") || contains_str(l, "audio") || contains_str(l, "document") || contains_str(l, "voice_note") || contains_str(l, "animation") || contains_str(l, "thumbnail")
}

fn mentions_message_exec(l: &Vec<char>) -> (r: bool)
    ensures
        r == mentions_message(l@),
{
    contains_str(l, "message") || contains_str(l, "text") || contains_str(l, "draft") || contains_str(l, "caption") || contains_str(l, "reaction") || contains_str(l, "reply_markup")
}

fn mentions_chat_exec(l: &Vec<char>) -> (r: bool)
    ensures
        r == mentions_chat(l@),
{
    contains_str(l, "chat") || contains_str(l, "supergroup") || contains_str(l, "basic_group") || contains_str(l, "secret_chat") || contains_str(l, "channel")
}

fn mentions_user_exec(l: &Vec<char>) -> (r: bool)
    ensures
        r == mentions_user(l@),
{
    contains_str(l, "user") || contains_str(l, "profile") || contains_str(l, "contact")
        || chars_eq_str(l, "get_me") || chars_eq_str(l, "me")
}

/// Returns the business domain of a struct, enum or function name.
pub fn classify(name: &str) -> (r: &'static str)
    ensures
        r@ == spec_classify(name@),
{
    let chars = chars_of(name);
    let l = lower_chars(&chars);
    if mentions_sticker_exec(&l) {
        "sticker"
    }     else if mentions_passport_exec(&l) {
        "passport"
    }     else if mentions_payment_exec(&l) {
        "payment"
    }     else if mentions_story_exec(&l) {
        "story"
    }     else if mentions_premium_exec(&l) {
        "premium"
    }     else if mentions_forum_exec(&l) {
        "forum"
    }     else if mentions_poll_exec(&l) {
        "poll"
    }     else if mentions_call_exec(&l) {
        "call"
    }     else if mentions_bot_exec(&l) {
        "bot"
    }     else if mentions_notification_exec(&l) {
        "notification"
    }     else if mentions_file_exec(&l) {
        "file"
    }     else if mentions_message_exec(&l) {
        "message"
    }     else if mentions_chat_exec(&l) {
        "chat"
    }     else if mentions_user_exec(&l) {
        "user"
    } else {
        "misc"
    }
}

/// The documentation line of a domain module; any name outside the known
/// domains gets the description of `misc`.
pub open spec fn spec_domain_description(domain: Seq<char>) -> Seq<char> {
    if domain == "bot"@ {
        "Types, enums, and functions for Telegram Bots, Web Apps, and inline queries."@
    }     else if domain == "call"@ {
        "Types, enums, and functions for 1-on-1 calls, group calls, and live video chats."@
    }     else if domain == "chat"@ {
        "Types, enums, and functions for managing private chats, basic groups, supergroups, and channels."@
    }     else if domain == "file"@ {
        "Types, enums, and functions for local and remote files, photos, audio, videos, and documents."@
    }     else if domain == "forum"@ {
        "Types, enums, and functions for supergroup forum topics and topic management."@
    }     else if domain == "message"@ {
        "Types, enums, and functions for message content, rich formatting, reactions, and drafts."@
    }     else if domain == "notification"@ {
        "Types, enums, and functions for push notifications and notification settings."@
    }     else if domain == "passport"@ {
        "Types, enums, and functions for Telegram Passport and identity verification documents."@
    }     else if domain == "payment"@ {
        "Types, enums, and functions for invoices, payments, Telegram Stars, and monetized features."@
    }     else if domain == "poll"@ {
        "Types, enums, and functions for polls, quiz questions, and voter answers."@
    }     else if domain == "premium"@ {
        "Types, enums, and functions for Telegram Premium, chat boosts, giveaways, and business features."@
    }     else if domain == "sticker"@ {
        "Types, enums, and functions for stickers, custom emoji sets, and animated dice."@
    }     else if domain == "story"@ {
        "Types, enums, and functions for Telegram Stories and story interactions."@
    }     else if domain == "user"@ {
        "Types, enums, and functions for user accounts, privacy settings, and contacts."@
    } else {
        "Miscellaneous types, enums, network settings, and core TDLib options."@
    }
}

/// Returns the Rustdoc summary line of a domain module.
pub fn domain_description(domain: &str) -> (r: &'static str)
    ensures
        r@ == spec_domain_description(domain@),
{
    let d = chars_of(domain);
    if chars_eq_str(&d, "bot") {
        "Types, enums, and functions for Telegram Bots, Web Apps, and inline queries."
    }     else if chars_eq_str(&d, "call") {
        "Types, enums, and functions for 1-on-1 calls, group calls, and live video chats."
    }     else if chars_eq_str(&d, "chat") {
        "Types, enums, and functions for managing private chats, basic groups, supergroups, and channels."
    }     else if chars_eq_str(&d, "file") {
        "Types, enums, and functions for local and remote files, photos, audio, videos, and documents."
    }     else if chars_eq_str(&d, "forum") {
        "Types, enums, and functions for supergroup forum topics and topic management."
    }     else if chars_eq_str(&d, "message") {
        "Types, enums, and functions for message content, rich formatting, reactions, and drafts."
    }     else if chars_eq_str(&d, "notification") {
        "Types, enums, and functions for push notifications and notification settings."
    }     else if chars_eq_str(&d, "passport") {
        "Types, enums, and functions for Telegram Passport and identity verification documents."
    }     else if chars_eq_str(&d, "payment") {
        "Types, enums, and functions for invoices, payments, Telegram Stars, and monetized features."
    }     else if chars_eq_str(&d, "poll") {
        "Types, enums, and functions for polls, quiz questions, and voter answers."
    }     else if chars_eq_str(&d, "premium") {
        "Types, enums, and functions for Telegram Premium, chat boosts, giveaways, and business features."
    }     else if chars_eq_str(&d, "sticker") {
        "Types, enums, and functions for stickers, custom emoji sets, and animated dice."
    }     else if chars_eq_str(&d, "story") {
        "Types, enums, and functions for Telegram Stories and story interactions."
    }     else if chars_eq_str(&d, "user") {
        "Types, enums, and functions for user accounts, privacy settings, and contacts."
    } else {
        "Miscellaneous types, enums, network settings, and core TDLib options."
    }
}


/// Every name is classified into one of `ALL_DOMAINS`, so the generated
/// module list covers every file the classifier can ask for.
pub proof fn lemma_classify_in_all_domains(name: Seq<char>)
    ensures
        exists|i: int| 0 <= i < ALL_DOMAINS@.len() && ALL_DOMAINS@[i]@ == spec_classify(name),
{
    let d = spec_classify(name);
    if d == "bot"@ { assert(ALL_DOMAINS@[0]@ == d); }
    else if d == "call"@ { assert(ALL_DOMAINS@[1]@ == d); }
    else if d == "chat"@ { assert(ALL_DOMAINS@[2]@ == d); }
    else if d == "file"@ { assert(ALL_DOMAINS@[3]@ == d); }
    else if d == "forum"@ { assert(ALL_DOMAINS@[4]@ == d); }
    else if d == "message"@ { assert(ALL_DOMAINS@[5]@ == d); }
    else if d == "notification"@ { assert(ALL_DOMAINS@[6]@ == d); }
    else if d == "passport"@ { assert(ALL_DOMAINS@[7]@ == d); }
    else if d == "payment"@ { assert(ALL_DOMAINS@[8]@ == d); }
    else if d == "poll"@ { assert(ALL_DOMAINS@[9]@ == d); }
    else if d == "premium"@ { assert(ALL_DOMAINS@[10]@ == d); }
    else if d == "sticker"@ { assert(ALL_DOMAINS@[11]@ == d); }
    else if d == "story"@ { assert(ALL_DOMAINS@[12]@ == d); }
    else if d == "user"@ { assert(ALL_DOMAINS@[13]@ == d); }
    else { assert(ALL_DOMAINS@[14]@ == d); }
}

/// Four characters of a text that tell the domain descriptions apart.
spec fn description_marks(s: Seq<char>) -> (char, char, char, char) {
    (s[0], s[32], s[33], s[42])
}

/// The marks of the description of the domain at position `i` of
/// `ALL_DOMAINS`.
spec fn expected_marks(i: int) -> (char, char, char, char) {
    if i == 0 {
        ('T', 'T', 'e', 'o')
    } else if i == 1 {
        ('T', '1', '-', 'l')
    } else if i == 2 {
        ('T', 'm', 'a', 'r')
    } else if i == 3 {
        ('T', 'l', 'o', 'r')
    } else if i == 4 {
        ('T', 's', 'u', ' ')
    } else if i == 5 {
        ('T', 'm', 'e', 'n')
    } else if i == 6 {
        ('T', 'p', 'u', 'i')
    } else if i == 7 {
        ('T', 'T', 'e', 'a')
    } else if i == 8 {
        ('T', 'i', 'n', 'p')
    } else if i == 9 {
        ('T', 'p', 'o', 'z')
    } else if i == 10 {
        ('T', 'T', 'e', 'r')
    } else if i == 11 {
        ('T', 's', 't', 'c')
    } else if i == 12 {
        ('T', 'T', 'e', 't')
    } else if i == 13 {
        ('T', 'u', 's', 'n')
    } else {
        ('M', 'o', 'r', 'g')
    }
}

proof fn lemma_description_marks(i: int)
    requires
        0 <= i < ALL_DOMAINS@.len(),
    ensures
        description_marks(spec_domain_description(ALL_DOMAINS@[i]@)) == expected_marks(i),
{
    if i == 0 {
        reveal_strlit("bot");
        reveal_strlit("Types, enums, and functions for Telegram Bots, Web Apps, and inline queries.");
    } else if i == 1 {
        reveal_strlit("call");
        reveal_strlit("bot");
        assert("call"@.len() != "bot"@.len());
        reveal_strlit("Types, enums, and functions for 1-on-1 calls, group calls, and live video chats.");
    } else if i == 2 {
        reveal_strlit("chat");
        reveal_strlit("bot");
        assert("chat"@.len() != "bot"@.len());
        reveal_strlit("call");
        assert("chat"@[1] != "call"@[1]);
        reveal_strlit("Types, enums, and functions for managing private chats, basic groups, supergroups, and channels.");
    } else if i == 3 {
        reveal_strlit("file");
        reveal_strlit("bot");
        assert("file"@.len() != "bot"@.len());
        reveal_strlit("call");
        assert("file"@[0] != "call"@[0]);
        reveal_strlit("chat");
        assert("file"@[0] != "chat"@[0]);
        reveal_strlit("Types, enums, and functions for local and remote files, photos, audio, videos, and documents.");
    } else if i == 4 {
        reveal_strlit("forum");
        reveal_strlit("bot");
        assert("forum"@.len() != "bot"@.len());
        reveal_strlit("call");
        assert("forum"@.len() != "call"@.len());
        reveal_strlit("chat");
        assert("forum"@.len() != "chat"@.len());
        reveal_strlit("file");
        assert("forum"@.len() != "file"@.len());
        reveal_strlit("Types, enums, and functions for supergroup forum topics and topic management.");
    } else if i == 5 {
        reveal_strlit("message");
        reveal_strlit("bot");
        assert("message"@.len() != "bot"@.len());
        reveal_strlit("call");
        assert("message"@.len() != "call"@.len());
        reveal_strlit("chat");
        assert("message"@.len() != "chat"@.len());
        reveal_strlit("file");
        assert("message"@.len() != "file"@.len());
        reveal_strlit("forum");
        assert("message"@.len() != "forum"@.len());
        reveal_strlit("Types, enums, and functions for message content, rich formatting, reactions, and drafts.");
    } else if i == 6 {
        reveal_strlit("notification");
        reveal_strlit("bot");
        assert("notification"@.len() != "bot"@.len());
        reveal_strlit("call");
        assert("notification"@.len() != "call"@.len());
        reveal_strlit("chat");
        assert("notification"@.len() != "chat"@.len());
        reveal_strlit("file");
        assert("notification"@.len() != "file"@.len());
        reveal_strlit("forum");
        assert("notification"@.len() != "forum"@.len());
        reveal_strlit("message");
        assert("notification"@.len() != "message"@.len());
        reveal_strlit("Types, enums, and functions for push notifications and notification settings.");
    } else if i == 7 {
        reveal_strlit("passport");
        reveal_strlit("bot");
        assert("passport"@.len() != "bot"@.len());
        reveal_strlit("call");
        assert("passport"@.len() != "call"@.len());
        reveal_strlit("chat");
        assert("passport"@.len() != "chat"@.len());
        reveal_strlit("file");
        assert("passport"@.len() != "file"@.len());
        reveal_strlit("forum");
        assert("passport"@.len() != "forum"@.len());
        reveal_strlit("message");
        assert("passport"@.len() != "message"@.len());
        reveal_strlit("notification");
        assert("passport"@.len() != "notification"@.len());
        reveal_strlit("Types, enums, and functions for Telegram Passport and identity verification documents.");
    } else if i == 8 {
        reveal_strlit("payment");
        reveal_strlit("bot");
        assert("payment"@.len() != "bot"@.len());
        reveal_strlit("call");
        assert("payment"@.len() != "call"@.len());
        reveal_strlit("chat");
        assert("payment"@.len() != "chat"@.len());
        reveal_strlit("file");
        assert("payment"@.len() != "file"@.len());
        reveal_strlit("forum");
        assert("payment"@.len() != "forum"@.len());
        reveal_strlit("message");
        assert("payment"@[0] != "message"@[0]);
        reveal_strlit("notification");
        assert("payment"@.len() != "notification"@.len());
        reveal_strlit("passport");
        assert("payment"@.len() != "passport"@.len());
        reveal_strlit("Types, enums, and functions for invoices, payments, Telegram Stars, and monetized features.");
    } else if i == 9 {
        reveal_strlit("poll");
        reveal_strlit("bot");
        assert("poll"@.len() != "bot"@.len());
        reveal_strlit("call");
        assert("poll"@[0] != "call"@[0]);
        reveal_strlit("chat");
        assert("poll"@[0] != "chat"@[0]);
        reveal_strlit("file");
        assert("poll"@[0] != "file"@[0]);
        reveal_strlit("forum");
        assert("poll"@.len() != "forum"@.len());
        reveal_strlit("message");
        assert("poll"@.len() != "message"@.len());
        reveal_strlit("notification");
        assert("poll"@.len() != "notification"@.len());
        reveal_strlit("passport");
        assert("poll"@.len() != "passport"@.len());
        reveal_strlit("payment");
        assert("poll"@.len() != "payment"@.len());
        reveal_strlit("Types, enums, and functions for polls, quiz questions, and voter answers.");
    } else if i == 10 {
        reveal_strlit("premium");
        reveal_strlit("bot");
        assert("premium"@.len() != "bot"@.len());
        reveal_strlit("call");
        assert("premium"@.len() != "call"@.len());
        reveal_strlit("chat");
        assert("premium"@.len() != "chat"@.len());
        reveal_strlit("file");
        assert("premium"@.len() != "file"@.len());
        reveal_strlit("forum");
        assert("premium"@.len() != "forum"@.len());
        reveal_strlit("message");
        assert("premium"@[0] != "message"@[0]);
        reveal_strlit("notification");
        assert("premium"@.len() != "notification"@.len());
        reveal_strlit("passport");
        assert("premium"@.len() != "passport"@.len());
        reveal_strlit("payment");
        assert("premium"@[1] != "payment"@[1]);
        reveal_strlit("poll");
        assert("premium"@.len() != "poll"@.len());
        reveal_strlit("Types, enums, and functions for Telegram Premium, chat boosts, giveaways, and business features.");
    } else if i == 11 {
        reveal_strlit("sticker");
        reveal_strlit("bot");
        assert("sticker"@.len() != "bot"@.len());
        reveal_strlit("call");
        assert("sticker"@.len() != "call"@.len());
        reveal_strlit("chat");
        assert("sticker"@.len() != "chat"@.len());
        reveal_strlit("file");
        assert("sticker"@.len() != "file"@.len());
        reveal_strlit("forum");
        assert("sticker"@.len() != "forum"@.len());
        reveal_strlit("message");
        assert("sticker"@[0] != "message"@[0]);
        reveal_strlit("notification");
        assert("sticker"@.len() != "notification"@.len());
        reveal_strlit("passport");
        assert("sticker"@.len() != "passport"@.len());
        reveal_strlit("payment");
        assert("sticker"@[0] != "payment"@[0]);
        reveal_strlit("poll");
        assert("sticker"@.len() != "poll"@.len());
        reveal_strlit("premium");
        assert("sticker"@[0] != "premium"@[0]);
        reveal_strlit("Types, enums, and functions for stickers, custom emoji sets, and animated dice.");
    } else if i == 12 {
        reveal_strlit("story");
        reveal_strlit("bot");
        assert("story"@.len() != "bot"@.len());
        reveal_strlit("call");
        assert("story"@.len() != "call"@.len());
        reveal_strlit("chat");
        assert("story"@.len() != "chat"@.len());
        reveal_strlit("file");
        assert("story"@.len() != "file"@.len());
        reveal_strlit("forum");
        assert("story"@[0] != "forum"@[0]);
        reveal_strlit("message");
        assert("story"@.len() != "message"@.len());
        reveal_strlit("notification");
        assert("story"@.len() != "notification"@.len());
        reveal_strlit("passport");
        assert("story"@.len() != "passport"@.len());
        reveal_strlit("payment");
        assert("story"@.len() != "payment"@.len());
        reveal_strlit("poll");
        assert("story"@.len() != "poll"@.len());
        reveal_strlit("premium");
        assert("story"@.len() != "premium"@.len());
        reveal_strlit("sticker");
        assert("story"@.len() != "sticker"@.len());
        reveal_strlit("Types, enums, and functions for Telegram Stories and story interactions.");
    } else if i == 13 {
        reveal_strlit("user");
        reveal_strlit("bot");
        assert("user"@.len() != "bot"@.len());
        reveal_strlit("call");
        assert("user"@[0] != "call"@[0]);
        reveal_strlit("chat");
        assert("user"@[0] != "chat"@[0]);
        reveal_strlit("file");
        assert("user"@[0] != "file"@[0]);
        reveal_strlit("forum");
        assert("user"@.len() != "forum"@.len());
        reveal_strlit("message");
        assert("user"@.len() != "message"@.len());
        reveal_strlit("notification");
        assert("user"@.len() != "notification"@.len());
        reveal_strlit("passport");
        assert("user"@.len() != "passport"@.len());
        reveal_strlit("payment");
        assert("user"@.len() != "payment"@.len());
        reveal_strlit("poll");
        assert("user"@[0] != "poll"@[0]);
        reveal_strlit("premium");
        assert("user"@.len() != "premium"@.len());
        reveal_strlit("sticker");
        assert("user"@.len() != "sticker"@.len());
        reveal_strlit("story");
        assert("user"@.len() != "story"@.len());
        reveal_strlit("Types, enums, and functions for user accounts, privacy settings, and contacts.");
    } else if i == 14 {
        reveal_strlit("misc");
        reveal_strlit("bot");
        assert("misc"@.len() != "bot"@.len());
        reveal_strlit("call");
        assert("misc"@[0] != "call"@[0]);
        reveal_strlit("chat");
        assert("misc"@[0] != "chat"@[0]);
        reveal_strlit("file");
        assert("misc"@[0] != "file"@[0]);
        reveal_strlit("forum");
        assert("misc"@.len() != "forum"@.len());
        reveal_strlit("message");
        assert("misc"@.len() != "message"@.len());
        reveal_strlit("notification");
        assert("misc"@.len() != "notification"@.len());
        reveal_strlit("passport");
        assert("misc"@.len() != "passport"@.len());
        reveal_strlit("payment");
        assert("misc"@.len() != "payment"@.len());
        reveal_strlit("poll");
        assert("misc"@[0] != "poll"@[0]);
        reveal_strlit("premium");
        assert("misc"@.len() != "premium"@.len());
        reveal_strlit("sticker");
        assert("misc"@.len() != "sticker"@.len());
        reveal_strlit("story");
        assert("misc"@.len() != "story"@.len());
        reveal_strlit("user");
        assert("misc"@[0] != "user"@[0]);
        reveal_strlit("Miscellaneous types, enums, network settings, and core TDLib options.");
    }
}

/// Each business domain has a description of its own: no two domains share
/// one.
pub proof fn lemma_domain_descriptions_distinct(i: int, j: int)
    requires
        0 <= i < ALL_DOMAINS@.len(),
        0 <= j < ALL_DOMAINS@.len(),
        ALL_DOMAINS@[i]@ != ALL_DOMAINS@[j]@,
    ensures
        spec_domain_description(ALL_DOMAINS@[i]@) != spec_domain_description(ALL_DOMAINS@[j]@),
{
    lemma_description_marks(i);
    lemma_description_marks(j);
    if i == j {
    } else {
        assert(expected_marks(i) != expected_marks(j));
    }
}

/// How a name is classified, keyword by keyword. The domains are tried in
/// this order of priority: sticker, passport, payment, story, premium,
/// forum, poll, call, bot, notification, file, message, chat, user. A name
/// whose ASCII lower-cased form contains a keyword of a domain lands in that
/// domain or in one of higher priority; a name lands in a domain only if it
/// contains one of that domain's keywords (`user` also takes the exact names
/// `get_me` and `me`); and a name with none of them is `misc`.
pub proof fn lemma_classify_by_keywords(name: Seq<char>)
    ensures
        ({
            let l = lower_seq(name);
            let c = spec_classify(name);
            &&& (contains_seq(l, "sticker"@) || contains_seq(l, "emoji"@) ||
                contains_seq(l, "dice"@) || contains_seq(l, "animated"@)) ==> c == "sticker"@
            &&& (contains_seq(l, "passport"@) || contains_seq(l, "identity_document"@) ||
                contains_seq(l, "personal_details"@) || contains_seq(l, "bank_card"@))
                ==> c == "sticker"@ || c == "passport"@
            &&& (contains_seq(l, "payment"@) || contains_seq(l, "invoice"@) ||
                contains_seq(l, "stars"@) || contains_seq(l, "star_"@) ||
                contains_seq(l, "revenue"@) || contains_seq(l, "checkout"@) ||
                contains_seq(l, "receipt"@) || contains_seq(l, "order_info"@) ||
                contains_seq(l, "shipping"@))
                ==> c == "sticker"@ || c == "passport"@ || c == "payment"@
            &&& (contains_seq(l, "story"@) || contains_seq(l, "stories"@))
                ==> c == "sticker"@ || c == "passport"@ || c == "payment"@ || c == "story"@
            &&& (contains_seq(l, "premium"@) || contains_seq(l, "boost"@) ||
                contains_seq(l, "giveaway"@) || contains_seq(l, "gift_code"@) ||
                contains_seq(l, "affiliate"@) || contains_seq(l, "business"@))
                ==> c == "sticker"@ || c == "passport"@ || c == "payment"@ || c == "story"@ ||
                    c == "premium"@
            &&& (contains_seq(l, "forum"@) || contains_seq(l, "topic"@))
                ==> c == "sticker"@ || c == "passport"@ || c == "payment"@ || c == "story"@ ||
                    c == "premium"@ || c == "forum"@
            &&& (contains_seq(l, "poll"@))
                ==> c == "sticker"@ || c == "passport"@ || c == "payment"@ || c == "story"@ ||
                    c == "premium"@ || c == "forum"@ || c == "poll"@
            &&& (contains_seq(l, "call"@) || contains_seq(l, "video_chat"@) ||
                contains_seq(l, "group_call"@))
                ==> c == "sticker"@ || c == "passport"@ || c == "payment"@ || c == "story"@ ||
                    c == "premium"@ || c == "forum"@ || c == "poll"@ || c == "call"@
            &&& (contains_seq(l, "bot"@) || contains_seq(l, "inline_query"@) ||
                contains_seq(l, "callback_query"@) || contains_seq(l, "web_app"@) ||
                contains_seq(l, "menu_button"@))
                ==> c == "sticker"@ || c == "passport"@ || c == "payment"@ || c == "story"@ ||
                    c == "premium"@ || c == "forum"@ || c == "poll"@ || c == "call"@ || c == "bot"@
            &&& (contains_seq(l, "notification"@) || contains_seq(l, "push_receiver"@))
                ==> c == "sticker"@ || c == "passport"@ || c == "payment"@ || c == "story"@ ||
                    c == "premium"@ || c == "forum"@ || c == "poll"@ || c == "call"@ || c == "bot"@ ||
                    c == "notification"@
            &&& (contains_seq(l, "file"@) || contains_seq(l, "photo"@) || contains_seq(l, "video"@) ||
                contains_seq(l, "audio"@) || contains_seq(l, "document"@) ||
                contains_seq(l, "voice_note"@) || contains_seq(l, "animation"@) ||
                contains_seq(l, "thumbnail"@))
                ==> c == "sticker"@ || c == "passport"@ || c == "payment"@ || c == "story"@ ||
                    c == "premium"@ || c == "forum"@ || c == "poll"@ || c == "call"@ || c == "bot"@ ||
                    c == "notification"@ || c == "file"@
            &&& (contains_seq(l, "message"@) || contains_seq(l, "text"@) ||
                contains_seq(l, "draft"@) || contains_seq(l, "caption"@) ||
                contains_seq(l, "reaction"@) || contains_seq(l, "reply_markup"@))
                ==> c == "sticker"@ || c == "passport"@ || c == "payment"@ || c == "story"@ ||
                    c == "premium"@ || c == "forum"@ || c == "poll"@ || c == "call"@ || c == "bot"@ ||
                    c == "notification"@ || c == "file"@ || c == "message"@
            &&& (contains_seq(l, "chat"@) || contains_seq(l, "supergroup"@) ||
                contains_seq(l, "basic_group"@) || contains_seq(l, "secret_chat"@) ||
                contains_seq(l, "channel"@))
                ==> c == "sticker"@ || c == "passport"@ || c == "payment"@ || c == "story"@ ||
                    c == "premium"@ || c == "forum"@ || c == "poll"@ || c == "call"@ || c == "bot"@ ||
                    c == "notification"@ || c == "file"@ || c == "message"@ || c == "chat"@
            &&& (contains_seq(l, "user"@) || contains_seq(l, "profile"@) ||
                contains_seq(l, "contact"@) || l == "get_me"@ || l == "me"@)
                ==> c == "sticker"@ || c == "passport"@ || c == "payment"@ || c == "story"@ ||
                    c == "premium"@ || c == "forum"@ || c == "poll"@ || c == "call"@ || c == "bot"@ ||
                    c == "notification"@ || c == "file"@ || c == "message"@ || c == "chat"@ ||
                    c == "user"@
            &&& c == "sticker"@ ==> (contains_seq(l, "sticker"@) || contains_seq(l, "emoji"@) ||
                contains_seq(l, "dice"@) || contains_seq(l, "animated"@))
            &&& c == "passport"@ ==> (contains_seq(l, "passport"@) ||
                contains_seq(l, "identity_document"@) || contains_seq(l, "personal_details"@) ||
                contains_seq(l, "bank_card"@))
            &&& c == "payment"@ ==> (contains_seq(l, "payment"@) || contains_seq(l, "invoice"@) ||
                contains_seq(l, "stars"@) || contains_seq(l, "star_"@) ||
                contains_seq(l, "revenue"@) || contains_seq(l, "checkout"@) ||
                contains_seq(l, "receipt"@) || contains_seq(l, "order_info"@) ||
                contains_seq(l, "shipping"@))
            &&& c == "story"@ ==> (contains_seq(l, "story"@) || contains_seq(l, "stories"@))
            &&& c == "premium"@ ==> (contains_seq(l, "premium"@) || contains_seq(l, "boost"@) ||
                contains_seq(l, "giveaway"@) || contains_seq(l, "gift_code"@) ||
                contains_seq(l, "affiliate"@) || contains_seq(l, "business"@))
            &&& c == "forum"@ ==> (contains_seq(l, "forum"@) || contains_seq(l, "topic"@))
            &&& c == "poll"@ ==> (contains_seq(l, "poll"@))
            &&& c == "call"@ ==> (contains_seq(l, "call"@) || contains_seq(l, "video_chat"@) ||
                contains_seq(l, "group_call"@))
            &&& c == "bot"@ ==> (contains_seq(l, "bot"@) || contains_seq(l, "inline_query"@) ||
                contains_seq(l, "callback_query"@) || contains_seq(l, "web_app"@) ||
                contains_seq(l, "menu_button"@))
            &&& c == "notification"@ ==> (contains_seq(l, "notification"@) ||
                contains_seq(l, "push_receiver"@))
            &&& c == "file"@ ==> (contains_seq(l, "file"@) || contains_seq(l, "photo"@) ||
                contains_seq(l, "video"@) || contains_seq(l, "audio"@) ||
                contains_seq(l, "document"@) || contains_seq(l, "voice_note"@) ||
                contains_seq(l, "animation"@) || contains_seq(l, "thumbnail"@))
            &&& c == "message"@ ==> (contains_seq(l, "message"@) || contains_seq(l, "text"@) ||
                contains_seq(l, "draft"@) || contains_seq(l, "caption"@) ||
                contains_seq(l, "reaction"@) || contains_seq(l, "reply_markup"@))
            &&& c == "chat"@ ==> (contains_seq(l, "chat"@) || contains_seq(l, "supergroup"@) ||
                contains_seq(l, "basic_group"@) || contains_seq(l, "secret_chat"@) ||
                contains_seq(l, "channel"@))
            &&& c == "user"@ ==> (contains_seq(l, "user"@) || contains_seq(l, "profile"@) ||
                contains_seq(l, "contact"@) || l == "get_me"@ || l == "me"@)
            &&& !(contains_seq(l, "sticker"@) || contains_seq(l, "emoji"@) ||
                contains_seq(l, "dice"@) || contains_seq(l, "animated"@) ||
                contains_seq(l, "passport"@) || contains_seq(l, "identity_document"@) ||
                contains_seq(l, "personal_details"@) || contains_seq(l, "bank_card"@) ||
                contains_seq(l, "payment"@) || contains_seq(l, "invoice"@) ||
                contains_seq(l, "stars"@) || contains_seq(l, "star_"@) ||
                contains_seq(l, "revenue"@) || contains_seq(l, "checkout"@) ||
                contains_seq(l, "receipt"@) || contains_seq(l, "order_info"@) ||
                contains_seq(l, "shipping"@) || contains_seq(l, "story"@) ||
                contains_seq(l, "stories"@) || contains_seq(l, "premium"@) ||
                contains_seq(l, "boost"@) || contains_seq(l, "giveaway"@) ||
                contains_seq(l, "gift_code"@) || contains_seq(l, "affiliate"@) ||
                contains_seq(l, "business"@) || contains_seq(l, "forum"@) ||
                contains_seq(l, "topic"@) || contains_seq(l, "poll"@) || contains_seq(l, "call"@) ||
                contains_seq(l, "video_chat"@) || contains_seq(l, "group_call"@) ||
                contains_seq(l, "bot"@) || contains_seq(l, "inline_query"@) ||
                contains_seq(l, "callback_query"@) || contains_seq(l, "web_app"@) ||
                contains_seq(l, "menu_button"@) || contains_seq(l, "notification"@) ||
                contains_seq(l, "push_receiver"@) || contains_seq(l, "file"@) ||
                contains_seq(l, "photo"@) || contains_seq(l, "video"@) || contains_seq(l, "audio"@) ||
                contains_seq(l, "document"@) || contains_seq(l, "voice_note"@) ||
                contains_seq(l, "animation"@) || contains_seq(l, "thumbnail"@) ||
                contains_seq(l, "message"@) || contains_seq(l, "text"@) || contains_seq(l, "draft"@) ||
                contains_seq(l, "caption"@) || contains_seq(l, "reaction"@) ||
                contains_seq(l, "reply_markup"@) || contains_seq(l, "chat"@) ||
                contains_seq(l, "supergroup"@) || contains_seq(l, "basic_group"@) ||
                contains_seq(l, "secret_chat"@) || contains_seq(l, "channel"@) ||
                contains_seq(l, "user"@) || contains_seq(l, "profile"@) ||
                contains_seq(l, "contact"@) || l == "get_me"@ || l == "me"@)
                ==> c == "misc"@
        }),
{
    // The domain names differ pairwise: by their length, or else by a character.
    reveal_strlit("sticker");
    assert("sticker"@.len() == 7);
    reveal_strlit("passport");
    assert("passport"@.len() == 8);
    reveal_strlit("payment");
    assert("payment"@.len() == 7);
    reveal_strlit("story");
    assert("story"@.len() == 5);
    reveal_strlit("premium");
    assert("premium"@.len() == 7);
    reveal_strlit("forum");
    assert("forum"@.len() == 5);
    reveal_strlit("poll");
    assert("poll"@.len() == 4);
    reveal_strlit("call");
    assert("call"@.len() == 4);
    reveal_strlit("bot");
    assert("bot"@.len() == 3);
    reveal_strlit("notification");
    assert("notification"@.len() == 12);
    reveal_strlit("file");
    assert("file"@.len() == 4);
    reveal_strlit("message");
    assert("message"@.len() == 7);
    reveal_strlit("chat");
    assert("chat"@.len() == 4);
    reveal_strlit("user");
    assert("user"@.len() == 4);
    reveal_strlit("misc");
    assert("misc"@.len() == 4);
    assert("sticker"@[0] != "payment"@[0]);
    assert("sticker"@[0] != "premium"@[0]);
    assert("sticker"@[0] != "message"@[0]);
    assert("payment"@[1] != "premium"@[1]);
    assert("payment"@[0] != "message"@[0]);
    assert("story"@[0] != "forum"@[0]);
    assert("premium"@[0] != "message"@[0]);
    assert("poll"@[0] != "call"@[0]);
    assert("poll"@[0] != "file"@[0]);
    assert("poll"@[0] != "chat"@[0]);
    assert("poll"@[0] != "user"@[0]);
    assert("poll"@[0] != "misc"@[0]);
    assert("call"@[0] != "file"@[0]);
    assert("call"@[1] != "chat"@[1]);
    assert("call"@[0] != "user"@[0]);
    assert("call"@[0] != "misc"@[0]);
    assert("file"@[0] != "chat"@[0]);
    assert("file"@[0] != "user"@[0]);
    assert("file"@[0] != "misc"@[0]);
    assert("chat"@[0] != "user"@[0]);
    assert("chat"@[0] != "misc"@[0]);
    assert("user"@[0] != "misc"@[0]);
}

} // verus!
