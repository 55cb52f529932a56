//! The greeting.

use crate::fun::{is_one_of, mention, mention_text, random_option};
use crate::text::texts;
use vstd::prelude::*;
use vstd::string::StringExecFns;

verus! {

/// The pictures, one of which ends a greeting.
pub open spec fn emojis() -> Seq<Seq<char>> {
    seq![
        "👌"@,
        "👌🏻"@,
        "👌🏼"@,
        "👌🏽"@,
        "👌🏾"@,
        "👌🏿"@,
        "👍"@,
        "👍🏻"@,
        "👍🏼"@,
        "👍🏽"@,
        "👍🏾"@,
        "👍🏿"@,
        "🍌"@,
        "😄"@,
        "🔥"@,
        "💯"@,
        "🆒"@,
        "🚽"@,
        "🚾"@,
        "❤"@,
        "⚠"@,
        "✅"@,
    ]
}

/// The greeting of a user that ends with the picture `emoji`.
pub open spec fn hello_text(author: u64, emoji: Seq<char>) -> Seq<char> {
    "Hi, "@ + mention_text(author) + "! "@ + emoji
}

/// Lists the pictures.
pub fn emoji_list() -> (list: Vec<String>)
    ensures
        texts(list@) == emojis(),
{
    let mut list: Vec<String> = Vec::new();
    list.push("👌".to_owned());
    list.push("👌🏻".to_owned());
    list.push("👌🏼".to_owned());
    list.push("👌🏽".to_owned());
    list.push("👌🏾".to_owned());
    list.push("👌🏿".to_owned());
    list.push("👍".to_owned());
    list.push("👍🏻".to_owned());
    list.push("👍🏼".to_owned());
    list.push("👍🏽".to_owned());
    list.push("👍🏾".to_owned());
    list.push("👍🏿".to_owned());
    list.push("🍌".to_owned());
    list.push("😄".to_owned());
    list.push("🔥".to_owned());
    list.push("💯".to_owned());
    list.push("🆒".to_owned());
    list.push("🚽".to_owned());
    list.push("🚾".to_owned());
    list.push("❤".to_owned());
    list.push("⚠".to_owned());
    list.push("✅".to_owned());
    assert(texts(list@) =~= emojis());
    list
}

/// Writes the greeting of a user that ends with the picture `emoji`.
pub fn hello_reply(author: u64, emoji: &str) -> (reply: String)
    ensures
        reply@ == hello_text(author, emoji@),
{
    let mut reply = String::new();
    reply.append("Hi, ");
    let who = mention(author);
    reply.append(who.as_str());
    reply.append("! ");
    reply.append(emoji);
    reply
}

/// Greets a user, with a picture that is picked at random.
pub fn handle_hello(author: u64) -> (reply: String)
    ensures
        exists|emoji: Seq<char>| is_one_of(emoji, emojis()) && reply@ == hello_text(author, emoji),
{
    let list = emoji_list();
    assert(texts(list@).len() == list@.len());
    let emoji = random_option(&list).unwrap();
    hello_reply(author, emoji.as_str())
}

} // verus!
