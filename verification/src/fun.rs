//! Text transformations and other small commands.

use crate::mirror::ChannelRef;
use crate::model::{Message, PublicChannel, Role, RoleView, Server, ServerView, User};
use crate::keyed::views;
use crate::parser::{is_space, is_whitespace, spaces_end};
use crate::text::{
    append_chars, append_decimal, append_hexadecimal, decimal, hexadecimal, push_char, texts,
    to_chars,
};
use rand::Rng;
use vstd::prelude::*;
use vstd::std_specs::iter::IteratorSpec;
use vstd::string::{StrSliceExecFns, StringExecFns};

verus! {

/// Whether `n` is the number of a character: a code point that is no
/// surrogate.
pub open spec fn is_scalar(n: u32) -> bool {
    n <= 0xD7FF || 0xE000 <= n <= 0x10FFFF
}

/// Calls `char::from_u32` of the standard library, which gives the
/// character with the number `n` where there is one, and `None` for a
/// surrogate or a number beyond the last code point.
#[verifier::external_body]
pub(crate) fn char_from_u32(n: u32) -> (res: Option<char>)
    ensures
        is_scalar(n) ==> res == Some(n as char),
        !is_scalar(n) ==> res is None,
{
    char::from_u32(n)
}

/// The Fraktur form of a letter: lower-case letters have one in the
/// mathematical Fraktur alphabet; of the capitals C, H, I, R and Z only the
/// bold form exists, so these take it; the other capitals take the plain
/// form. Any other character stays as it is.
pub open spec fn fraktur_of(c: char) -> char {
    let n = c as u32;
    if 0x61 <= n <= 0x7A {
        (0x1D51E + (n - 0x61)) as char
    } else if n == 0x43 || n == 0x48 || n == 0x49 || n == 0x52 || n == 0x5A {
        (0x1D56C + (n - 0x41)) as char
    } else if 0x41 <= n <= 0x5A {
        (0x1D504 + (n - 0x41)) as char
    } else {
        c
    }
}

/// The full-width form of a character: the printable ASCII characters have
/// one, and the space becomes the ideographic space.
pub open spec fn fullwidth_of(c: char) -> char {
    let n = c as u32;
    if 0x21 <= n <= 0x7E {
        (0xFF01 + (n - 0x21)) as char
    } else if n == 0x20 {
        0x3000u32 as char
    } else {
        c
    }
}

/// The least position from `from` on at which `text` holds `c`, or the
/// length of `text` when it does not.
pub open spec fn position_from(text: Seq<char>, c: char, from: int) -> int
    decreases text.len() - from,
{
    if from >= text.len() {
        text.len() as int
    } else if text[from] == c {
        from
    } else {
        position_from(text, c, from + 1)
    }
}

/// The capitals that have a small capital form.
pub open spec fn capitals() -> Seq<char> {
    "ABCDEFGHIJKLMNOPRSTUVWYZÆŒÐƷƎŁƆШГΛПРΨΩЛ"@
}

/// The small capital forms, in the order of `capitals`.
pub open spec fn small_capitals() -> Seq<char> {
    "ᴀʙᴄᴅᴇꜰɢʜɪᴊᴋʟᴍɴᴏᴘʀꜱᴛᴜᴠᴡʏᴢᴁɶᴆᴣⱻᴌᴐꟺᴦᴧᴨᴘᴪꭥл"@
}

/// The small capital form of a capital letter that has one; any other
/// character stays as it is.
pub open spec fn smallcaps_of(c: char) -> char {
    let i = position_from(capitals(), c, 0);
    if i < capitals().len() {
        small_capitals()[i]
    } else {
        c
    }
}

/// Turns a letter into its Fraktur form.
pub fn frakturize(c: char) -> (res: char)
    ensures
        res == fraktur_of(c),
{
    let n: u32 = c as u32;
    let shifted: u32 = if 0x61 <= n && n <= 0x7A {
        0x1D51E + (n - 0x61)
    } else if n == 0x43 || n == 0x48 || n == 0x49 || n == 0x52 || n == 0x5A {
        0x1D56C + (n - 0x41)
    } else if 0x41 <= n && n <= 0x5A {
        0x1D504 + (n - 0x41)
    } else {
        return c;
    };
    char_from_u32(shifted).unwrap()
}

/// Turns a character into its full-width form.
pub fn make_fullwidth(c: char) -> (res: char)
    ensures
        res == fullwidth_of(c),
{
    let n: u32 = c as u32;
    let shifted: u32 = if 0x21 <= n && n <= 0x7E {
        0xFF01 + (n - 0x21)
    } else if n == 0x20 {
        0x3000
    } else {
        return c;
    };
    char_from_u32(shifted).unwrap()
}

/// Turns a capital letter into its small capital form.
pub fn make_smallcaps(c: char) -> (res: char)
    ensures
        res == smallcaps_of(c),
{
    let large = "ABCDEFGHIJKLMNOPRSTUVWYZÆŒÐƷƎŁƆШГΛПРΨΩЛ";
    let small = "ᴀʙᴄᴅᴇꜰɢʜɪᴊᴋʟᴍɴᴏᴘʀꜱᴛᴜᴠᴡʏᴢᴁɶᴆᴣⱻᴌᴐꟺᴦᴧᴨᴘᴪꭥл";
    proof {
        reveal_strlit("ABCDEFGHIJKLMNOPRSTUVWYZÆŒÐƷƎŁƆШГΛПРΨΩЛ");
        reveal_strlit("ᴀʙᴄᴅᴇꜰɢʜɪᴊᴋʟᴍɴᴏᴘʀꜱᴛᴜᴠᴡʏᴢᴁɶᴆᴣⱻᴌᴐꟺᴦᴧᴨᴘᴪꭥл");
    }
    let len = large.unicode_len();
    let mut it = large.chars();
    let mut i: usize = 0;
    while i < len
        invariant
            len == large@.len(),
            large@ == capitals(),
            small@ == small_capitals(),
            capitals().len() == small_capitals().len(),
            i <= len,
            it.obeys_prophetic_iter_laws(),
            it.remaining() == large@.subrange(i as int, len as int),
            position_from(capitals(), c, 0) == position_from(capitals(), c, i as int),
        decreases len - i,
    {
        match it.next() {
            Some(letter) => {
                assert(letter == large@[i as int]);
                if letter == c {
                    return small.get_char(i);
                }
            },
            None => {},
        }
        i = i + 1;
    }
    c
}

/// A way of writing a text in other characters.
#[derive(Clone, Copy, PartialEq, Eq, Structural, Debug)]
pub enum Style {
    Fraktur,
    Fullwidth,
    Smallcaps,
}

/// A character written in a style.
pub open spec fn styled(style: Style, c: char) -> char {
    match style {
        Style::Fraktur => fraktur_of(c),
        Style::Fullwidth => fullwidth_of(c),
        Style::Smallcaps => smallcaps_of(c),
    }
}

/// Writes a text in a style, character by character.
pub fn restyle(text: &str, style: Style) -> (res: String)
    ensures
        res@ == text@.map_values(|c: char| styled(style, c)),
{
    let chars = to_chars(text);
    let mut res = String::new();
    let mut i: usize = 0;
    while i < chars.len()
        invariant
            i <= chars@.len(),
            res@ == chars@.subrange(0, i as int).map_values(|c: char| styled(style, c)),
        decreases chars@.len() - i,
    {
        let c = match style {
            Style::Fraktur => frakturize(chars[i]),
            Style::Fullwidth => make_fullwidth(chars[i]),
            Style::Smallcaps => make_smallcaps(chars[i]),
        };
        push_char(&mut res, c);
        i = i + 1;
        assert(res@ =~= chars@.subrange(0, i as int).map_values(|c: char| styled(style, c)));
    }
    assert(chars@.subrange(0, i as int) =~= chars@);
    res
}

/// The text that makes the service notify the user `user_id`.
pub open spec fn mention_text(user_id: u64) -> Seq<char> {
    "<@"@ + decimal(user_id as nat) + ">"@
}

/// Writes the text that makes the service notify a user.
pub fn mention(user_id: u64) -> (res: String)
    ensures
        res@ == mention_text(user_id),
{
    let mut res = String::new();
    res.append("<@");
    append_decimal(&mut res, user_id);
    res.append(">");
    res
}

/// The upper limit of a roll when none is given.
pub const DEFAULT_ROLL_LIMIT: u64 = 100;

/// Whether `c` is one of the digits 0 to 9.
pub open spec fn is_digit(c: char) -> bool {
    0x30 <= c as u32 <= 0x39
}

/// The least position from `from` on of a character of `text` that is no
/// digit, or the length of `text`.
pub open spec fn digits_end(text: Seq<char>, from: int) -> int
    decreases text.len() - from,
{
    if from >= text.len() {
        text.len() as int
    } else if !is_digit(text[from]) {
        from
    } else {
        digits_end(text, from + 1)
    }
}

/// The number that a run of digits stands for.
pub open spec fn digits_value(digits: Seq<char>) -> nat
    decreases digits.len(),
{
    if digits.len() == 0 {
        0
    } else {
        digits_value(digits.drop_last()) * 10 + (digits.last() as u32 - 0x30) as nat
    }
}

/// The upper limit that the arguments of a roll ask for. A limit is given
/// by digits that come first, after any whitespace, and that are followed
/// by whitespace or by nothing. Where no limit is given, where it is zero,
/// and where it is too large a number, the limit is a hundred.
pub open spec fn roll_limit_of(text: Seq<char>) -> u64 {
    let start = spaces_end(text, 0);
    let end = digits_end(text, start);
    let value = digits_value(text.subrange(start, end));
    if start < end && (end == text.len() || is_whitespace(text[end])) && 0 < value <= u64::MAX {
        value as u64
    } else {
        DEFAULT_ROLL_LIMIT
    }
}

/// Reads the upper limit from the arguments of a roll.
pub fn roll_limit(text: &str) -> (limit: u64)
    ensures
        limit == roll_limit_of(text@),
        limit > 0,
{
    let chars = to_chars(text);
    let mut start: usize = 0;
    while start < chars.len() && is_space(chars[start])
        invariant
            start <= chars@.len(),
            spaces_end(chars@, 0) == spaces_end(chars@, start as int),
        decreases chars@.len() - start,
    {
        start = start + 1;
    }
    let mut end: usize = start;
    let mut value: u64 = 0;
    let mut fits: bool = true;
    while end < chars.len() && 0x30 <= (chars[end] as u32) && (chars[end] as u32) <= 0x39
        invariant
            start <= end <= chars@.len(),
            digits_end(chars@, start as int) == digits_end(chars@, end as int),
            fits ==> value == digits_value(chars@.subrange(start as int, end as int)),
            !fits ==> digits_value(chars@.subrange(start as int, end as int)) > u64::MAX,
        decreases chars@.len() - end,
    {
        let d: u64 = ((chars[end] as u32) - 0x30) as u64;
        proof {
            let run = chars@.subrange(start as int, end + 1);
            assert(run.drop_last() =~= chars@.subrange(start as int, end as int));
            assert(run.last() == chars@[end as int]);
        }
        if fits {
            if value > (u64::MAX - d) / 10 {
                fits = false;
            } else {
                value = value * 10 + d;
            }
        }
        end = end + 1;
    }
    if start < end && (end == chars.len() || is_space(chars[end])) && fits && value > 0 {
        value
    } else {
        DEFAULT_ROLL_LIMIT
    }
}

/// Calls `Rng::gen_range` of rand on the generator of the thread, with the
/// bounds zero and `limit`. The result lies below `limit`; nothing else is
/// known of it.
#[verifier::external_body]
pub(crate) fn random_below(limit: u64) -> (n: u64)
    requires
        limit > 0,
    ensures
        n < limit,
{
    rand::thread_rng().gen_range(0, limit)
}

/// The reply to a roll.
pub open spec fn roll_text(author: u64, number: u64) -> Seq<char> {
    mention_text(author) + " rolled **"@ + decimal(number as nat) + "**!"@
}

/// Writes the reply to a roll that came out as `number`.
pub fn roll_reply(author: u64, number: u64) -> (reply: String)
    ensures
        reply@ == roll_text(author, number),
{
    let mut reply = mention(author);
    reply.append(" rolled **");
    append_decimal(&mut reply, number);
    reply.append("**!");
    reply
}

/// Rolls a number below the limit that `text` asks for, and writes the
/// reply to `author`.
pub fn handle_roll(author: u64, text: &str) -> (reply: String)
    ensures
        exists|number: u64| number < roll_limit_of(text@) && reply@ == roll_text(author, number),
{
    let limit = roll_limit(text);
    let number = random_below(limit);
    roll_reply(author, number)
}

/// The character that separates the options of a pick.
pub const OPTION_SEPARATOR: char = ';';

/// The options that `rest` holds, where `pending` is the part of an option
/// that was read before `rest`: the runs of characters between separators
/// that are not empty, in their order.
pub open spec fn options_from(pending: Seq<char>, rest: Seq<char>) -> Seq<Seq<char>>
    decreases rest.len(),
{
    let done = if pending.len() > 0 {
        seq![pending]
    } else {
        Seq::empty()
    };
    if rest.len() == 0 {
        done
    } else if rest[0] == OPTION_SEPARATOR {
        done + options_from(Seq::empty(), rest.drop_first())
    } else {
        options_from(pending.push(rest[0]), rest.drop_first())
    }
}

/// The options that the arguments of a pick hold.
pub open spec fn pick_options_of(text: Seq<char>) -> Seq<Seq<char>> {
    options_from(Seq::empty(), text)
}

/// Reads the options from the arguments of a pick.
pub fn pick_options(text: &str) -> (options: Vec<String>)
    ensures
        texts(options@) == pick_options_of(text@),
{
    let chars = to_chars(text);
    let mut options: Vec<String> = Vec::new();
    let mut pending = String::new();
    let mut i: usize = 0;
    proof {
        assert(chars@.subrange(0, chars@.len() as int) =~= chars@);
        assert(texts(options@) + pick_options_of(chars@) =~= pick_options_of(chars@));
    }
    while i < chars.len()
        invariant
            i <= chars@.len(),
            pick_options_of(chars@) == texts(options@) + options_from(
                pending@,
                chars@.subrange(i as int, chars@.len() as int),
            ),
        decreases chars@.len() - i,
    {
        let ghost rest = chars@.subrange(i as int, chars@.len() as int);
        let ghost held = options@;
        proof {
            assert(rest.drop_first() =~= chars@.subrange(i + 1, chars@.len() as int));
            assert(rest[0] == chars@[i as int]);
        }
        if chars[i] == OPTION_SEPARATOR {
            if !pending.as_str().is_empty() {
                let mut option = String::new();
                std::mem::swap(&mut option, &mut pending);
                options.push(option);
                assert(texts(options@) =~= texts(held) + seq![option@]);
            }
            assert(pending@ =~= Seq::<char>::empty());
        } else {
            push_char(&mut pending, chars[i]);
        }
        i = i + 1;
    }
    if !pending.as_str().is_empty() {
        let ghost held = options@;
        options.push(pending);
        assert(texts(options@) =~= texts(held) + seq![pending@]);
    }
    options
}

/// Calls `Rng::choose` of rand on the generator of the thread, which
/// gives one of the options where there is any, and `None` where there is
/// none. Which option it gives is not known.
#[verifier::external_body]
pub(crate) fn random_option(options: &Vec<String>) -> (res: Option<String>)
    ensures
        (res is None) == (options@.len() == 0),
        res is Some ==> is_one_of(res->0@, texts(options@)),
{
    rand::thread_rng().choose(options).cloned()
}

/// Whether `text` is one of the texts of `list`.
pub open spec fn is_one_of(text: Seq<char>, list: Seq<Seq<char>>) -> bool {
    exists|i: int| 0 <= i < list.len() && list[i] == text
}

/// The reply that names the option that was picked.
pub open spec fn pick_text(author: u64, option: Seq<char>) -> Seq<char> {
    mention_text(author) + ": I pick "@ + option + "!"@
}

/// Writes the reply that names the option that was picked.
pub fn pick_reply(author: u64, option: &str) -> (reply: String)
    ensures
        reply@ == pick_text(author, option@),
{
    let mut reply = mention(author);
    reply.append(": I pick ");
    reply.append(option);
    reply.append("!");
    reply
}

/// Picks one of the options that `text` holds and writes the reply to
/// `author`. With fewer than two options the reply is the help text.
pub fn handle_pick(author: u64, text: &str, help: &str) -> (reply: String)
    ensures
        pick_options_of(text@).len() < 2 ==> reply@ == help@,
        pick_options_of(text@).len() >= 2 ==> exists|i: int|
            0 <= i < pick_options_of(text@).len() && reply@ == pick_text(
                author,
                #[trigger] pick_options_of(text@)[i],
            ),
{
    let options = pick_options(text);
    assert(texts(options@).len() == options@.len());
    if options.len() < 2 {
        return help.to_owned();
    }
    let option = random_option(&options).unwrap();
    proof {
        let list = texts(options@);
        let i = choose|i: int| 0 <= i < list.len() && list[i] == option@;
        assert(pick_options_of(text@)[i] == option@);
    }
    pick_reply(author, option.as_str())
}

/// The lines that list the roles of a server.
pub open spec fn roles_text(roles: Seq<RoleView>) -> Seq<char>
    decreases roles.len(),
{
    if roles.len() == 0 {
        Seq::empty()
    } else {
        roles_text(roles.drop_last()) + "\n- "@ + decimal(roles.last().id as nat) + " '"@
            + roles.last().name + "'"@
    }
}

/// What is said of a server and one of its channels.
pub open spec fn info_text(server: ServerView, channel_id: u64) -> Seq<char> {
    "```Server ID: "@ + decimal(server.id as nat) + ",\nOwner ID: "@ + decimal(
        server.owner_id as nat,
    ) + ",\nMember count: "@ + decimal(server.member_count as nat) + ",\nIcon: "@ + (match server.icon {
        Some(icon) => icon,
        None => "N/A"@,
    }) + ",\nRoles:"@ + (if server.roles.len() == 0 {
        " N/A"@
    } else {
        roles_text(server.roles)
    }) + "\n\nChannel ID: "@ + decimal(channel_id as nat) + "```"@
}

/// What is said when the channel of a message is not known.
pub open spec fn unknown_channel_text() -> Seq<char> {
    "Huh, I couldn't get this channel's info for some reason. Try again I guess?"@
}

/// What is said of the channel that a message was sent in. Of a private
/// channel or a group, `details` is shown as it is.
pub open spec fn info_reply_text(found: Option<ChannelRef>, details: Seq<char>) -> Seq<char> {
    match found {
        Some(ChannelRef::Public(server, channel)) => info_text(server@, channel.id),
        Some(_) => "```"@ + details + "```"@,
        None => unknown_channel_text(),
    }
}

/// Writes what is said of a server and one of its channels.
pub fn server_info(server: &Server, channel: &PublicChannel) -> (reply: String)
    ensures
        reply@ == info_text(server@, channel.id),
{
    let mut buf = String::new();
    buf.append("```Server ID: ");
    append_decimal(&mut buf, server.id);
    buf.append(",\nOwner ID: ");
    append_decimal(&mut buf, server.owner_id);
    buf.append(",\nMember count: ");
    append_decimal(&mut buf, server.member_count);
    buf.append(",\nIcon: ");
    match &server.icon {
        Some(icon) => buf.append(icon.as_str()),
        None => buf.append("N/A"),
    }
    buf.append(",\nRoles:");
    if server.roles.len() == 0 {
        buf.append(" N/A");
    } else {
        let ghost head = buf@;
        let mut i: usize = 0;
        while i < server.roles.len()
            invariant
                i <= server.roles@.len(),
                buf@ == head + roles_text(views(server.roles@).subrange(0, i as int)),
            decreases server.roles@.len() - i,
        {
            let role = &server.roles[i];
            proof {
                let next = views(server.roles@).subrange(0, i + 1);
                assert(next.drop_last() =~= views(server.roles@).subrange(0, i as int));
                assert(next.last() == role@);
            }
            buf.append("\n- ");
            append_decimal(&mut buf, role.id);
            buf.append(" '");
            buf.append(role.name.as_str());
            buf.append("'");
            i = i + 1;
            assert(buf@ =~= head + roles_text(views(server.roles@).subrange(0, i as int)));
        }
        assert(views(server.roles@).subrange(0, i as int) =~= views(server.roles@));
    }
    buf.append("\n\nChannel ID: ");
    append_decimal(&mut buf, channel.id);
    buf.append("```");
    buf
}

/// Writes what is said of the channel that a message was sent in.
pub fn handle_info(found: &Option<ChannelRef>, details: &str) -> (reply: String)
    ensures
        reply@ == info_reply_text(*found, details@),
{
    match found {
        Some(ChannelRef::Public(server, channel)) => server_info(server, channel),
        Some(_) => {
            let mut reply = String::new();
            reply.append("```");
            reply.append(details);
            reply.append("```");
            reply
        },
        None => "Huh, I couldn't get this channel's info for some reason. Try again I guess?".to_owned(),
    }
}

/// The most characters that a message can hold.
pub const MESSAGE_LIMIT: usize = 2000;

/// The text that repeats what a user said, cut at the most that a message
/// can hold.
pub open spec fn quote_text(author: u64, content: Seq<char>) -> Seq<char> {
    let whole = mention_text(author) + " said: "@ + content;
    if whole.len() > MESSAGE_LIMIT {
        whole.subrange(0, MESSAGE_LIMIT as int)
    } else {
        whole
    }
}

/// Writes the text that repeats what a user said.
pub fn quote(author: u64, content: &str) -> (reply: String)
    ensures
        reply@ == quote_text(author, content@),
{
    let mut whole = mention(author);
    whole.append(" said: ");
    whole.append(content);
    let chars = to_chars(whole.as_str());
    if chars.len() > MESSAGE_LIMIT {
        let mut reply = String::new();
        append_chars(&mut reply, &chars, 0, MESSAGE_LIMIT);
        assert(reply@ =~= chars@.subrange(0, MESSAGE_LIMIT as int));
        reply
    } else {
        whole
    }
}

/// The permission to join a voice channel.
pub const VOICE_CONNECT: u64 = 0x0010_0000;

/// The permission to speak in a voice channel.
pub const VOICE_SPEAK: u64 = 0x0020_0000;

/// The permission to change channels.
pub const MANAGE_CHANNELS: u64 = 0x0000_0010;

/// The permission to change roles.
pub const MANAGE_ROLES: u64 = 0x1000_0000;

/// What those who were invited to a room may do there: join, speak, and
/// change channels and roles.
pub const ROOM_ALLOW_PERMS: u64 = 0x1030_0010;

/// What everyone else may not do there: join.
pub const ROOM_DENY_PERMS: u64 = 0x0010_0000;

/// The permissions that let someone into a room are those to join, to
/// speak, and to change channels and roles.
pub proof fn lemma_room_permissions()
    ensures
        ROOM_ALLOW_PERMS == VOICE_CONNECT | VOICE_SPEAK | MANAGE_CHANNELS | MANAGE_ROLES,
        ROOM_DENY_PERMS == VOICE_CONNECT,
{
    assert(0x1030_0010u64 == 0x0010_0000u64 | 0x0020_0000u64 | 0x0000_0010u64 | 0x1000_0000u64)
        by (bit_vector);
}

/// Whom a permission overwrite is for.
#[derive(Clone, Copy, PartialEq, Eq, Structural, Debug)]
pub enum OverwriteTarget {
    Role(u64),
    Member(u64),
}

/// The permissions that a role or a member gets or loses in one channel.
#[derive(Clone, Copy, PartialEq, Eq, Structural, Debug)]
pub struct Overwrite {
    pub target: OverwriteTarget,
    pub allow: u64,
    pub deny: u64,
}

/// What is to be done for a request for a room.
#[derive(Debug, PartialEq, Eq)]
pub enum RoomPlan {
    /// Only a reply is sent.
    Reply(String),
    /// A voice channel with this name is created in the server, and the
    /// overwrites are set on it, in their order.
    Create { server_id: u64, name: String, overwrites: Vec<Overwrite> },
}

/// What came of creating the voice channel.
#[derive(Debug, PartialEq, Eq)]
pub enum Created {
    /// A channel of a server, with its identifier.
    Public(u64),
    Private,
    Group,
    /// Nothing was created; the text says why.
    Failed(String),
}

/// What follows the creation of the voice channel.
#[derive(Debug, PartialEq, Eq)]
pub enum RoomOutcome {
    /// The overwrites are set on the channel with this identifier.
    Apply(u64),
    /// A reply is sent.
    Reply(String),
}

/// The identifiers of a list of users.
pub open spec fn user_ids(users: Seq<User>) -> Seq<u64> {
    users.map_values(|user: User| user.id)
}

/// The overwrite that lets a member into a room.
pub open spec fn member_allowed(id: u64) -> Overwrite {
    Overwrite { target: OverwriteTarget::Member(id), allow: ROOM_ALLOW_PERMS, deny: 0 }
}

/// The overwrite that lets those with a role into a room.
pub open spec fn role_allowed(id: u64) -> Overwrite {
    Overwrite { target: OverwriteTarget::Role(id), allow: ROOM_ALLOW_PERMS, deny: 0 }
}

/// The overwrites of a room. The first keeps everyone out: it is for the
/// role that has the identifier of the server, which every member has. Then
/// the author is let in, then the users that the message mentions, then the
/// roles that it mentions.
pub open spec fn room_overwrites_of(
    server_id: u64,
    author: u64,
    mentions: Seq<u64>,
    mention_roles: Seq<u64>,
) -> Seq<Overwrite> {
    seq![
        Overwrite { target: OverwriteTarget::Role(server_id), allow: 0, deny: ROOM_DENY_PERMS },
        member_allowed(author),
    ] + mentions.map_values(|id: u64| member_allowed(id)) + mention_roles.map_values(
        |id: u64| role_allowed(id),
    )
}

/// The name of the room with the number `number`.
pub open spec fn room_name_text(number: u64) -> Seq<char> {
    "🤖 - ybot - "@ + hexadecimal(number as nat)
}

/// What is said to a request for a room outside a server.
pub open spec fn no_room_text() -> Seq<char> {
    "Well, what do you expect me to do?"@
}

/// Whether `plan` is what a request for a room asks for, given what the
/// channel of the message resolved to. Outside a server, and where the
/// channel is not known, only a reply is sent. In a server a message that
/// mentions nobody gets the help text; any other gets a room, whose name
/// holds a number that is not known beforehand.
pub open spec fn room_planned(
    found: Option<ChannelRef>,
    message: Message,
    help: Seq<char>,
    plan: RoomPlan,
) -> bool {
    match found {
        Some(ChannelRef::Public(server, _)) => if message.mentions@.len() > 0
            || message.mention_roles@.len() > 0 {
            &&& plan matches RoomPlan::Create { server_id, name, overwrites }
            &&& server_id == server.id
            &&& exists|number: u64| name@ == room_name_text(number)
            &&& overwrites@ == room_overwrites_of(
                server.id,
                message.author.id,
                user_ids(message.mentions@),
                message.mention_roles@,
            )
        } else {
            plan matches RoomPlan::Reply(text) && text@ == help
        },
        Some(_) => plan matches RoomPlan::Reply(text) && text@ == no_room_text(),
        None => plan matches RoomPlan::Reply(text) && text@ == unknown_channel_text(),
    }
}

/// Calls `rand::random` for a number of 64 bits, of which nothing is known.
#[verifier::external_body]
pub(crate) fn random_number() -> u64 {
    rand::random::<u64>()
}

/// Writes the name of the room with the number `number`.
pub fn room_name(number: u64) -> (name: String)
    ensures
        name@ == room_name_text(number),
{
    let mut name = String::new();
    name.append("🤖 - ybot - ");
    append_hexadecimal(&mut name, number);
    name
}

/// Lists the overwrites of a room in the server `server_id` that
/// `message` asks for.
pub fn room_overwrites(server_id: u64, message: &Message) -> (overwrites: Vec<Overwrite>)
    ensures
        overwrites@ == room_overwrites_of(
            server_id,
            message.author.id,
            user_ids(message.mentions@),
            message.mention_roles@,
        ),
{
    let mut overwrites: Vec<Overwrite> = Vec::new();
    overwrites.push(
        Overwrite { target: OverwriteTarget::Role(server_id), allow: 0, deny: ROOM_DENY_PERMS },
    );
    overwrites.push(
        Overwrite {
            target: OverwriteTarget::Member(message.author.id),
            allow: ROOM_ALLOW_PERMS,
            deny: 0,
        },
    );
    let ghost head = overwrites@;
    let ghost ids = user_ids(message.mentions@);
    let mut i: usize = 0;
    while i < message.mentions.len()
        invariant
            i <= message.mentions@.len(),
            ids == user_ids(message.mentions@),
            overwrites@ == head + ids.subrange(0, i as int).map_values(|id: u64| member_allowed(id)),
        decreases message.mentions@.len() - i,
    {
        overwrites.push(
            Overwrite {
                target: OverwriteTarget::Member(message.mentions[i].id),
                allow: ROOM_ALLOW_PERMS,
                deny: 0,
            },
        );
        i = i + 1;
        assert(overwrites@ =~= head + ids.subrange(0, i as int).map_values(
            |id: u64| member_allowed(id),
        ));
    }
    assert(ids.subrange(0, i as int) =~= ids);
    let ghost middle = overwrites@;
    let mut j: usize = 0;
    while j < message.mention_roles.len()
        invariant
            j <= message.mention_roles@.len(),
            overwrites@ == middle + message.mention_roles@.subrange(0, j as int).map_values(
                |id: u64| role_allowed(id),
            ),
        decreases message.mention_roles@.len() - j,
    {
        overwrites.push(
            Overwrite {
                target: OverwriteTarget::Role(message.mention_roles[j]),
                allow: ROOM_ALLOW_PERMS,
                deny: 0,
            },
        );
        j = j + 1;
        assert(overwrites@ =~= middle + message.mention_roles@.subrange(0, j as int).map_values(
            |id: u64| role_allowed(id),
        ));
    }
    assert(message.mention_roles@.subrange(0, j as int) =~= message.mention_roles@);
    overwrites
}

/// Decides what is done for a request for a room.
pub fn handle_room(found: &Option<ChannelRef>, message: &Message, help: &str) -> (plan: RoomPlan)
    ensures
        room_planned(*found, *message, help@, plan),
{
    match found {
        Some(ChannelRef::Public(server, _)) => {
            if message.mentions.len() > 0 || message.mention_roles.len() > 0 {
                let number = random_number();
                RoomPlan::Create {
                    server_id: server.id,
                    name: room_name(number),
                    overwrites: room_overwrites(server.id, message),
                }
            } else {
                RoomPlan::Reply(help.to_owned())
            }
        },
        Some(_) => RoomPlan::Reply("Well, what do you expect me to do?".to_owned()),
        None => RoomPlan::Reply(
            "Huh, I couldn't get this channel's info for some reason. Try again I guess?".to_owned(),
        ),
    }
}

/// What follows the creation of the voice channel, as text where a reply
/// is sent.
pub open spec fn room_outcome_of(created: Created) -> Option<Seq<char>> {
    match created {
        Created::Public(_) => None,
        Created::Private => Some("I made a private channel?! How did I what."@),
        Created::Group => Some("I made a group?! How did I what."@),
        Created::Failed(error) => Some("Couldn't create a new channel: "@ + error@ + " :/"@),
    }
}

/// Decides what follows the creation of the voice channel: the overwrites
/// are set on a channel of a server; anything else is answered.
pub fn room_outcome(created: &Created) -> (outcome: RoomOutcome)
    ensures
        match outcome {
            RoomOutcome::Apply(channel_id) => *created == Created::Public(channel_id),
            RoomOutcome::Reply(text) => room_outcome_of(*created) == Some(text@),
        },
{
    match created {
        Created::Public(channel_id) => RoomOutcome::Apply(*channel_id),
        Created::Private => RoomOutcome::Reply("I made a private channel?! How did I what.".to_owned()),
        Created::Group => RoomOutcome::Reply("I made a group?! How did I what.".to_owned()),
        Created::Failed(error) => {
            let mut text = String::new();
            text.append("Couldn't create a new channel: ");
            text.append(error.as_str());
            text.append(" :/");
            RoomOutcome::Reply(text)
        },
    }
}

/// Where a temperature that starts at `start` ends: after an optional
/// sign come digits, at least one, and after these there may be a point
/// with further digits; then, after any whitespace, comes the letter of
/// the scale. The result is the end of the number and the place of the
/// letter, or `None` when no temperature starts at `start`.
pub open spec fn temperature_at(text: Seq<char>, start: int) -> Option<(int, int)> {
    let digits = if 0 <= start < text.len() && (text[start] == '+' || text[start] == '-') {
        start + 1
    } else {
        start
    };
    let whole = digits_end(text, digits);
    let number = if whole < text.len() && text[whole] == '.' {
        digits_end(text, whole + 1)
    } else {
        whole
    };
    let letter = spaces_end(text, number);
    if 0 <= start && digits < whole && letter < text.len() && is_scale(text[letter]) {
        Some((number, letter))
    } else {
        None
    }
}

/// Whether `c` names a scale: C for Celsius or F for Fahrenheit, in
/// either case.
pub open spec fn is_scale(c: char) -> bool {
    c == 'C' || c == 'c' || c == 'F' || c == 'f'
}

/// The least position from `from` on at which a temperature starts, or
/// the length of the text when there is none.
pub open spec fn temperature_from(text: Seq<char>, from: int) -> int
    decreases text.len() - from,
{
    if from >= text.len() {
        text.len() as int
    } else if temperature_at(text, from) is Some {
        from
    } else {
        temperature_from(text, from + 1)
    }
}

/// The first temperature that a text holds: the number as it is written,
/// and the letter of the scale.
pub open spec fn temperature_of(text: Seq<char>) -> Option<(Seq<char>, char)> {
    let start = temperature_from(text, 0);
    if 0 <= start < text.len() {
        let found = temperature_at(text, start)->0;
        Some((text.subrange(start, found.0), text[found.1]))
    } else {
        None
    }
}

/// The scale that a temperature is converted to: Fahrenheit for one in
/// Celsius, and Celsius for any other.
pub open spec fn other_scale(letter: char) -> char {
    if letter == 'C' || letter == 'c' {
        'F'
    } else {
        'C'
    }
}

/// The letter of a scale as a capital.
pub open spec fn scale_capital(letter: char) -> char {
    if letter == 'c' {
        'C'
    } else if letter == 'f' {
        'F'
    } else {
        letter
    }
}

/// The reply that gives a temperature in the other scale; the two numbers
/// come as texts.
pub open spec fn temperature_text(value: Seq<char>, letter: char, converted: Seq<char>) -> Seq<char> {
    value + seq!['°', scale_capital(letter)] + " is **"@ + converted + seq![
        '*',
        '*',
        '°',
        other_scale(letter),
        '.',
    ]
}

/// The end of the digits that start at `from`.
fn skip_digits(chars: &Vec<char>, from: usize) -> (end: usize)
    requires
        from <= chars@.len(),
    ensures
        from <= end <= chars@.len(),
        end == digits_end(chars@, from as int),
{
    let mut end: usize = from;
    while end < chars.len() && 0x30 <= (chars[end] as u32) && (chars[end] as u32) <= 0x39
        invariant
            from <= end <= chars@.len(),
            digits_end(chars@, from as int) == digits_end(chars@, end as int),
        decreases chars@.len() - end,
    {
        end = end + 1;
    }
    end
}

/// The end of the whitespace that starts at `from`.
fn skip_spaces(chars: &Vec<char>, from: usize) -> (end: usize)
    requires
        from <= chars@.len(),
    ensures
        from <= end <= chars@.len(),
        end == spaces_end(chars@, from as int),
{
    let mut end: usize = from;
    while end < chars.len() && is_space(chars[end])
        invariant
            from <= end <= chars@.len(),
            spaces_end(chars@, from as int) == spaces_end(chars@, end as int),
        decreases chars@.len() - end,
    {
        end = end + 1;
    }
    end
}

/// Tells whether a temperature starts at `start`, and where it ends.
fn match_temperature(chars: &Vec<char>, start: usize) -> (res: Option<(usize, usize)>)
    requires
        start < chars@.len(),
    ensures
        match res {
            Some((number, letter)) => temperature_at(chars@, start as int) == Some(
                (number as int, letter as int),
            ) && start < number <= letter < chars@.len(),
            None => temperature_at(chars@, start as int) is None,
        },
{
    let len = chars.len();
    let digits: usize = if chars[start] == '+' || chars[start] == '-' {
        start + 1
    } else {
        start
    };
    let whole = skip_digits(chars, digits);
    let number = if whole < len && chars[whole] == '.' {
        skip_digits(chars, whole + 1)
    } else {
        whole
    };
    let letter = skip_spaces(chars, number);
    if digits < whole && letter < chars.len() && (chars[letter] == 'C' || chars[letter] == 'c'
        || chars[letter] == 'F' || chars[letter] == 'f') {
        Some((number, letter))
    } else {
        None
    }
}

/// Finds the first temperature that a text holds.
pub fn find_temperature(text: &str) -> (res: Option<(String, char)>)
    ensures
        match res {
            Some((value, letter)) => temperature_of(text@) == Some((value@, letter)),
            None => temperature_of(text@) is None,
        },
{
    let chars = to_chars(text);
    let mut start: usize = 0;
    while start < chars.len()
        invariant
            start <= chars@.len(),
            chars@ == text@,
            temperature_from(chars@, 0) == temperature_from(chars@, start as int),
        decreases chars@.len() - start,
    {
        match match_temperature(&chars, start) {
            Some((number, letter)) => {
                let mut value = String::new();
                append_chars(&mut value, &chars, start, number);
                assert(value@ =~= chars@.subrange(start as int, number as int));
                return Some((value, chars[letter]));
            },
            None => {},
        }
        start = start + 1;
    }
    None
}

/// Writes the reply that gives a temperature in the other scale.
pub fn temperature_reply(value: &str, letter: char, converted: &str) -> (reply: String)
    ensures
        reply@ == temperature_text(value@, letter, converted@),
{
    let capital = if letter == 'c' {
        'C'
    } else if letter == 'f' {
        'F'
    } else {
        letter
    };
    let other = if letter == 'C' || letter == 'c' {
        'F'
    } else {
        'C'
    };
    let mut reply = value.to_owned();
    push_char(&mut reply, '°');
    push_char(&mut reply, capital);
    reply.append(" is **");
    reply.append(converted);
    push_char(&mut reply, '*');
    push_char(&mut reply, '*');
    push_char(&mut reply, '°');
    push_char(&mut reply, other);
    push_char(&mut reply, '.');
    assert(reply@ =~= temperature_text(value@, letter, converted@));
    reply
}

} // verus!
