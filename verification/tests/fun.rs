use regex::Regex;
use yalter_bot::fun::{
    find_temperature, frakturize, handle_info, handle_pick, handle_roll, handle_room,
    make_fullwidth, make_smallcaps, mention, pick_options, pick_reply, quote, restyle, roll_limit,
    roll_reply, room_name, room_outcome, room_overwrites, server_info, temperature_reply, Created,
    Overwrite, OverwriteTarget, RoomOutcome, RoomPlan, Style, MANAGE_CHANNELS, MANAGE_ROLES,
    ROOM_ALLOW_PERMS, ROOM_DENY_PERMS, VOICE_CONNECT, VOICE_SPEAK,
};
use yalter_bot::mirror::ChannelRef;
use yalter_bot::model::{Group, Message, PrivateChannel, PublicChannel, Role, Server, User};

fn samples() -> Vec<String> {
    let pieces = [
        "", " ", "\n", "\t", "0", "5", "12", "007", "+", "-", ".", "C", "c", "F", "f", "x", "a b",
        "\u{00A0}", "\u{3000}", "٣", "18446744073709551615", "18446744073709551616", "é", "👍",
        ";", "!", "5.", ".5", "-40", "+3.25",
    ];
    let mut list: Vec<String> = pieces.iter().map(|p| p.to_string()).collect();
    for a in pieces {
        for b in pieces {
            list.push(format!("{}{}", a, b));
            for c in ["", " ", "C", "1", ".", "\n", "x"] {
                list.push(format!("{}{}{}", a, c, b));
                list.push(format!("{}{}{}", c, a, b));
            }
        }
    }
    list
}

#[test]
fn fraktur_letters() {
    assert_eq!('𝔞', frakturize('a'));
    assert_eq!('\u{1D537}', frakturize('z'));
    assert_eq!('𝔄', frakturize('A'));
    assert_eq!('\u{1D505}', frakturize('B'));
    assert_eq!('\u{1D56E}', frakturize('C'));
    assert_eq!('\u{1D573}', frakturize('H'));
    assert_eq!('\u{1D574}', frakturize('I'));
    assert_eq!('\u{1D57D}', frakturize('R'));
    assert_eq!('\u{1D585}', frakturize('Z'));
    assert_eq!('\u{1D51C}', frakturize('Y'));
    for c in ['1', ' ', '!', 'é', '`', '{', '@', '[', '𝔞'] {
        assert_eq!(c, frakturize(c));
    }
}

#[test]
fn fullwidth_characters() {
    assert_eq!('！', make_fullwidth('!'));
    assert_eq!('\u{FF5E}', make_fullwidth('~'));
    assert_eq!('Ａ', make_fullwidth('A'));
    assert_eq!('ｚ', make_fullwidth('z'));
    assert_eq!('\u{3000}', make_fullwidth(' '));
    for c in ['\n', '\u{7F}', 'é', '！', '\u{1F}'] {
        assert_eq!(c, make_fullwidth(c));
    }
}

#[test]
fn small_capitals() {
    let large = "ABCDEFGHIJKLMNOPRSTUVWYZÆŒÐƷƎŁƆШГΛПРΨΩЛ";
    let smallcaps = "ᴀʙᴄᴅᴇꜰɢʜɪᴊᴋʟᴍɴᴏᴘʀꜱᴛᴜᴠᴡʏᴢᴁɶᴆᴣⱻᴌᴐꟺᴦᴧᴨᴘᴪꭥл";
    assert_eq!(large.chars().count(), smallcaps.chars().count());
    for (from, to) in large.chars().zip(smallcaps.chars()) {
        assert_eq!(to, make_smallcaps(from));
    }
    for c in ['Q', 'X', 'a', ' ', 'ᴀ', '1'] {
        assert_eq!(c, make_smallcaps(c));
    }
}

#[test]
fn texts_are_restyled_character_by_character() {
    assert_eq!("𝕳𝔢𝔩𝔩𝔬, 𝔚𝔬𝔯𝔩𝔡 1!", restyle("Hello, World 1!", Style::Fraktur));
    assert_eq!("Ｈｉ　ｔｈｅｒｅ！", restyle("Hi there!", Style::Fullwidth));
    assert_eq!("ʜᴇʟʟᴏ Qᴜɪᴢ a", restyle("HELLO QUIZ a", Style::Smallcaps));
    assert_eq!("", restyle("", Style::Fraktur));
}

#[test]
fn mention_of_a_user() {
    assert_eq!("<@1234>", mention(1234));
    assert_eq!("<@0>", mention(0));
}

#[test]
fn roll_limits() {
    assert_eq!(100, roll_limit(""));
    assert_eq!(6, roll_limit("6"));
    assert_eq!(20, roll_limit("  20 sided"));
    assert_eq!(100, roll_limit("0"));
    assert_eq!(100, roll_limit("000"));
    assert_eq!(7, roll_limit("007"));
    assert_eq!(100, roll_limit("12abc"));
    assert_eq!(100, roll_limit("abc 12"));
    assert_eq!(1, roll_limit("1 2"));
    assert_eq!(5, roll_limit("5\n"));
    assert_eq!(9, roll_limit(" \t\u{00A0}9\u{3000}"));
    assert_eq!(u64::MAX, roll_limit("18446744073709551615"));
    assert_eq!(100, roll_limit("18446744073709551616"));
    assert_eq!(100, roll_limit("99999999999999999999999999"));
    assert_eq!(100, roll_limit("-5"));
    assert_eq!(100, roll_limit("٣"));
}

#[test]
fn roll_limit_agrees_with_the_pattern() {
    let pattern = Regex::new(r"\s*(([0-9]+)(\s|$))?.*").unwrap();
    for text in samples() {
        let caps = pattern.captures(&text).unwrap();
        let expected = caps
            .get(2)
            .and_then(|x| x.as_str().parse::<u64>().ok())
            .map(|x| if x == 0 { 100 } else { x })
            .unwrap_or(100);
        assert_eq!(expected, roll_limit(&text), "{:?}", text);
    }
}

#[test]
fn roll_stays_below_the_limit() {
    assert_eq!("<@7> rolled **41**!", roll_reply(7, 41));
    let mut seen = [false; 3];
    for _ in 0..200 {
        let reply = handle_roll(7, "3");
        let number: u64 = reply
            .strip_prefix("<@7> rolled **")
            .and_then(|r| r.strip_suffix("**!"))
            .unwrap()
            .parse()
            .unwrap();
        assert!(number < 3);
        seen[number as usize] = true;
    }
    assert_eq!([true; 3], seen);
    assert_eq!("<@7> rolled **0**!", handle_roll(7, "1"));
    for _ in 0..50 {
        let reply = handle_roll(1, "nothing");
        let number: u64 = reply
            .strip_prefix("<@1> rolled **")
            .and_then(|r| r.strip_suffix("**!"))
            .unwrap()
            .parse()
            .unwrap();
        assert!(number < 100);
    }
}

#[test]
fn options_of_a_pick() {
    let list = |text: &str| pick_options(text);
    assert_eq!(vec!["a", "b", "c"], list("a;b;;c;"));
    assert_eq!(vec![" a ", "b c"], list(" a ;b c"));
    assert!(list("").is_empty());
    assert!(list(";;;").is_empty());
    assert_eq!(vec!["one"], list("one"));
    assert_eq!(vec!["é👍", "\n"], list(";é👍;\n"));
    for text in samples() {
        let expected: Vec<&str> = text.split(';').filter(|x| !x.is_empty()).collect();
        assert_eq!(expected, pick_options(&text), "{:?}", text);
    }
}

#[test]
fn pick_names_one_of_the_options() {
    assert_eq!("<@3>: I pick tea!", pick_reply(3, "tea"));
    assert_eq!("HELP", handle_pick(3, "", "HELP"));
    assert_eq!("HELP", handle_pick(3, "only one;", "HELP"));
    let mut seen = std::collections::BTreeSet::new();
    for _ in 0..200 {
        let reply = handle_pick(3, "tea;coffee;;water", "HELP");
        let option = reply
            .strip_prefix("<@3>: I pick ")
            .and_then(|r| r.strip_suffix("!"))
            .unwrap()
            .to_string();
        assert!(["tea", "coffee", "water"].contains(&option.as_str()), "{}", reply);
        seen.insert(option);
    }
    assert_eq!(3, seen.len());
}

fn info_server(roles: Vec<Role>, icon: Option<&str>) -> Server {
    Server {
        id: 11,
        name: "S".to_string(),
        owner_id: 22,
        member_count: 33,
        icon: icon.map(|i| i.to_string()),
        roles,
        channels: vec![PublicChannel { id: 44, server_id: 11, name: "c".to_string() }],
    }
}

#[test]
fn server_information() {
    let server = info_server(
        vec![
            Role { id: 11, name: "@everyone".to_string() },
            Role { id: 55, name: "it's".to_string() },
        ],
        Some("abcdef"),
    );
    assert_eq!(
        "```Server ID: 11,\nOwner ID: 22,\nMember count: 33,\nIcon: abcdef,\nRoles:\n- 11 '@everyone'\n- 55 'it's'\n\nChannel ID: 44```",
        server_info(&server, &server.channels[0])
    );
    let bare = info_server(vec![], None);
    assert_eq!(
        "```Server ID: 11,\nOwner ID: 22,\nMember count: 33,\nIcon: N/A,\nRoles: N/A\n\nChannel ID: 44```",
        server_info(&bare, &bare.channels[0])
    );
    assert_eq!(
        server_info(&bare, &bare.channels[0]),
        handle_info(&Some(ChannelRef::Public(&bare, &bare.channels[0])), "unused")
    );
}

#[test]
fn information_outside_a_server() {
    let private = PrivateChannel { id: 1, recipient: User { id: 2, name: "r".to_string() } };
    let group = Group { id: 3, name: "g".to_string() };
    assert_eq!("```DETAILS```", handle_info(&Some(ChannelRef::Private(&private)), "DETAILS"));
    assert_eq!("```{\n}```", handle_info(&Some(ChannelRef::Group(&group)), "{\n}"));
    assert_eq!(
        "Huh, I couldn't get this channel's info for some reason. Try again I guess?",
        handle_info(&None, "DETAILS")
    );
}

#[test]
fn quotes_are_cut_at_the_message_limit() {
    assert_eq!("<@5> said: hello", quote(5, "hello"));
    let long = "é".repeat(3000);
    let reply = quote(5, &long);
    assert_eq!(2000, reply.chars().count());
    assert_eq!(format!("<@5> said: {}", "é".repeat(1989)), reply);
    let exact = "x".repeat(1989);
    assert_eq!(format!("<@5> said: {}", exact), quote(5, &exact));
    assert_eq!(format!("<@5> said: {}", exact), quote(5, &"x".repeat(1990)));
    assert_eq!(format!("{:.2000}", format!("<@5> said: {}", long)), reply);
}

fn room_message(mentions: Vec<u64>, roles: Vec<u64>) -> Message {
    Message {
        id: 1,
        channel_id: 44,
        author: User { id: 9, name: "author".to_string() },
        content: "!room".to_string(),
        attachments: vec![],
        mentions: mentions.into_iter().map(|id| User { id, name: String::new() }).collect(),
        mention_roles: roles,
    }
}

#[test]
fn room_permissions() {
    assert_eq!(1 << 20, VOICE_CONNECT);
    assert_eq!(1 << 21, VOICE_SPEAK);
    assert_eq!(1 << 4, MANAGE_CHANNELS);
    assert_eq!(1 << 28, MANAGE_ROLES);
    assert_eq!(VOICE_CONNECT | VOICE_SPEAK | MANAGE_CHANNELS | MANAGE_ROLES, ROOM_ALLOW_PERMS);
    assert_eq!(VOICE_CONNECT, ROOM_DENY_PERMS);
}

#[test]
fn room_is_made_for_the_mentioned() {
    let server = info_server(vec![], None);
    let found = Some(ChannelRef::Public(&server, &server.channels[0]));
    let message = room_message(vec![100, 101], vec![200]);
    let expected = vec![
        Overwrite { target: OverwriteTarget::Role(11), allow: 0, deny: ROOM_DENY_PERMS },
        Overwrite { target: OverwriteTarget::Member(9), allow: ROOM_ALLOW_PERMS, deny: 0 },
        Overwrite { target: OverwriteTarget::Member(100), allow: ROOM_ALLOW_PERMS, deny: 0 },
        Overwrite { target: OverwriteTarget::Member(101), allow: ROOM_ALLOW_PERMS, deny: 0 },
        Overwrite { target: OverwriteTarget::Role(200), allow: ROOM_ALLOW_PERMS, deny: 0 },
    ];
    assert_eq!(expected, room_overwrites(11, &message));
    let mut names = std::collections::BTreeSet::new();
    for _ in 0..8 {
        match handle_room(&found, &message, "HELP") {
            RoomPlan::Create { server_id, name, overwrites } => {
                assert_eq!(11, server_id);
                assert_eq!(expected, overwrites);
                let number = name.strip_prefix("🤖 - ybot - ").unwrap();
                assert_eq!(name, format!("🤖 - ybot - {:x}", u64::from_str_radix(number, 16).unwrap()));
                names.insert(name);
            }
            other => panic!("{:?}", other),
        }
    }
    assert!(names.len() > 1);
    assert_eq!("🤖 - ybot - ff", room_name(255));
    assert_eq!("🤖 - ybot - 0", room_name(0));
    match handle_room(&found, &room_message(vec![], vec![200]), "HELP") {
        RoomPlan::Create { overwrites, .. } => assert_eq!(3, overwrites.len()),
        other => panic!("{:?}", other),
    }
}

#[test]
fn room_is_refused_without_mentions_or_outside_a_server() {
    let server = info_server(vec![], None);
    let found = Some(ChannelRef::Public(&server, &server.channels[0]));
    assert_eq!(
        RoomPlan::Reply("HELP".to_string()),
        handle_room(&found, &room_message(vec![], vec![]), "HELP")
    );
    let private = PrivateChannel { id: 1, recipient: User { id: 2, name: "r".to_string() } };
    let group = Group { id: 3, name: "g".to_string() };
    let message = room_message(vec![100], vec![]);
    assert_eq!(
        RoomPlan::Reply("Well, what do you expect me to do?".to_string()),
        handle_room(&Some(ChannelRef::Private(&private)), &message, "HELP")
    );
    assert_eq!(
        RoomPlan::Reply("Well, what do you expect me to do?".to_string()),
        handle_room(&Some(ChannelRef::Group(&group)), &message, "HELP")
    );
    assert_eq!(
        RoomPlan::Reply(
            "Huh, I couldn't get this channel's info for some reason. Try again I guess?"
                .to_string()
        ),
        handle_room(&None, &message, "HELP")
    );
}

#[test]
fn room_outcomes() {
    assert_eq!(RoomOutcome::Apply(5), room_outcome(&Created::Public(5)));
    assert_eq!(
        RoomOutcome::Reply("I made a private channel?! How did I what.".to_string()),
        room_outcome(&Created::Private)
    );
    assert_eq!(
        RoomOutcome::Reply("I made a group?! How did I what.".to_string()),
        room_outcome(&Created::Group)
    );
    assert_eq!(
        RoomOutcome::Reply("Couldn't create a new channel: no rights :/".to_string()),
        room_outcome(&Created::Failed("no rights".to_string()))
    );
}

#[test]
fn temperatures_are_found() {
    let found = |text: &str| find_temperature(text);
    assert_eq!(Some(("5".to_string(), 'C')), found("5C"));
    assert_eq!(Some(("-40.5".to_string(), 'f')), found("  -40.5 f and more"));
    assert_eq!(Some(("+3.".to_string(), 'c')), found("it is +3.\n\tc"));
    assert_eq!(Some(("3".to_string(), 'F')), found("12.5 x 3F"));
    assert_eq!(Some(("-5".to_string(), 'C')), found("+-5C"));
    assert_eq!(Some(("2.".to_string(), 'C')), found("1.2.C 2C"));
    assert_eq!(None, found(""));
    assert_eq!(None, found("C"));
    assert_eq!(Some(("5".to_string(), 'C')), found(".5C"));
    assert_eq!(None, found(".C"));
    assert_eq!(None, found("5 K"));
    assert_eq!(None, found("5."));
    assert_eq!(None, found("five C"));
}

#[test]
fn temperatures_agree_with_the_pattern() {
    let pattern = Regex::new(r"\s*([+-]?[0-9]+(\.[0-9]*)?)\s*([CcFf]).*").unwrap();
    for text in samples() {
        let expected = pattern.captures(&text).map(|caps| {
            (
                caps.get(1).unwrap().as_str().to_string(),
                caps.get(3).unwrap().as_str().chars().next().unwrap(),
            )
        });
        assert_eq!(expected, find_temperature(&text), "{:?}", text);
    }
}

#[test]
fn temperature_replies() {
    assert_eq!("5.00°C is **41.00**°F.", temperature_reply("5.00", 'c', "41.00"));
    assert_eq!("5.00°C is **41.00**°F.", temperature_reply("5.00", 'C', "41.00"));
    assert_eq!("-40.00°F is **-40.00**°C.", temperature_reply("-40.00", 'f', "-40.00"));
    assert_eq!("1°F is **2**°C.", temperature_reply("1", 'F', "2"));
}
