use yalter_bot::catalog::{demos, fraktur, fun, hello, invite, modules, speedrun, wolframalpha};
use yalter_bot::hello::{emoji_list, handle_hello, hello_reply};
use yalter_bot::invite;
use yalter_bot::wolfram;

#[test]
fn greeting_text() {
    assert_eq!("Hi, <@42>! 👌", hello_reply(42, "👌"));
}

#[test]
fn greeting_ends_with_one_of_the_pictures() {
    let emojis = emoji_list();
    assert_eq!(22, emojis.len());
    assert_eq!("👌", emojis[0]);
    assert_eq!("✅", emojis[21]);
    for _ in 0..50 {
        let reply = handle_hello(7);
        let emoji = reply.strip_prefix("Hi, <@7>! ").unwrap();
        assert!(emojis.iter().any(|e| e == emoji), "{}", reply);
    }
}

#[test]
fn invite_link_needs_the_client_id() {
    assert_eq!(
        Ok("https://discordapp.com/oauth2/authorize?client_id=123&scope=bot&permissions=271707152"
            .to_string()),
        invite::invite_link(Some("123"))
    );
    assert_eq!(
        Err("Please set the YALTER_BOT_CLIENT_ID environment variable".to_string()),
        invite::invite_link(None)
    );
    assert_eq!(
        "Follow this link to invite the bot to your server: L",
        invite::handle("L")
    );
    assert_eq!("Invite", invite::new(&Ok("L".to_string())).ok().unwrap().name);
    assert_eq!(
        Some("no".to_string()),
        invite::new(&Err("no".to_string())).err()
    );
}

#[test]
fn wolfram_module_needs_the_application_id() {
    assert_eq!("Wolfram!Alpha", wolfram::new(Some("id")).ok().unwrap().name);
    assert_eq!(
        Some("Please set the YALTER_BOT_WOLFRAMALPHA_APPID environment variable".to_string()),
        wolfram::new(None).err()
    );
}

#[test]
fn modules_declare_their_commands() {
    let names = |m: &yalter_bot::registry::ModuleDescriptor| -> Vec<(u32, Vec<String>)> {
        m.commands.iter().map(|c| (c.id, c.aliases.clone())).collect()
    };
    let s = |list: &[&str]| -> Vec<String> { list.iter().map(|a| a.to_string()).collect() };
    let m = hello();
    assert_eq!(("Hello", "Provides the !hello command."), (m.name.as_str(), m.description.as_str()));
    assert_eq!(vec![(0, s(&["hello", "hi"]))], names(&m));
    assert_eq!("Prints a greeting message.", m.command_description(0));
    assert_eq!("`!hello` - Prints a greeting message.", m.command_help_message(0));

    let m = modules();
    assert_eq!(
        vec![
            (0, s(&["modules", "module", "mods", "mod"])),
            (1, s(&["commands", "cmds"])),
            (2, s(&["help", "command", "cmd"])),
        ],
        names(&m)
    );
    assert_eq!(
        "`!modules` - lists all available modules;\n`!modules <name>` - gets information about the specified module and lists its commands.",
        m.command_help_message(0)
    );
    assert_eq!("Gets information about the specified command.", m.command_description(2));

    let m = fun();
    assert_eq!("Fun", m.name);
    assert_eq!(
        vec![
            (0, s(&["fraktur"])),
            (1, s(&["temperature", "temp"])),
            (2, s(&["roll"])),
            (3, s(&["pick", "choose"])),
            (4, s(&["information", "info"])),
            (5, s(&["room"])),
            (6, s(&["aesthetic", "fullwidth"])),
            (7, s(&["smallcaps"])),
        ],
        names(&m)
    );
    assert_eq!("Prints the given text in 𝔣𝔯𝔞𝔨𝔱𝔲𝔯 (gothic math symbols).", m.command_description(0));
    assert_eq!("Converts capital letters to ꜱᴍᴀʟʟ ᴄᴀᴘɪᴛᴀʟ letters.", m.command_description(7));
    assert_eq!(
        "`!roll [high]` - Prints a random number between 0 and 99, or between 0 and high - 1, inclusive.",
        m.command_help_message(2)
    );

    let m = speedrun();
    assert_eq!(vec![(0, s(&["worldrecord", "wr"])), (1, s(&["personalbest", "pb"]))], names(&m));
    assert_eq!("Shows personal bests.", m.command_description(1));

    let m = wolframalpha();
    assert_eq!(vec![(0, s(&["wolphramalpha", "wa"]))], names(&m));
    let m = invite();
    assert_eq!(vec![(0, s(&["invite"]))], names(&m));
    let m = demos();
    assert_eq!("Demos", m.name);
    assert!(m.commands.is_empty());
    let m = fraktur();
    assert_eq!(vec![(0, s(&["fraktur"]))], names(&m));
    assert_eq!("Prints the given text in fraktur (gothic math symbols).", m.command_description(0));
}
