//! The modules that the bot comes with: what each of them declares.

use crate::listing::listable;
use crate::registry::{CommandEntry, ModuleDescriptor};
use crate::seqs::lemma_map_values_push;
use crate::text::texts;
use vstd::prelude::*;

verus! {

/// A command as plain values: the identifier, the names, the description
/// and the help text.
pub type EntryView = (u32, Seq<Seq<char>>, Seq<char>, Seq<char>);

/// A module as plain values: the name, the description and the commands.
pub type ModuleView = (Seq<char>, Seq<char>, Seq<EntryView>);

/// What a command holds, as plain values.
pub open spec fn entry_view(entry: CommandEntry) -> EntryView {
    (entry.id, texts(entry.aliases@), entry.description@, entry.help@)
}

/// What a module declares, as plain values.
pub open spec fn module_view(module: ModuleDescriptor) -> ModuleView {
    (module.name@, module.description@, module.commands@.map_values(|e: CommandEntry| entry_view(e)))
}

/// A module whose commands, as plain values, have identifiers that differ
/// and at least one name each is well formed and can be listed.
pub proof fn lemma_well_declared(module: ModuleDescriptor)
    requires
        forall|i: int, j: int|
            0 <= i < j < module_view(module).2.len() ==> (#[trigger] module_view(module).2[i]).0 != (
            #[trigger] module_view(module).2[j]).0,
        forall|i: int|
            0 <= i < module_view(module).2.len() ==> (#[trigger] module_view(module).2[i]).1.len() > 0,
    ensures
        module.wf(),
        listable(&module),
{
    let entries = module_view(module).2;
    assert forall|i: int, j: int| 0 <= i < j < module.commands@.len() implies (
    #[trigger] module.commands@[i]).id != (#[trigger] module.commands@[j]).id by {
        assert(entries[i].0 == module.commands@[i].id);
        assert(entries[j].0 == module.commands@[j].id);
    }
    assert forall|i: int| 0 <= i < module.commands@.len() implies (
    #[trigger] module.commands@[i]).aliases@.len() > 0 by {
        assert(entries[i].1 == texts(module.commands@[i].aliases@));
    }
}

/// Makes a command from its identifier, its names, its description and its
/// help text.
fn command(id: u32, names: Vec<String>, description: &str, help: &str) -> (entry: CommandEntry)
    ensures
        entry_view(entry) == (id, texts(names@), description@, help@),
{
    CommandEntry { id, aliases: names, description: description.to_owned(), help: help.to_owned() }
}

/// A list of one name.
fn one(a: &str) -> (names: Vec<String>)
    ensures
        texts(names@) == seq![a@],
{
    let mut names: Vec<String> = Vec::new();
    names.push(a.to_owned());
    assert(texts(names@) =~= seq![a@]);
    names
}

/// A list of two names.
fn two(a: &str, b: &str) -> (names: Vec<String>)
    ensures
        texts(names@) == seq![a@, b@],
{
    let mut names = one(a);
    let ghost held = names@;
    let last = b.to_owned();
    names.push(last);
    proof {
        lemma_map_values_push(held, last, |s: String| s@);
    }
    assert(texts(names@) =~= seq![a@, b@]);
    names
}

/// A list of three names.
fn three(a: &str, b: &str, c: &str) -> (names: Vec<String>)
    ensures
        texts(names@) == seq![a@, b@, c@],
{
    let mut names = two(a, b);
    let ghost held = names@;
    let last = c.to_owned();
    names.push(last);
    proof {
        lemma_map_values_push(held, last, |s: String| s@);
    }
    assert(texts(names@) =~= seq![a@, b@, c@]);
    names
}

/// A list of four names.
fn four(a: &str, b: &str, c: &str, d: &str) -> (names: Vec<String>)
    ensures
        texts(names@) == seq![a@, b@, c@, d@],
{
    let mut names = three(a, b, c);
    let ghost held = names@;
    let last = d.to_owned();
    names.push(last);
    proof {
        lemma_map_values_push(held, last, |s: String| s@);
    }
    assert(texts(names@) =~= seq![a@, b@, c@, d@]);
    names
}

/// What the module that greets declares.
pub open spec fn hello_declared() -> ModuleView {
    (
        "Hello"@,
        "Provides the !hello command."@,
        seq![
            (
                0u32,
                seq!["hello"@, "hi"@],
                "Prints a greeting message."@,
                "`!hello` - Prints a greeting message."@,
            ),
        ],
    )
}

/// The module that greets.
pub fn hello() -> (module: ModuleDescriptor)
    ensures
        module_view(module) == hello_declared(),
        module.wf(),
        listable(&module),
{
    let mut commands: Vec<CommandEntry> = Vec::new();
    commands.push(
        command(
            0,
            two("hello", "hi"),
            "Prints a greeting message.",
            "`!hello` - Prints a greeting message.",
        ),
    );
    let module = ModuleDescriptor {
        name: "Hello".to_owned(),
        description: "Provides the !hello command.".to_owned(),
        commands,
    };
    assert(module_view(module).2 =~= hello_declared().2);
    proof {
        lemma_well_declared(module);
    }
    module
}

/// What the module that lists modules and commands and explains them declares.
pub open spec fn modules_declared() -> ModuleView {
    (
        "Modules"@,
        "A module for enumerating modules and printing information about them."@,
        seq![
            (
                0u32,
                seq!["modules"@, "module"@, "mods"@, "mod"@],
                "Information about modules."@,
                "`!modules` - lists all available modules;\n`!modules <name>` - gets information about the specified module and lists its commands."@,
            ),
            (
                1u32,
                seq!["commands"@, "cmds"@],
                "Lists all available commands."@,
                "`!commands` - lists all available commands."@,
            ),
            (
                2u32,
                seq!["help"@, "command"@, "cmd"@],
                "Gets information about the specified command."@,
                "`!help <command>` - gets information about the specified command."@,
            ),
        ],
    )
}

/// The module that lists modules and commands and explains them.
pub fn modules() -> (module: ModuleDescriptor)
    ensures
        module_view(module) == modules_declared(),
        module.wf(),
        listable(&module),
{
    let mut commands: Vec<CommandEntry> = Vec::new();
    commands.push(
        command(
            0,
            four("modules", "module", "mods", "mod"),
            "Information about modules.",
            "`!modules` - lists all available modules;\n`!modules <name>` - gets information about the specified module and lists its commands.",
        ),
    );
    commands.push(
        command(
            1,
            two("commands", "cmds"),
            "Lists all available commands.",
            "`!commands` - lists all available commands.",
        ),
    );
    commands.push(
        command(
            2,
            three("help", "command", "cmd"),
            "Gets information about the specified command.",
            "`!help <command>` - gets information about the specified command.",
        ),
    );
    let module = ModuleDescriptor {
        name: "Modules".to_owned(),
        description: "A module for enumerating modules and printing information about them.".to_owned(),
        commands,
    };
    assert(module_view(module).2 =~= modules_declared().2);
    proof {
        lemma_well_declared(module);
    }
    module
}

/// What the module that holds the small commands declares.
pub open spec fn fun_declared() -> ModuleView {
    (
        "Fun"@,
        "Various random commands."@,
        seq![
            (
                0u32,
                seq!["fraktur"@],
                "Prints the given text in 𝔣𝔯𝔞𝔨𝔱𝔲𝔯 (gothic math symbols)."@,
                "`!fraktur <text>` - Prints the given text in 𝔣𝔯𝔞𝔨𝔱𝔲𝔯 (gothic math symbols). Note that there are no regular versions of letters 'C', 'H', 'I', 'R', 'Z'; those are replaced with their bold versions."@,
            ),
            (
                1u32,
                seq!["temperature"@, "temp"@],
                "Converts the temperature between Celsius and Fahrenheit."@,
                "`!temperature <number> <C or F>` - Converts the temperature into another scale. For example, `!temp 5C` outputs 41."@,
            ),
            (
                2u32,
                seq!["roll"@],
                "Prints a random number."@,
                "`!roll [high]` - Prints a random number between 0 and 99, or between 0 and high - 1, inclusive."@,
            ),
            (
                3u32,
                seq!["pick"@, "choose"@],
                "Randomly picks one of the given options."@,
                "`!pick something;something else[;third option[;...]]` - Randomly picks one of the given options."@,
            ),
            (
                4u32,
                seq!["information"@, "info"@],
                "Prints out some information about the server."@,
                "`!information` - Prints out some information about the server."@,
            ),
            (
                5u32,
                seq!["room"@],
                "Makes private voice rooms."@,
                "`!room <user or role mention(-s)>` - Makes a private voice room for you and mentioned users. The room is __NOT YET__ automatically deleted after a certain amount of time when everyone leaves it."@,
            ),
            (
                6u32,
                seq!["aesthetic"@, "fullwidth"@],
                "Prints the given text in ｆｕｌｌｗｉｄｔｈ characters."@,
                "`!aesthetic <text>` - Prints the given text in ｆｕｌｌｗｉｄｔｈ characters."@,
            ),
            (
                7u32,
                seq!["smallcaps"@],
                "Converts capital letters to ꜱᴍᴀʟʟ ᴄᴀᴘɪᴛᴀʟ letters."@,
                "`!smallcaps <text>` - Converts capital letters to ꜱᴍᴀʟʟ ᴄᴀᴘɪᴛᴀʟ letters. Note that there are no small capital versions of letters 'Q' and 'X'."@,
            ),
        ],
    )
}

/// The module that holds the small commands.
pub fn fun() -> (module: ModuleDescriptor)
    ensures
        module_view(module) == fun_declared(),
        module.wf(),
        listable(&module),
{
    let mut commands: Vec<CommandEntry> = Vec::new();
    commands.push(
        command(
            0,
            one("fraktur"),
            "Prints the given text in 𝔣𝔯𝔞𝔨𝔱𝔲𝔯 (gothic math symbols).",
            "`!fraktur <text>` - Prints the given text in 𝔣𝔯𝔞𝔨𝔱𝔲𝔯 (gothic math symbols). Note that there are no regular versions of letters 'C', 'H', 'I', 'R', 'Z'; those are replaced with their bold versions.",
        ),
    );
    commands.push(
        command(
            1,
            two("temperature", "temp"),
            "Converts the temperature between Celsius and Fahrenheit.",
            "`!temperature <number> <C or F>` - Converts the temperature into another scale. For example, `!temp 5C` outputs 41.",
        ),
    );
    commands.push(
        command(
            2,
            one("roll"),
            "Prints a random number.",
            "`!roll [high]` - Prints a random number between 0 and 99, or between 0 and high - 1, inclusive.",
        ),
    );
    commands.push(
        command(
            3,
            two("pick", "choose"),
            "Randomly picks one of the given options.",
            "`!pick something;something else[;third option[;...]]` - Randomly picks one of the given options.",
        ),
    );
    commands.push(
        command(
            4,
            two("information", "info"),
            "Prints out some information about the server.",
            "`!information` - Prints out some information about the server.",
        ),
    );
    commands.push(
        command(
            5,
            one("room"),
            "Makes private voice rooms.",
            "`!room <user or role mention(-s)>` - Makes a private voice room for you and mentioned users. The room is __NOT YET__ automatically deleted after a certain amount of time when everyone leaves it.",
        ),
    );
    commands.push(
        command(
            6,
            two("aesthetic", "fullwidth"),
            "Prints the given text in ｆｕｌｌｗｉｄｔｈ characters.",
            "`!aesthetic <text>` - Prints the given text in ｆｕｌｌｗｉｄｔｈ characters.",
        ),
    );
    commands.push(
        command(
            7,
            one("smallcaps"),
            "Converts capital letters to ꜱᴍᴀʟʟ ᴄᴀᴘɪᴛᴀʟ letters.",
            "`!smallcaps <text>` - Converts capital letters to ꜱᴍᴀʟʟ ᴄᴀᴘɪᴛᴀʟ letters. Note that there are no small capital versions of letters 'Q' and 'X'.",
        ),
    );
    let module = ModuleDescriptor {
        name: "Fun".to_owned(),
        description: "Various random commands.".to_owned(),
        commands,
    };
    assert(module_view(module).2 =~= fun_declared().2);
    proof {
        lemma_well_declared(module);
    }
    module
}

/// What the module that looks up speedrun times declares.
pub open spec fn speedrun_declared() -> ModuleView {
    (
        "Speedrun"@,
        "Various speedrun-related commands."@,
        seq![
            (
                0u32,
                seq!["worldrecord"@, "wr"@],
                "Shows the world record times."@,
                "`!wr <game>` - Shows the world record times for all categories for the given game. For example, `!wr Half-Life`."@,
            ),
            (
                1u32,
                seq!["personalbest"@, "pb"@],
                "Shows personal bests."@,
                "`!pb <player> <game>` - Shows player's personal bests in the given game. For example, `!pb YaLTeR Half-Life`."@,
            ),
        ],
    )
}

/// The module that looks up speedrun times.
pub fn speedrun() -> (module: ModuleDescriptor)
    ensures
        module_view(module) == speedrun_declared(),
        module.wf(),
        listable(&module),
{
    let mut commands: Vec<CommandEntry> = Vec::new();
    commands.push(
        command(
            0,
            two("worldrecord", "wr"),
            "Shows the world record times.",
            "`!wr <game>` - Shows the world record times for all categories for the given game. For example, `!wr Half-Life`.",
        ),
    );
    commands.push(
        command(
            1,
            two("personalbest", "pb"),
            "Shows personal bests.",
            "`!pb <player> <game>` - Shows player's personal bests in the given game. For example, `!pb YaLTeR Half-Life`.",
        ),
    );
    let module = ModuleDescriptor {
        name: "Speedrun".to_owned(),
        description: "Various speedrun-related commands.".to_owned(),
        commands,
    };
    assert(module_view(module).2 =~= speedrun_declared().2);
    proof {
        lemma_well_declared(module);
    }
    module
}

/// What the module that asks the computing service declares.
pub open spec fn wolframalpha_declared() -> ModuleView {
    (
        "Wolfram!Alpha"@,
        "A command for querying the Wolfram!Alpha service."@,
        seq![
            (
                0u32,
                seq!["wolphramalpha"@, "wa"@],
                "Queries the Wolfram!Alpha service."@,
                "`!wa <input>` - Queries Wolfram!Alpha with the given input and returns the result. For example, `!wa int sin x / x dx, 0 < x < +inf`."@,
            ),
        ],
    )
}

/// The module that asks the computing service.
pub fn wolframalpha() -> (module: ModuleDescriptor)
    ensures
        module_view(module) == wolframalpha_declared(),
        module.wf(),
        listable(&module),
{
    let mut commands: Vec<CommandEntry> = Vec::new();
    commands.push(
        command(
            0,
            two("wolphramalpha", "wa"),
            "Queries the Wolfram!Alpha service.",
            "`!wa <input>` - Queries Wolfram!Alpha with the given input and returns the result. For example, `!wa int sin x / x dx, 0 < x < +inf`.",
        ),
    );
    let module = ModuleDescriptor {
        name: "Wolfram!Alpha".to_owned(),
        description: "A command for querying the Wolfram!Alpha service.".to_owned(),
        commands,
    };
    assert(module_view(module).2 =~= wolframalpha_declared().2);
    proof {
        lemma_well_declared(module);
    }
    module
}

/// What the module that hands out the link that invites the bot declares.
pub open spec fn invite_declared() -> ModuleView {
    (
        "Invite"@,
        "Provides the !invite command."@,
        seq![
            (
                0u32,
                seq!["invite"@],
                "Sends you a PM with a link to invite the bot to your own server."@,
                "`!invite` - Get the invite link for the bot."@,
            ),
        ],
    )
}

/// The module that hands out the link that invites the bot.
pub fn invite() -> (module: ModuleDescriptor)
    ensures
        module_view(module) == invite_declared(),
        module.wf(),
        listable(&module),
{
    let mut commands: Vec<CommandEntry> = Vec::new();
    commands.push(
        command(
            0,
            one("invite"),
            "Sends you a PM with a link to invite the bot to your own server.",
            "`!invite` - Get the invite link for the bot.",
        ),
    );
    let module = ModuleDescriptor {
        name: "Invite".to_owned(),
        description: "Provides the !invite command.".to_owned(),
        commands,
    };
    assert(module_view(module).2 =~= invite_declared().2);
    proof {
        lemma_well_declared(module);
    }
    module
}

/// What the module that reports on uploaded demo files declares.
pub open spec fn demos_declared() -> ModuleView {
    (
        "Demos"@,
        "Says information about uploaded demos."@,
        Seq::empty(),
    )
}

/// The module that reports on uploaded demo files.
pub fn demos() -> (module: ModuleDescriptor)
    ensures
        module_view(module) == demos_declared(),
        module.wf(),
        listable(&module),
{
    let mut commands: Vec<CommandEntry> = Vec::new();
    let module = ModuleDescriptor {
        name: "Demos".to_owned(),
        description: "Says information about uploaded demos.".to_owned(),
        commands,
    };
    assert(module_view(module).2 =~= demos_declared().2);
    proof {
        lemma_well_declared(module);
    }
    module
}

/// What the module that writes texts in Fraktur letters declares.
pub open spec fn fraktur_declared() -> ModuleView {
    (
        "Fraktur"@,
        "Provides the !fraktur command."@,
        seq![
            (
                0u32,
                seq!["fraktur"@],
                "Prints the given text in fraktur (gothic math symbols)."@,
                "`!fraktur <text>` - Prints the given text in fraktur (gothic math symbols). Note that there are no regular versions of letters 'C', 'H', 'I', 'R', 'Z'; those are replaced with their bold versions."@,
            ),
        ],
    )
}

/// The module that writes texts in Fraktur letters.
pub fn fraktur() -> (module: ModuleDescriptor)
    ensures
        module_view(module) == fraktur_declared(),
        module.wf(),
        listable(&module),
{
    let mut commands: Vec<CommandEntry> = Vec::new();
    commands.push(
        command(
            0,
            one("fraktur"),
            "Prints the given text in fraktur (gothic math symbols).",
            "`!fraktur <text>` - Prints the given text in fraktur (gothic math symbols). Note that there are no regular versions of letters 'C', 'H', 'I', 'R', 'Z'; those are replaced with their bold versions.",
        ),
    );
    let module = ModuleDescriptor {
        name: "Fraktur".to_owned(),
        description: "Provides the !fraktur command.".to_owned(),
        commands,
    };
    assert(module_view(module).2 =~= fraktur_declared().2);
    proof {
        lemma_well_declared(module);
    }
    module
}

} // verus!
