//! The replies that list modules and commands and that explain a command.

use crate::command::Command;
use crate::registry::{lowercase, to_lowercase, CommandEntry, ModuleDescriptor};
use crate::sorting::{insertion_sorted, lemma_sorted_keeps, sort, sortable};
use crate::text::{append_chars, texts, to_chars};
use vstd::prelude::*;
use vstd::string::StringExecFns;

verus! {

/// The command at position `i` of a module.
pub open spec fn command_at<'a>(module: &'a ModuleDescriptor, i: int) -> Command<'a> {
    Command { module, id: module.commands@[i].id, names: &module.commands@[i].aliases }
}

/// The first `upto` commands of a module, in the order in which it declares
/// them.
pub open spec fn module_commands<'a>(module: &'a ModuleDescriptor, upto: int) -> Seq<Command<'a>> {
    Seq::new(
        if 0 <= upto <= module.commands@.len() {
            upto as nat
        } else {
            0
        },
        |i: int| command_at(module, i),
    )
}

/// The commands of the first `upto` modules, module by module.
pub open spec fn all_commands<'a>(modules: &'a Vec<ModuleDescriptor>, upto: int) -> Seq<Command<'a>>
    decreases upto,
{
    if upto <= 0 || upto > modules@.len() {
        Seq::empty()
    } else {
        all_commands(modules, upto - 1) + module_commands(
            &modules@[upto - 1],
            modules@[upto - 1].commands@.len() as int,
        )
    }
}

/// Every command of the module has a name.
pub open spec fn listable(module: &ModuleDescriptor) -> bool {
    forall|i: int| 0 <= i < module.commands@.len() ==> (#[trigger] module.commands@[i]).aliases@.len() > 0
}

/// The names of a command as they stand in a listing: the first opens a
/// line, the others follow after commas.
pub open spec fn names_text(names: Seq<Seq<char>>) -> Seq<char>
    decreases names.len(),
{
    if names.len() == 0 {
        Seq::empty()
    } else if names.len() == 1 {
        "\n- `!"@ + names[0] + "`"@
    } else {
        names_text(names.drop_last()) + ", `!"@ + names.last() + "`"@
    }
}

/// The line of a command in a listing, which names the module where the
/// listing covers several.
pub open spec fn listed_line(command: Command, with_module: bool) -> Seq<char> {
    names_text(texts(command.names@)) + (if with_module {
        " (module `"@ + command.module.name@ + "`)"@
    } else {
        Seq::empty()
    }) + ": "@ + command.description()
}

/// The lines of a listing.
pub open spec fn listed_lines(commands: Seq<Command>, with_module: bool) -> Seq<char>
    decreases commands.len(),
{
    if commands.len() == 0 {
        Seq::empty()
    } else {
        listed_lines(commands.drop_last(), with_module) + listed_line(commands.last(), with_module)
    }
}

/// Every command of a module is declared by it, and has a name where the
/// module can be listed.
pub proof fn lemma_module_commands(module: &ModuleDescriptor, upto: int)
    requires
        0 <= upto <= module.commands@.len(),
    ensures
        forall|i: int| 0 <= i < upto ==> (#[trigger] module_commands(module, upto)[i]).declared(),
        listable(module) ==> forall|i: int|
            0 <= i < upto ==> (#[trigger] module_commands(module, upto)[i]).wf(),
        !listable(module) && upto == module.commands@.len() ==> exists|i: int|
            0 <= i < upto && !(#[trigger] module_commands(module, upto)[i]).wf(),
{
    assert forall|i: int| 0 <= i < upto implies (#[trigger] module_commands(module, upto)[i]).declared() by {
        assert(module.commands@[i].id == command_at(module, i).id);
    }
    if listable(module) {
        assert forall|i: int| 0 <= i < upto implies (#[trigger] module_commands(module, upto)[i]).wf() by {
            assert(module.commands@[i].aliases@.len() > 0);
        }
    } else if upto == module.commands@.len() {
        let i = choose|i: int|
            0 <= i < module.commands@.len() && !((#[trigger] module.commands@[i]).aliases@.len() > 0);
        assert(!module_commands(module, upto)[i].wf());
    }
}

/// Adds the commands of a module to a list.
pub fn collect_commands<'a>(module: &'a ModuleDescriptor, commands: &mut Vec<Command<'a>>)
    ensures
        final(commands)@ == old(commands)@ + module_commands(module, module.commands@.len() as int),
{
    let mut i: usize = 0;
    proof {
        assert(commands@ =~= old(commands)@ + module_commands(module, 0));
    }
    while i < module.commands.len()
        invariant
            i <= module.commands@.len(),
            commands@ == old(commands)@ + module_commands(module, i as int),
        decreases module.commands@.len() - i,
    {
        let entry = &module.commands[i];
        let command = Command { module, id: entry.id, names: &entry.aliases };
        assert(command == command_at(module, i as int));
        commands.push(command);
        i = i + 1;
        assert(commands@ =~= old(commands)@ + module_commands(module, i as int));
    }
}

/// Appends the names of a command to `buf`.
fn append_names(buf: &mut String, names: &Vec<String>)
    ensures
        final(buf)@ == old(buf)@ + names_text(texts(names@)),
{
    let ghost list = texts(names@);
    let mut i: usize = 0;
    proof {
        assert(old(buf)@ + names_text(list.subrange(0, 0)) =~= old(buf)@);
    }
    while i < names.len()
        invariant
            i <= names@.len(),
            list == texts(names@),
            buf@ == old(buf)@ + names_text(list.subrange(0, i as int)),
        decreases names@.len() - i,
    {
        proof {
            let next = list.subrange(0, i + 1);
            assert(next.drop_last() =~= list.subrange(0, i as int));
            assert(next.last() == names@[i as int]@);
            if i == 0 {
                assert(next[0] == names@[0]@);
            }
        }
        if i == 0 {
            buf.append("\n- `!");
        } else {
            buf.append(", `!");
        }
        buf.append(names[i].as_str());
        buf.append("`");
        i = i + 1;
        assert(buf@ =~= old(buf)@ + names_text(list.subrange(0, i as int)));
    }
    assert(list.subrange(0, i as int) =~= list);
}

/// Appends the line of a command to `buf`.
fn append_line(buf: &mut String, command: &Command, with_module: bool)
    requires
        command.declared(),
    ensures
        final(buf)@ == old(buf)@ + listed_line(*command, with_module),
{
    append_names(buf, command.names);
    if with_module {
        buf.append(" (module `");
        buf.append(command.module.name().as_str());
        buf.append("`)");
    }
    buf.append(": ");
    buf.append(command.module.command_description(command.id).as_str());
    assert(buf@ =~= old(buf)@ + listed_line(*command, with_module));
}

/// Appends the lines of a listing to `buf`.
pub fn append_listing(buf: &mut String, commands: &Vec<Command>, with_module: bool)
    requires
        forall|i: int| 0 <= i < commands@.len() ==> (#[trigger] commands@[i]).declared(),
    ensures
        final(buf)@ == old(buf)@ + listed_lines(commands@, with_module),
{
    let mut i: usize = 0;
    proof {
        assert(old(buf)@ + listed_lines(commands@.subrange(0, 0), with_module) =~= old(buf)@);
    }
    while i < commands.len()
        invariant
            i <= commands@.len(),
            forall|k: int| 0 <= k < commands@.len() ==> (#[trigger] commands@[k]).declared(),
            buf@ == old(buf)@ + listed_lines(commands@.subrange(0, i as int), with_module),
        decreases commands@.len() - i,
    {
        proof {
            let next = commands@.subrange(0, i + 1);
            assert(next.drop_last() =~= commands@.subrange(0, i as int));
            assert(next.last() == commands@[i as int]);
        }
        append_line(buf, &commands[i], with_module);
        i = i + 1;
        assert(buf@ =~= old(buf)@ + listed_lines(commands@.subrange(0, i as int), with_module));
    }
    assert(commands@.subrange(0, i as int) =~= commands@);
}

/// The lines that name the first `upto` modules with their descriptions.
pub open spec fn module_lines(modules: Seq<ModuleDescriptor>, upto: int) -> Seq<char>
    decreases upto,
{
    if upto <= 0 || upto > modules.len() {
        Seq::empty()
    } else {
        module_lines(modules, upto - 1) + "\n- `"@ + modules[upto - 1].name@ + "`: "@
            + modules[upto - 1].description@
    }
}

/// The reply that lists the modules.
pub open spec fn overview_text(modules: Seq<ModuleDescriptor>) -> Seq<char> {
    "List of available modules:"@ + module_lines(modules, modules.len() as int)
}

/// The reply that describes a module and lists its commands, sorted.
pub open spec fn module_text(module: &ModuleDescriptor) -> Seq<char> {
    "`"@ + module.name@ + "`: "@ + module.description@ + (if module.commands@.len() == 0 {
        "\nThere are no commands defined by this module."@
    } else {
        "\nCommand list:"@ + listed_lines(
            insertion_sorted(module_commands(module, module.commands@.len() as int)),
            false,
        )
    })
}

/// The reply to a request for a module that does not exist.
pub open spec fn no_module_text(name: Seq<char>) -> Seq<char> {
    "There is no module called `"@ + name + "`."@
}

/// The reply that lists the commands of all modules, sorted.
pub open spec fn commands_text(modules: &Vec<ModuleDescriptor>) -> Seq<char> {
    "Available commands:"@ + listed_lines(
        insertion_sorted(all_commands(modules, modules@.len() as int)),
        true,
    )
}

/// The least position from `from` on of a module whose name is `lowered`
/// when written in lower case, or the number of modules.
pub open spec fn module_named_from(modules: Seq<ModuleDescriptor>, lowered: Seq<char>, from: int) -> int
    decreases modules.len() - from,
{
    if from >= modules.len() {
        modules.len() as int
    } else if lowercase(modules[from].name@) == lowered {
        from
    } else {
        module_named_from(modules, lowered, from + 1)
    }
}

/// Whether a module can be listed: its commands can be put in order,
/// for which each of two or more commands needs a name.
pub open spec fn can_list(module: &ModuleDescriptor) -> bool {
    module.commands@.len() < 2 || listable(module)
}

/// The reply to a request about modules: without a name, the list of the
/// modules; with the name of a module, whatever the case of its letters,
/// what that module offers; with any other name, that there is no such
/// module. There is no reply where the module that is asked for cannot be
/// listed; what the other modules hold does not matter.
pub open spec fn modules_reply_text(modules: &Vec<ModuleDescriptor>, text: Seq<char>) -> Option<
    Seq<char>,
> {
    if text.len() == 0 {
        Some(overview_text(modules@))
    } else {
        let at = module_named_from(modules@, lowercase(text), 0);
        if at < modules@.len() {
            if can_list(&modules@[at]) {
                Some(module_text(&modules@[at]))
            } else {
                None
            }
        } else {
            Some(no_module_text(text))
        }
    }
}

/// The reply that lists the commands of all modules, sorted. There is none
/// where the commands cannot be put in order, for which each of two or
/// more commands needs a name.
pub open spec fn commands_reply_text(modules: &Vec<ModuleDescriptor>) -> Option<Seq<char>> {
    if sortable(all_commands(modules, modules@.len() as int)) {
        Some(commands_text(modules))
    } else {
        None
    }
}

/// Writes the reply that lists the modules.
pub fn modules_overview(modules: &Vec<ModuleDescriptor>) -> (reply: String)
    ensures
        reply@ == overview_text(modules@),
{
    let mut buf = String::new();
    buf.append("List of available modules:");
    let ghost head = buf@;
    let mut i: usize = 0;
    proof {
        assert(head + module_lines(modules@, 0) =~= head);
    }
    while i < modules.len()
        invariant
            i <= modules@.len(),
            buf@ == head + module_lines(modules@, i as int),
        decreases modules@.len() - i,
    {
        buf.append("\n- `");
        buf.append(modules[i].name().as_str());
        buf.append("`: ");
        buf.append(modules[i].description().as_str());
        i = i + 1;
        assert(buf@ =~= head + module_lines(modules@, i as int));
    }
    buf
}

/// Tells whether every command of a module has a name.
pub fn is_listable(module: &ModuleDescriptor) -> (b: bool)
    ensures
        b == listable(module),
{
    let mut i: usize = 0;
    while i < module.commands.len()
        invariant
            i <= module.commands@.len(),
            forall|k: int| 0 <= k < i ==> (#[trigger] module.commands@[k]).aliases@.len() > 0,
        decreases module.commands@.len() - i,
    {
        if module.commands[i].aliases.len() == 0 {
            return false;
        }
        i = i + 1;
    }
    true
}

/// Tells whether every command of a list has a name.
pub fn all_named(commands: &Vec<Command>) -> (b: bool)
    ensures
        b == forall|i: int| 0 <= i < commands@.len() ==> (#[trigger] commands@[i]).names@.len() > 0,
{
    let mut i: usize = 0;
    while i < commands.len()
        invariant
            i <= commands@.len(),
            forall|k: int| 0 <= k < i ==> (#[trigger] commands@[k]).names@.len() > 0,
        decreases commands@.len() - i,
    {
        if commands[i].names.len() == 0 {
            return false;
        }
        i = i + 1;
    }
    true
}

/// Writes the reply that describes a module and lists its commands, which
/// must be a module that can be listed.
pub fn module_listing(module: &ModuleDescriptor) -> (reply: String)
    requires
        can_list(module),
    ensures
        reply@ == module_text(module),
{
    let mut buf = String::new();
    buf.append("`");
    buf.append(module.name().as_str());
    buf.append("`: ");
    buf.append(module.description().as_str());
    let mut commands: Vec<Command> = Vec::new();
    collect_commands(module, &mut commands);
    let ghost declared = module_commands(module, module.commands@.len() as int);
    assert(commands@ =~= declared);
    if commands.len() == 0 {
        buf.append("\nThere are no commands defined by this module.");
    } else {
        proof {
            lemma_module_commands(module, module.commands@.len() as int);
            lemma_sorted_keeps(declared, |c: Command| c.declared());
        }
        sort(&mut commands);
        buf.append("\nCommand list:");
        append_listing(&mut buf, &commands, false);
    }
    assert(buf@ =~= module_text(module));
    buf
}

/// Finds the module with the name `text`, whatever the case of the letters.
pub fn module_index(modules: &Vec<ModuleDescriptor>, text: &str) -> (res: Option<usize>)
    ensures
        match res {
            Some(at) => at < modules@.len() && at == module_named_from(
                modules@,
                lowercase(text@),
                0,
            ),
            None => module_named_from(modules@, lowercase(text@), 0) == modules@.len(),
        },
{
    let lowered = to_lowercase(text);
    let mut i: usize = 0;
    while i < modules.len()
        invariant
            i <= modules@.len(),
            lowered@ == lowercase(text@),
            module_named_from(modules@, lowered@, 0) == module_named_from(
                modules@,
                lowered@,
                i as int,
            ),
        decreases modules@.len() - i,
    {
        let name = to_lowercase(modules[i].name().as_str());
        if name == lowered {
            return Some(i);
        }
        i = i + 1;
    }
    None
}

/// Writes the reply to a request about modules: the list of the modules,
/// or what the module with the given name offers. There is no reply where
/// that module cannot be listed.
pub fn handle_modules(modules: &Vec<ModuleDescriptor>, text: &str) -> (reply: Option<String>)
    ensures
        match reply {
            Some(reply) => modules_reply_text(modules, text@) == Some(reply@),
            None => modules_reply_text(modules, text@) is None,
        },
{
    if text.is_empty() {
        return Some(modules_overview(modules));
    }
    match module_index(modules, text) {
        Some(at) => {
            let module = &modules[at];
            if module.commands.len() < 2 || is_listable(module) {
                Some(module_listing(module))
            } else {
                None
            }
        },
        None => {
            let mut buf = String::new();
            buf.append("There is no module called `");
            buf.append(text);
            buf.append("`.");
            Some(buf)
        },
    }
}

/// All commands of the first `upto` modules are declared by their modules.
pub proof fn lemma_all_commands(modules: &Vec<ModuleDescriptor>, upto: int)
    requires
        0 <= upto <= modules@.len(),
    ensures
        forall|i: int|
            0 <= i < all_commands(modules, upto).len() ==> (#[trigger] all_commands(
                modules,
                upto,
            )[i]).declared(),
    decreases upto,
{
    if upto > 0 {
        lemma_all_commands(modules, upto - 1);
        let module = &modules@[upto - 1];
        let before = all_commands(modules, upto - 1);
        let added = module_commands(module, module.commands@.len() as int);
        lemma_module_commands(module, module.commands@.len() as int);
        assert forall|i: int| 0 <= i < all_commands(modules, upto).len() implies (
        #[trigger] all_commands(modules, upto)[i]).declared() by {
            if i < before.len() {
                assert(all_commands(modules, upto)[i] == before[i]);
            } else {
                assert(all_commands(modules, upto)[i] == added[i - before.len()]);
            }
        }
    }
}

/// Writes the reply that lists the commands of all modules. There is no
/// reply where the commands cannot be put in order.
pub fn handle_commands(modules: &Vec<ModuleDescriptor>) -> (reply: Option<String>)
    ensures
        match reply {
            Some(reply) => commands_reply_text(modules) == Some(reply@),
            None => commands_reply_text(modules) is None,
        },
{
    let mut commands: Vec<Command> = Vec::new();
    let mut i: usize = 0;
    while i < modules.len()
        invariant
            i <= modules@.len(),
            commands@ == all_commands(modules, i as int),
        decreases modules@.len() - i,
    {
        collect_commands(&modules[i], &mut commands);
        i = i + 1;
    }
    let ghost all = commands@;
    proof {
        lemma_all_commands(modules, modules@.len() as int);
    }
    if commands.len() >= 2 && !all_named(&commands) {
        return None;
    }
    proof {
        lemma_sorted_keeps(all, |c: Command| c.declared());
    }
    sort(&mut commands);
    let mut buf = String::new();
    buf.append("Available commands:");
    append_listing(&mut buf, &commands, true);
    Some(buf)
}

/// The names of a command other than `name`, each after a comma.
pub open spec fn other_names_text(names: Seq<Seq<char>>, name: Seq<char>) -> Seq<char>
    decreases names.len(),
{
    if names.len() == 0 {
        Seq::empty()
    } else if names.last() == name {
        other_names_text(names.drop_last(), name)
    } else {
        other_names_text(names.drop_last(), name) + ", `!"@ + names.last() + "`"@
    }
}

/// What is said of a command that was asked for by `name`: that name, its
/// other names, its description, and its help text.
pub open spec fn entry_help(entry: CommandEntry, name: Seq<char>) -> Seq<char> {
    "`!"@ + name + "`"@ + other_names_text(texts(entry.aliases@), name) + ": "@
        + entry.description@ + "\n"@ + entry.help@
}

/// What is said of the commands with the name `name` among the first
/// `upto` commands, in their order.
pub open spec fn entries_help(entries: Seq<CommandEntry>, name: Seq<char>, upto: int) -> Seq<Seq<char>>
    decreases upto,
{
    if upto <= 0 || upto > entries.len() {
        Seq::empty()
    } else if entries[upto - 1].has_alias(name) {
        entries_help(entries, name, upto - 1).push(entry_help(entries[upto - 1], name))
    } else {
        entries_help(entries, name, upto - 1)
    }
}

/// What is said of the commands with the name `name` in the first `upto`
/// modules, module by module.
pub open spec fn modules_help(modules: Seq<ModuleDescriptor>, name: Seq<char>, upto: int) -> Seq<
    Seq<char>,
>
    decreases upto,
{
    if upto <= 0 || upto > modules.len() {
        Seq::empty()
    } else {
        modules_help(modules, name, upto - 1) + entries_help(
            modules[upto - 1].commands@,
            name,
            modules[upto - 1].commands@.len() as int,
        )
    }
}

/// Texts with an empty line between one and the next.
pub open spec fn paragraphs(blocks: Seq<Seq<char>>) -> Seq<char>
    decreases blocks.len(),
{
    if blocks.len() == 0 {
        Seq::empty()
    } else if blocks.len() == 1 {
        blocks[0]
    } else {
        paragraphs(blocks.drop_last()) + "\n\n"@ + blocks.last()
    }
}

/// The reply to a request for help on the command `name`, which is in
/// lower case.
pub open spec fn help_text(modules: Seq<ModuleDescriptor>, name: Seq<char>) -> Seq<char> {
    let blocks = modules_help(modules, name, modules.len() as int);
    if blocks.len() == 0 {
        "Could not find the `!"@ + name + "` command in any of the modules!"@
    } else {
        paragraphs(blocks)
    }
}

/// What the bot says of itself.
pub open spec fn about_text(version: Seq<char>) -> Seq<char> {
    "Bot version "@ + version
        + " using **discord-rs**.\n`!mods` - list modules!\n`!mod <name>` - list commands of a module!\n`!help <command>` - help for a command!\n\nOr simply:\n`!commands` - list all commands!"@
}

/// A name without the command prefix, where it has one.
pub open spec fn unprefixed(text: Seq<char>) -> Seq<char> {
    if text.len() > 0 && text[0] == '!' {
        text.subrange(1, text.len() as int)
    } else {
        text
    }
}

/// The reply to a request for help: without a name, what the bot says of
/// itself; with a name, with or without the command prefix and whatever
/// the case of its letters, what is said of the commands of that name.
pub open spec fn help_reply_text(modules: Seq<ModuleDescriptor>, text: Seq<char>, version: Seq<char>) -> Seq<
    char,
> {
    let name = unprefixed(text);
    if name.len() == 0 {
        about_text(version)
    } else {
        help_text(modules, lowercase(name))
    }
}

/// Appends the names of a command other than `name` to `buf`.
fn append_other_names(buf: &mut String, names: &Vec<String>, name: &String)
    ensures
        final(buf)@ == old(buf)@ + other_names_text(texts(names@), name@),
{
    let ghost list = texts(names@);
    let mut i: usize = 0;
    proof {
        assert(old(buf)@ + other_names_text(list.subrange(0, 0), name@) =~= old(buf)@);
    }
    while i < names.len()
        invariant
            i <= names@.len(),
            list == texts(names@),
            buf@ == old(buf)@ + other_names_text(list.subrange(0, i as int), name@),
        decreases names@.len() - i,
    {
        proof {
            let next = list.subrange(0, i + 1);
            assert(next.drop_last() =~= list.subrange(0, i as int));
            assert(next.last() == names@[i as int]@);
        }
        if names[i] != *name {
            buf.append(", `!");
            buf.append(names[i].as_str());
            buf.append("`");
        }
        i = i + 1;
        assert(buf@ =~= old(buf)@ + other_names_text(list.subrange(0, i as int), name@));
    }
    assert(list.subrange(0, i as int) =~= list);
}

/// Writes what is said of a command that was asked for by `name`.
fn entry_help_text(entry: &CommandEntry, name: &String) -> (block: String)
    ensures
        block@ == entry_help(*entry, name@),
{
    let mut buf = String::new();
    buf.append("`!");
    buf.append(name.as_str());
    buf.append("`");
    append_other_names(&mut buf, &entry.aliases, name);
    buf.append(": ");
    buf.append(entry.description.as_str());
    buf.append("\n");
    buf.append(entry.help.as_str());
    assert(buf@ =~= entry_help(*entry, name@));
    buf
}

/// Writes the reply to a request for help on the command `name`, which is
/// in lower case.
#[verifier::rlimit(40)]
pub fn help_reply(modules: &Vec<ModuleDescriptor>, name: &String) -> (reply: String)
    ensures
        reply@ == help_text(modules@, name@),
{
    let mut buf = String::new();
    let ghost mut blocks: Seq<Seq<char>> = Seq::empty();
    let mut found: bool = false;
    let mut i: usize = 0;
    while i < modules.len()
        invariant
            i <= modules@.len(),
            blocks == modules_help(modules@, name@, i as int),
            found == (blocks.len() > 0),
            buf@ == paragraphs(blocks),
        decreases modules@.len() - i,
    {
        let entries = &modules[i].commands;
        let ghost before = blocks;
        let mut k: usize = 0;
        proof {
            assert(before + entries_help(entries@, name@, 0) =~= before);
        }
        while k < entries.len()
            invariant
                k <= entries@.len(),
                blocks == before + entries_help(entries@, name@, k as int),
                found == (blocks.len() > 0),
                buf@ == paragraphs(blocks),
            decreases entries@.len() - k,
        {
            if entries[k].matches(name) {
                let block = entry_help_text(&entries[k], name);
                let ghost held = blocks;
                if found {
                    buf.append("\n\n");
                }
                buf.append(block.as_str());
                found = true;
                proof {
                    blocks = held.push(block@);
                    assert(blocks.drop_last() =~= held);
                    assert(blocks =~= before + entries_help(entries@, name@, k + 1));
                    assert(buf@ =~= paragraphs(blocks));
                }
            }
            k = k + 1;
        }
        i = i + 1;
    }
    if !found {
        let mut reply = String::new();
        reply.append("Could not find the `!");
        reply.append(name.as_str());
        reply.append("` command in any of the modules!");
        return reply;
    }
    buf
}

/// Writes what the bot says of itself.
pub fn about(version: &str) -> (reply: String)
    ensures
        reply@ == about_text(version@),
{
    let mut buf = String::new();
    buf.append("Bot version ");
    buf.append(version);
    buf.append(
        " using **discord-rs**.\n`!mods` - list modules!\n`!mod <name>` - list commands of a module!\n`!help <command>` - help for a command!\n\nOr simply:\n`!commands` - list all commands!",
    );
    buf
}

/// Writes the reply of the help command: what the bot says of itself, or
/// what is said of the commands with the name that `text` gives. (Finding
/// the module that a command of a message goes to is not done here but by
/// `Registry::route_command`.)
pub fn handle_command(modules: &Vec<ModuleDescriptor>, text: &str, version: &str) -> (reply: String)
    ensures
        reply@ == help_reply_text(modules@, text@, version@),
{
    let chars = to_chars(text);
    let start: usize = if chars.len() > 0 && chars[0] == '!' {
        1
    } else {
        0
    };
    let mut name = String::new();
    append_chars(&mut name, &chars, start, chars.len());
    assert(name@ =~= unprefixed(text@));
    if name.as_str().is_empty() {
        return about(version);
    }
    let lowered = to_lowercase(name.as_str());
    help_reply(modules, &lowered)
}

} // verus!
