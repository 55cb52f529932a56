use yalter_bot::registry::{
    register_all, CommandEntry, CommandRef, ModuleDescriptor, Registry,
};

fn entry(id: u32, aliases: &[&str], description: &str, help: &str) -> CommandEntry {
    CommandEntry {
        id,
        aliases: aliases.iter().map(|a| a.to_string()).collect(),
        description: description.to_string(),
        help: help.to_string(),
    }
}

fn module(name: &str, commands: Vec<CommandEntry>) -> ModuleDescriptor {
    ModuleDescriptor {
        name: name.to_string(),
        description: format!("The {} module.", name),
        commands,
    }
}

fn sample() -> Registry {
    let mut registry = Registry::new();
    registry.register(module(
        "First",
        vec![
            entry(0, &["hello", "hi"], "Greets.", "`!hello` - greets."),
            entry(7, &["roll"], "Rolls.", "`!roll` - rolls."),
        ],
    ));
    registry.register(module("Empty", vec![]));
    registry.register(module(
        "Second",
        vec![
            entry(3, &["roll", "dice"], "Rolls dice.", "`!dice` - rolls dice."),
            entry(4, &["hi"], "Waves.", "`!hi` - waves."),
        ],
    ));
    registry
}

#[test]
fn find_command_returns_module_and_id() {
    let registry = sample();
    assert_eq!(
        Some(CommandRef { module: 0, id: 0 }),
        registry.find_command(&"hello".to_string())
    );
    assert_eq!(
        Some(CommandRef { module: 2, id: 3 }),
        registry.find_command(&"dice".to_string())
    );
    assert_eq!(None, registry.find_command(&"nothing".to_string()));
    assert_eq!(None, registry.find_command(&"".to_string()));
}

#[test]
fn first_registered_module_wins_on_shared_alias() {
    let registry = sample();
    assert_eq!(
        Some(CommandRef { module: 0, id: 7 }),
        registry.find_command(&"roll".to_string())
    );
    assert_eq!(
        Some(CommandRef { module: 0, id: 0 }),
        registry.find_command(&"hi".to_string())
    );
}

#[test]
fn find_command_compares_the_name_as_it_is() {
    let registry = sample();
    assert_eq!(None, registry.find_command(&"Hello".to_string()));
}

#[test]
fn route_command_ignores_case() {
    let registry = sample();
    let invocation = registry.route_command("HeLLo", "some text ").unwrap();
    assert_eq!(0, invocation.module);
    assert_eq!(0, invocation.id);
    assert_eq!("some text ", invocation.text);
    let invocation = registry.route_command("DICE", "").unwrap();
    assert_eq!(2, invocation.module);
    assert_eq!(3, invocation.id);
    assert_eq!("", invocation.text);
}

#[test]
fn route_command_unknown_is_ignored() {
    let registry = sample();
    assert!(registry.route_command("nothing", "x").is_none());
}

#[test]
fn module_descriptor_lookups() {
    let registry = sample();
    let first = &registry.get_modules()[0];
    assert_eq!("First", first.name());
    assert_eq!("The First module.", first.description());
    assert_eq!(2, first.commands().len());
    assert_eq!("Rolls.", first.command_description(7));
    assert_eq!("`!roll` - rolls.", first.command_help_message(7));
    assert_eq!("Greets.", first.command_description(0));
    assert!(first.find_command(1).is_none());
    assert_eq!(7, first.find_command(7).unwrap().id);
    assert_eq!(Some(0), first.find_alias(&"hi".to_string()));
    assert_eq!(None, first.find_alias(&"dice".to_string()));
    assert!(first.commands()[0].matches(&"hi".to_string()));
    assert!(!first.commands()[0].matches(&"h".to_string()));
}

#[test]
fn register_all_omits_modules_that_failed() {
    let outcomes = vec![
        Ok(module("A", vec![])),
        Err("no A2".to_string()),
        Ok(module("B", vec![entry(0, &["b"], "", "")])),
        Err("no C".to_string()),
    ];
    let (registry, failures) = register_all(outcomes);
    let names: Vec<&str> = registry.get_modules().iter().map(|m| m.name.as_str()).collect();
    assert_eq!(vec!["A", "B"], names);
    assert_eq!(vec!["no A2".to_string(), "no C".to_string()], failures);
    assert_eq!(
        Some(CommandRef { module: 1, id: 0 }),
        registry.find_command(&"b".to_string())
    );
}

#[test]
fn register_all_of_nothing_is_empty() {
    let (registry, failures) = register_all(Vec::new());
    assert!(registry.get_modules().is_empty());
    assert!(failures.is_empty());
}
