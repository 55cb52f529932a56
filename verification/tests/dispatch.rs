use yalter_bot::dispatch::{describe_message, dispatch, plan_message, Notification};
use yalter_bot::mirror::StateMirror;
use yalter_bot::model::{
    Attachment, Event, Group, Message, PrivateChannel, PublicChannel, Server, Snapshot, User,
};
use yalter_bot::registry::{CommandEntry, ModuleDescriptor, Registry};

fn dispatch_user(id: u64, name: &str) -> User {
    User { id, name: name.to_string() }
}

fn dispatch_mirror() -> StateMirror {
    StateMirror::new(Snapshot {
        user: dispatch_user(99, "bot"),
        servers: vec![Server {
            id: 1,
            name: "Server".to_string(),
            owner_id: 1,
            member_count: 2,
            icon: None,
            roles: vec![],
            channels: vec![PublicChannel { id: 10, server_id: 1, name: "general".to_string() }],
        }],
        private_channels: vec![PrivateChannel { id: 30, recipient: dispatch_user(5, "friend") }],
        groups: vec![Group { id: 40, name: "The Group".to_string() }],
    })
}

fn dispatch_registry() -> Registry {
    let mut registry = Registry::new();
    for (name, alias) in [("One", "shared"), ("Two", "shared")] {
        registry.register(ModuleDescriptor {
            name: name.to_string(),
            description: String::new(),
            commands: vec![
                CommandEntry {
                    id: 4,
                    aliases: vec![alias.to_string(), name.to_lowercase()],
                    description: String::new(),
                    help: String::new(),
                },
            ],
        });
    }
    registry
}

fn message(channel_id: u64, author: User, content: &str) -> Message {
    Message {
        id: 1000,
        channel_id,
        author,
        content: content.to_string(),
        attachments: vec![],
        mentions: vec![],
        mention_roles: vec![],
    }
}

#[test]
fn own_messages_are_skipped() {
    let mut mirror = dispatch_mirror();
    let registry = dispatch_registry();
    let mut own = message(10, dispatch_user(99, "bot"), "!shared text");
    own.attachments.push(Attachment { url: "u".to_string(), filename: "f.dem".to_string() });
    let plan = dispatch(&mut mirror, &registry, Event::MessageCreate(own));
    assert!(plan.log_line.is_none());
    assert!(plan.invocation.is_none());
    assert!(plan.notification.is_none());
}

#[test]
fn command_is_routed_to_the_first_registered_module() {
    let mut mirror = dispatch_mirror();
    let registry = dispatch_registry();
    let plan = dispatch(
        &mut mirror,
        &registry,
        Event::MessageCreate(message(10, dispatch_user(5, "friend"), "!SHARED  two words ")),
    );
    let invocation = plan.invocation.unwrap();
    assert_eq!(0, invocation.module);
    assert_eq!(4, invocation.id);
    assert_eq!(" two words ", invocation.text);
    assert_eq!(
        Some("[`Server` `#general`] `friend`: `!SHARED  two words `".to_string()),
        plan.log_line
    );
    assert_eq!(None, plan.notification);

    let plan = dispatch(
        &mut mirror,
        &registry,
        Event::MessageCreate(message(10, dispatch_user(5, "friend"), "!two")),
    );
    let invocation = plan.invocation.unwrap();
    assert_eq!(1, invocation.module);
    assert_eq!("", invocation.text);
}

#[test]
fn unknown_commands_and_plain_text_are_only_logged() {
    let mut mirror = dispatch_mirror();
    let registry = dispatch_registry();
    for content in ["!unknown", "hello there", "!", "! shared"] {
        let plan = dispatch(
            &mut mirror,
            &registry,
            Event::MessageCreate(message(10, dispatch_user(5, "friend"), content)),
        );
        assert!(plan.invocation.is_none());
        assert!(plan.notification.is_none());
        assert_eq!(
            Some(format!("[`Server` `#general`] `friend`: `{}`", content)),
            plan.log_line
        );
    }
}

#[test]
fn attachments_are_announced_to_every_module() {
    let mut mirror = dispatch_mirror();
    let registry = dispatch_registry();
    let mut with_file = message(10, dispatch_user(5, "friend"), "!one");
    with_file.attachments.push(Attachment { url: "u".to_string(), filename: "f".to_string() });
    let plan = dispatch(&mut mirror, &registry, Event::MessageCreate(with_file));
    assert_eq!(Some(Notification::Attachment), plan.notification);
    assert_eq!(0, plan.invocation.unwrap().module);
}

#[test]
fn edits_and_deletions_are_announced_to_every_module() {
    let mut mirror = dispatch_mirror();
    let registry = dispatch_registry();
    let plan = dispatch(&mut mirror, &registry, Event::MessageUpdate { id: 7, channel_id: 10 });
    assert_eq!(Some(Notification::Update { channel_id: 10, message_id: 7 }), plan.notification);
    assert!(plan.log_line.is_none() && plan.invocation.is_none());
    let plan =
        dispatch(&mut mirror, &registry, Event::MessageDelete { channel_id: 11, message_id: 8 });
    assert_eq!(Some(Notification::Delete { channel_id: 11, message_id: 8 }), plan.notification);
    assert!(plan.log_line.is_none() && plan.invocation.is_none());
}

#[test]
fn other_events_only_change_the_mirror() {
    let mut mirror = dispatch_mirror();
    let registry = dispatch_registry();
    let plan = dispatch(&mut mirror, &registry, Event::Other);
    assert!(plan.log_line.is_none() && plan.invocation.is_none() && plan.notification.is_none());
    let plan = dispatch(&mut mirror, &registry, Event::ServerDelete(1));
    assert!(plan.log_line.is_none() && plan.invocation.is_none() && plan.notification.is_none());
    assert!(mirror.find_channel(10).is_none());
    let plan = dispatch(
        &mut mirror,
        &registry,
        Event::Ready(Snapshot {
            user: dispatch_user(5, "friend"),
            servers: vec![],
            private_channels: vec![],
            groups: vec![],
        }),
    );
    assert!(plan.log_line.is_none() && plan.invocation.is_none() && plan.notification.is_none());
    assert_eq!(5, mirror.current_user().id);
    let plan = plan_message(&mirror, &registry, &message(10, dispatch_user(5, "friend"), "!one"));
    assert!(plan.log_line.is_none() && plan.invocation.is_none());
}

#[test]
fn log_lines_name_the_channel() {
    let mirror = dispatch_mirror();
    assert_eq!(
        "[`Server` `#general`] `someone`: `text`",
        describe_message(&mirror, &message(10, dispatch_user(6, "someone"), "text"))
    );
    assert_eq!(
        "[Group `The Group`] `someone`: `text`",
        describe_message(&mirror, &message(40, dispatch_user(6, "someone"), "text"))
    );
    assert_eq!(
        "[Private] `friend`: `hi`",
        describe_message(&mirror, &message(30, dispatch_user(5, "friend"), "hi"))
    );
    assert_eq!(
        "[Private] To `friend`: `hello`",
        describe_message(&mirror, &message(30, dispatch_user(99, "bot"), "hello"))
    );
    assert_eq!(
        "[Unknown Channel] `someone`: ``",
        describe_message(&mirror, &message(77, dispatch_user(6, "someone"), ""))
    );
}
