//! What the bot does with one event of the gateway: folding it into the
//! mirror, and deciding which handlers are to run.

use crate::mirror::{ChannelRef, MirrorView, Resolved, StateMirror};
use crate::model::{Event, Message};
use crate::parser::{parse_command, parsed_command};
use crate::registry::{lowercase, CommandInvocation, CommandRef, Registry};
use vstd::prelude::*;
use vstd::string::StringExecFns;

verus! {

/// A notice that goes to every registered module.
#[derive(Clone, Copy, PartialEq, Eq, Structural, Debug)]
pub enum Notification {
    /// A message with attachments arrived.
    Attachment,
    /// A message was edited.
    Update { channel_id: u64, message_id: u64 },
    /// A message was deleted.
    Delete { channel_id: u64, message_id: u64 },
}

/// What is to be done for one event. Each part that is present is carried
/// out on its own, without waiting for the others.
#[derive(Debug, PartialEq, Eq)]
pub struct Plan {
    /// The line to log for the message.
    pub log_line: Option<String>,
    /// The command to run.
    pub invocation: Option<CommandInvocation>,
    /// The notice to hand to every module.
    pub notification: Option<Notification>,
}

impl Plan {
    /// Whether nothing is to be done.
    pub open spec fn is_idle(&self) -> bool {
        self.log_line is None && self.invocation is None && self.notification is None
    }
}

/// The line that describes a message: where it was sent, by whom, and what
/// it says.
pub open spec fn log_text(
    mirror: MirrorView,
    channel_id: u64,
    author: Seq<char>,
    content: Seq<char>,
) -> Seq<char> {
    match mirror.resolve(channel_id) {
        Resolved::Public { server, channel } => "[`"@ + mirror.servers[server].name + "` `#"@
            + mirror.servers[server].channels[channel].name + "`] `"@ + author + "`: `"@ + content
            + "`"@,
        Resolved::Group { group } => "[Group `"@ + mirror.groups[group].name + "`] `"@ + author
            + "`: `"@ + content + "`"@,
        Resolved::Private { channel } => if author == mirror.private_channels[channel].recipient.name {
            "[Private] `"@ + author + "`: `"@ + content + "`"@
        } else {
            "[Private] To `"@ + mirror.private_channels[channel].recipient.name + "`: `"@ + content
                + "`"@
        },
        Resolved::Unknown => "[Unknown Channel] `"@ + author + "`: `"@ + content + "`"@,
    }
}

/// The command that a message text asks for, with its argument text: the
/// text must parse as a command whose name, in lower case, the registry
/// knows.
pub open spec fn routed(registry: Registry, content: Seq<char>) -> Option<(CommandRef, Seq<char>)> {
    match parsed_command(content) {
        Some((name, args)) => match registry.lookup(lowercase(name)) {
            Some(found) => Some((found, args)),
            None => None,
        },
        None => None,
    }
}

/// Whether `invocation` is what `routed` asks for.
pub open spec fn invokes(
    invocation: Option<CommandInvocation>,
    wanted: Option<(CommandRef, Seq<char>)>,
) -> bool {
    match wanted {
        Some((found, args)) => {
            &&& invocation is Some
            &&& invocation->0.module == found.module
            &&& invocation->0.id == found.id
            &&& invocation->0.text@ == args
        },
        None => invocation is None,
    }
}

/// Describes a message for the log, given what its channel resolved to.
pub fn describe_message(mirror: &StateMirror, message: &Message) -> (line: String)
    ensures
        line@ == log_text(mirror@, message.channel_id, message.author.name@, message.content@),
{
    let mut line = String::new();
    match mirror.find_channel(message.channel_id) {
        Some(ChannelRef::Public(server, channel)) => {
            line.append("[`");
            line.append(server.name.as_str());
            line.append("` `#");
            line.append(channel.name.as_str());
            line.append("`] `");
            line.append(message.author.name.as_str());
        },
        Some(ChannelRef::Group(group)) => {
            line.append("[Group `");
            line.append(group.name.as_str());
            line.append("`] `");
            line.append(message.author.name.as_str());
        },
        Some(ChannelRef::Private(channel)) => {
            if message.author.name == channel.recipient.name {
                line.append("[Private] `");
                line.append(message.author.name.as_str());
            } else {
                line.append("[Private] To `");
                line.append(channel.recipient.name.as_str());
            }
        },
        None => {
            line.append("[Unknown Channel] `");
            line.append(message.author.name.as_str());
        },
    }
    line.append("`: `");
    line.append(message.content.as_str());
    line.append("`");
    line
}

/// Decides what a newly created message asks for.
pub fn plan_message(mirror: &StateMirror, registry: &Registry, message: &Message) -> (plan: Plan)
    ensures
        message.author.id == mirror@.user.id ==> plan.is_idle(),
        message.author.id != mirror@.user.id ==> {
            &&& plan.log_line is Some
            &&& plan.log_line->0@ == log_text(
                mirror@,
                message.channel_id,
                message.author.name@,
                message.content@,
            )
            &&& invokes(plan.invocation, routed(*registry, message.content@))
            &&& plan.notification == if message.attachments@.len() > 0 {
                Some(Notification::Attachment)
            } else {
                None
            }
        },
{
    if message.author.id == mirror.current_user().id {
        return Plan { log_line: None, invocation: None, notification: None };
    }
    let line = describe_message(mirror, message);
    let invocation = match parse_command(message.content.as_str()) {
        Some((command, text)) => registry.route_command(command, text),
        None => None,
    };
    let notification = if message.attachments.len() > 0 {
        Some(Notification::Attachment)
    } else {
        None
    };
    Plan { log_line: Some(line), invocation, notification }
}

/// Handles one event: folds it into the mirror, then decides what is to be
/// done for it. A message of the bot itself asks for nothing; an edited or
/// deleted message is made known to every module; other events only change
/// the mirror.
pub fn dispatch(mirror: &mut StateMirror, registry: &Registry, event: Event) -> (plan: Plan)
    ensures
        final(mirror)@ == old(mirror)@.folded(event),
        match event {
            Event::MessageCreate(message) => {
                &&& message.author.id == old(mirror)@.user.id ==> plan.is_idle()
                &&& message.author.id != old(mirror)@.user.id ==> {
                    &&& plan.log_line is Some
                    &&& plan.log_line->0@ == log_text(
                        old(mirror)@,
                        message.channel_id,
                        message.author.name@,
                        message.content@,
                    )
                    &&& invokes(plan.invocation, routed(*registry, message.content@))
                    &&& plan.notification == if message.attachments@.len() > 0 {
                        Some(Notification::Attachment)
                    } else {
                        None
                    }
                }
            },
            Event::MessageUpdate { id, channel_id } => {
                &&& plan.log_line is None
                &&& plan.invocation is None
                &&& plan.notification == Some(Notification::Update { channel_id, message_id: id })
            },
            Event::MessageDelete { channel_id, message_id } => {
                &&& plan.log_line is None
                &&& plan.invocation is None
                &&& plan.notification == Some(Notification::Delete { channel_id, message_id })
            },
            _ => plan.is_idle(),
        },
{
    match event {
        Event::MessageCreate(message) => plan_message(mirror, registry, &message),
        Event::MessageUpdate { id, channel_id } => Plan {
            log_line: None,
            invocation: None,
            notification: Some(Notification::Update { channel_id, message_id: id }),
        },
        Event::MessageDelete { channel_id, message_id } => Plan {
            log_line: None,
            invocation: None,
            notification: Some(Notification::Delete { channel_id, message_id }),
        },
        other => {
            mirror.update(other);
            Plan { log_line: None, invocation: None, notification: None }
        },
    }
}

} // verus!
