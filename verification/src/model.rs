//! The plain data that the bot works on: users, servers, channels and
//! messages, each with its mathematical view.

use crate::keyed::{views, Entity, Keyed};
use vstd::prelude::*;

verus! {

/// The view of a text that may be absent.
pub open spec fn optional_text(text: Option<String>) -> Option<Seq<char>> {
    match text {
        Some(text) => Some(text@),
        None => None,
    }
}

/// A user: the identifier and the display name.
#[derive(Debug, PartialEq, Eq)]
pub struct User {
    pub id: u64,
    pub name: String,
}

/// A user as plain values.
pub struct UserView {
    pub id: u64,
    pub name: Seq<char>,
}

impl View for User {
    type V = UserView;

    open spec fn view(&self) -> UserView {
        UserView { id: self.id, name: self.name@ }
    }
}

/// A role of a server.
#[derive(Debug, PartialEq, Eq)]
pub struct Role {
    pub id: u64,
    pub name: String,
}

/// A role as plain values.
pub struct RoleView {
    pub id: u64,
    pub name: Seq<char>,
}

impl View for Role {
    type V = RoleView;

    open spec fn view(&self) -> RoleView {
        RoleView { id: self.id, name: self.name@ }
    }
}

impl Keyed for RoleView {
    open spec fn key(self) -> u64 {
        self.id
    }
}

impl Entity for Role {
    fn id(&self) -> (id: u64) {
        self.id
    }
}

/// A channel of a server.
#[derive(Debug, PartialEq, Eq)]
pub struct PublicChannel {
    pub id: u64,
    pub server_id: u64,
    pub name: String,
}

/// A channel of a server as plain values.
pub struct PublicChannelView {
    pub id: u64,
    pub server_id: u64,
    pub name: Seq<char>,
}

impl View for PublicChannel {
    type V = PublicChannelView;

    open spec fn view(&self) -> PublicChannelView {
        PublicChannelView { id: self.id, server_id: self.server_id, name: self.name@ }
    }
}

impl Keyed for PublicChannelView {
    open spec fn key(self) -> u64 {
        self.id
    }
}

impl Entity for PublicChannel {
    fn id(&self) -> (id: u64) {
        self.id
    }
}

/// A server with its roles and channels.
#[derive(Debug, PartialEq, Eq)]
pub struct Server {
    pub id: u64,
    pub name: String,
    pub owner_id: u64,
    pub member_count: u64,
    pub icon: Option<String>,
    pub roles: Vec<Role>,
    pub channels: Vec<PublicChannel>,
}

/// A server as plain values.
pub struct ServerView {
    pub id: u64,
    pub name: Seq<char>,
    pub owner_id: u64,
    pub member_count: u64,
    pub icon: Option<Seq<char>>,
    pub roles: Seq<RoleView>,
    pub channels: Seq<PublicChannelView>,
}

impl View for Server {
    type V = ServerView;

    open spec fn view(&self) -> ServerView {
        ServerView {
            id: self.id,
            name: self.name@,
            owner_id: self.owner_id,
            member_count: self.member_count,
            icon: optional_text(self.icon),
            roles: views(self.roles@),
            channels: views(self.channels@),
        }
    }
}

impl Keyed for ServerView {
    open spec fn key(self) -> u64 {
        self.id
    }
}

impl Entity for Server {
    fn id(&self) -> (id: u64) {
        self.id
    }
}

/// A direct-message channel with one other user.
#[derive(Debug, PartialEq, Eq)]
pub struct PrivateChannel {
    pub id: u64,
    pub recipient: User,
}

/// A direct-message channel as plain values.
pub struct PrivateChannelView {
    pub id: u64,
    pub recipient: UserView,
}

impl View for PrivateChannel {
    type V = PrivateChannelView;

    open spec fn view(&self) -> PrivateChannelView {
        PrivateChannelView { id: self.id, recipient: self.recipient@ }
    }
}

impl Keyed for PrivateChannelView {
    open spec fn key(self) -> u64 {
        self.id
    }
}

impl Entity for PrivateChannel {
    fn id(&self) -> (id: u64) {
        self.id
    }
}

/// A group channel, with the name it is shown under.
#[derive(Debug, PartialEq, Eq)]
pub struct Group {
    pub id: u64,
    pub name: String,
}

/// A group channel as plain values.
pub struct GroupView {
    pub id: u64,
    pub name: Seq<char>,
}

impl View for Group {
    type V = GroupView;

    open spec fn view(&self) -> GroupView {
        GroupView { id: self.id, name: self.name@ }
    }
}

impl Keyed for GroupView {
    open spec fn key(self) -> u64 {
        self.id
    }
}

impl Entity for Group {
    fn id(&self) -> (id: u64) {
        self.id
    }
}

/// A channel of any of the three kinds.
#[derive(Debug, PartialEq, Eq)]
pub enum Channel {
    Public(PublicChannel),
    Private(PrivateChannel),
    Group(Group),
}

/// What the gateway sends when a connection is ready: the whole state.
#[derive(Debug, PartialEq, Eq)]
pub struct Snapshot {
    pub user: User,
    pub servers: Vec<Server>,
    pub private_channels: Vec<PrivateChannel>,
    pub groups: Vec<Group>,
}

/// A file attached to a message.
#[derive(Debug, PartialEq, Eq)]
pub struct Attachment {
    pub url: String,
    pub filename: String,
}

/// A chat message.
#[derive(Debug, PartialEq, Eq)]
pub struct Message {
    pub id: u64,
    pub channel_id: u64,
    pub author: User,
    pub content: String,
    pub attachments: Vec<Attachment>,
    pub mentions: Vec<User>,
    pub mention_roles: Vec<u64>,
}

/// An event of the gateway, as far as the bot looks at it.
#[derive(Debug, PartialEq, Eq)]
pub enum Event {
    /// A connection was established; the snapshot replaces what was known.
    Ready(Snapshot),
    MessageCreate(Message),
    MessageUpdate { id: u64, channel_id: u64 },
    MessageDelete { channel_id: u64, message_id: u64 },
    /// The bot's own user changed.
    UserUpdate(User),
    /// The bot joined a server, or a server became available.
    ServerCreate(Server),
    /// The bot left the server with this identifier, or it went away.
    ServerDelete(u64),
    /// The settings of a server changed.
    ServerUpdate { id: u64, name: String, owner_id: u64, icon: Option<String>, roles: Vec<Role> },
    /// A member joined the server with this identifier.
    ServerMemberAdd(u64),
    /// A member left the server with this identifier.
    ServerMemberRemove(u64),
    /// The server with this identifier got a new role.
    ServerRoleCreate(u64, Role),
    /// A role of the server with this identifier changed.
    ServerRoleUpdate(u64, Role),
    /// The server with the first identifier lost the role with the second.
    ServerRoleDelete(u64, u64),
    ChannelCreate(Channel),
    ChannelUpdate(Channel),
    ChannelDelete(Channel),
    /// Any event that the bot does not act on.
    Other,
}

} // verus!
