//! The local mirror of servers, channels and users, built from the events
//! of the gateway.

use crate::keyed::{
    append, first_with_key, lemma_first_with_key, position_by_id, remove_by_id, replace_by_id,
    replaced, views, without_key,
};
use crate::model::{
    optional_text, Channel, Event, Group, GroupView, PrivateChannel, PrivateChannelView,
    PublicChannel, Server, ServerView, Snapshot, User, UserView,
};
use vstd::prelude::*;

verus! {

/// What a channel identifier resolves to.
#[derive(Clone, Copy, Debug)]
pub enum ChannelRef<'a> {
    /// A direct-message channel.
    Private(&'a PrivateChannel),
    /// A group channel.
    Group(&'a Group),
    /// A channel of a server, with that server.
    Public(&'a Server, &'a PublicChannel),
}

/// The mirror: who the bot is, and the servers and channels it knows.
#[derive(Debug)]
pub struct StateMirror {
    user: User,
    servers: Vec<Server>,
    private_channels: Vec<PrivateChannel>,
    groups: Vec<Group>,
}

/// What the mirror holds, as plain values.
pub struct MirrorView {
    pub user: UserView,
    pub servers: Seq<ServerView>,
    pub private_channels: Seq<PrivateChannelView>,
    pub groups: Seq<GroupView>,
}

/// The kind of channel an identifier resolves to, with the positions at
/// which it is found.
pub enum Resolved {
    Public { server: int, channel: int },
    Private { channel: int },
    Group { group: int },
    Unknown,
}

impl View for Snapshot {
    type V = MirrorView;

    open spec fn view(&self) -> MirrorView {
        MirrorView {
            user: self.user@,
            servers: views(self.servers@),
            private_channels: views(self.private_channels@),
            groups: views(self.groups@),
        }
    }
}

impl View for StateMirror {
    type V = MirrorView;

    closed spec fn view(&self) -> MirrorView {
        MirrorView {
            user: self.user@,
            servers: views(self.servers@),
            private_channels: views(self.private_channels@),
            groups: views(self.groups@),
        }
    }
}

/// The least position from `from` on of a server that has a channel with
/// the identifier `id`, or the number of servers when there is none.
pub open spec fn server_from(servers: Seq<ServerView>, id: u64, from: int) -> int
    decreases servers.len() - from,
{
    if from >= servers.len() {
        servers.len() as int
    } else if first_with_key(servers[from].channels, id, 0) < servers[from].channels.len() {
        from
    } else {
        server_from(servers, id, from + 1)
    }
}

/// The greatest position below `below` of a group with the identifier `id`,
/// or -1 when there is none.
pub open spec fn group_below(groups: Seq<GroupView>, id: u64, below: int) -> int
    decreases below,
{
    if below <= 0 || below > groups.len() {
        -1
    } else if groups[below - 1].id == id {
        below - 1
    } else {
        group_below(groups, id, below - 1)
    }
}

impl MirrorView {
    /// Where the identifier `id` is found. Channels of servers come first,
    /// server by server; then the private channels; then the groups, of
    /// which the one added last counts.
    pub open spec fn resolve(self, id: u64) -> Resolved {
        let s = server_from(self.servers, id, 0);
        let p = first_with_key(self.private_channels, id, 0);
        let g = group_below(self.groups, id, self.groups.len() as int);
        if s < self.servers.len() {
            Resolved::Public { server: s, channel: first_with_key(self.servers[s].channels, id, 0) }
        } else if p < self.private_channels.len() {
            Resolved::Private { channel: p }
        } else if g >= 0 {
            Resolved::Group { group: g }
        } else {
            Resolved::Unknown
        }
    }

    /// Whether some channel of the mirror has the identifier `id`.
    pub open spec fn has_channel(self, id: u64) -> bool {
        ||| exists|i: int, j: int|
            0 <= i < self.servers.len() && 0 <= j < self.servers[i].channels.len()
                && (#[trigger] self.servers[i].channels[j]).id == id
        ||| exists|i: int|
            0 <= i < self.private_channels.len() && (#[trigger] self.private_channels[i]).id == id
        ||| exists|i: int| 0 <= i < self.groups.len() && (#[trigger] self.groups[i]).id == id
    }

    /// The mirror with `change` applied to the first server that has the
    /// identifier `id`; the mirror itself when no server has it.
    pub open spec fn with_server(self, id: u64, change: spec_fn(ServerView) -> ServerView) -> MirrorView {
        let i = first_with_key(self.servers, id, 0);
        if i < self.servers.len() {
            MirrorView { servers: self.servers.update(i, change(self.servers[i])), ..self }
        } else {
            self
        }
    }

    /// The mirror after `event`. A ready event replaces the mirror by its
    /// snapshot. Events about servers, members, roles and channels change
    /// the part they name. Message events and ignored events leave the
    /// mirror as it is.
    pub open spec fn folded(self, event: Event) -> MirrorView {
        match event {
            Event::Ready(snapshot) => snapshot@,
            Event::UserUpdate(user) => MirrorView { user: user@, ..self },
            Event::ServerCreate(server) => MirrorView { servers: self.servers.push(server@), ..self },
            Event::ServerDelete(id) => MirrorView { servers: without_key(self.servers, id), ..self },
            Event::ServerUpdate { id, name, owner_id, icon, roles } => self.with_server(
                id,
                |s: ServerView|
                    ServerView {
                        name: name@,
                        owner_id: owner_id,
                        icon: optional_text(icon),
                        roles: views(roles@),
                        ..s
                    },
            ),
            Event::ServerMemberAdd(id) => self.with_server(
                id,
                |s: ServerView| ServerView { member_count: one_more(s.member_count), ..s },
            ),
            Event::ServerMemberRemove(id) => self.with_server(
                id,
                |s: ServerView| ServerView { member_count: one_less(s.member_count), ..s },
            ),
            Event::ServerRoleCreate(id, role) => self.with_server(
                id,
                |s: ServerView| ServerView { roles: s.roles.push(role@), ..s },
            ),
            Event::ServerRoleUpdate(id, role) => self.with_server(
                id,
                |s: ServerView| ServerView { roles: replaced(s.roles, role@), ..s },
            ),
            Event::ServerRoleDelete(id, role_id) => self.with_server(
                id,
                |s: ServerView| ServerView { roles: without_key(s.roles, role_id), ..s },
            ),
            Event::ChannelCreate(Channel::Public(channel)) => self.with_server(
                channel.server_id,
                |s: ServerView| ServerView { channels: s.channels.push(channel@), ..s },
            ),
            Event::ChannelCreate(Channel::Private(channel)) => MirrorView {
                private_channels: self.private_channels.push(channel@),
                ..self
            },
            Event::ChannelCreate(Channel::Group(group)) => MirrorView {
                groups: without_key(self.groups, group.id).push(group@),
                ..self
            },
            Event::ChannelUpdate(Channel::Public(channel)) => self.with_server(
                channel.server_id,
                |s: ServerView| ServerView { channels: replaced(s.channels, channel@), ..s },
            ),
            Event::ChannelUpdate(Channel::Private(channel)) => MirrorView {
                private_channels: replaced(self.private_channels, channel@),
                ..self
            },
            Event::ChannelUpdate(Channel::Group(group)) => MirrorView {
                groups: without_key(self.groups, group.id).push(group@),
                ..self
            },
            Event::ChannelDelete(Channel::Public(channel)) => self.with_server(
                channel.server_id,
                |s: ServerView| ServerView { channels: without_key(s.channels, channel.id), ..s },
            ),
            Event::ChannelDelete(Channel::Private(channel)) => MirrorView {
                private_channels: without_key(self.private_channels, channel.id),
                ..self
            },
            Event::ChannelDelete(Channel::Group(group)) => MirrorView {
                groups: without_key(self.groups, group.id),
                ..self
            },
            Event::MessageCreate(_) => self,
            Event::MessageUpdate { .. } => self,
            Event::MessageDelete { .. } => self,
            Event::Other => self,
        }
    }
}

/// A count with one added, which stays at the largest number.
pub open spec fn one_more(count: u64) -> u64 {
    if count == u64::MAX {
        count
    } else {
        (count + 1) as u64
    }
}

/// A count with one taken away, which stays at zero.
pub open spec fn one_less(count: u64) -> u64 {
    if count == 0 {
        count
    } else {
        (count - 1) as u64
    }
}

/// Whether `found` is the channel that `resolved` points at in `mirror`.
pub open spec fn points_at(mirror: MirrorView, resolved: Resolved, found: Option<ChannelRef>) -> bool {
    match resolved {
        Resolved::Public { server, channel } => {
            &&& 0 <= server < mirror.servers.len()
            &&& 0 <= channel < mirror.servers[server].channels.len()
            &&& found matches Some(ChannelRef::Public(s, c))
            &&& s@ == mirror.servers[server]
            &&& c@ == mirror.servers[server].channels[channel]
        },
        Resolved::Private { channel } => {
            &&& 0 <= channel < mirror.private_channels.len()
            &&& found matches Some(ChannelRef::Private(c))
            &&& c@ == mirror.private_channels[channel]
        },
        Resolved::Group { group } => {
            &&& 0 <= group < mirror.groups.len()
            &&& found matches Some(ChannelRef::Group(g))
            &&& g@ == mirror.groups[group]
        },
        Resolved::Unknown => found is None,
    }
}

impl StateMirror {
    /// Builds the mirror from the snapshot of a ready event.
    pub fn new(snapshot: Snapshot) -> (res: StateMirror)
        ensures
            res@ == snapshot@,
    {
        StateMirror {
            user: snapshot.user,
            servers: snapshot.servers,
            private_channels: snapshot.private_channels,
            groups: snapshot.groups,
        }
    }

    /// Folds an event into the mirror.
    #[verifier::rlimit(40)]
    pub fn update(&mut self, event: Event)
        ensures
            final(self)@ == old(self)@.folded(event),
    {
        match event {
            Event::Ready(snapshot) => {
                *self = StateMirror::new(snapshot);
            },
            Event::UserUpdate(user) => {
                self.user = user;
            },
            Event::ServerCreate(server) => {
                append(&mut self.servers, server);
            },
            Event::ServerDelete(id) => {
                remove_by_id(&mut self.servers, id);
            },
            Event::ServerUpdate { id, name, owner_id, icon, roles } => {
                match position_by_id(&self.servers, id) {
                    Some(i) => {
                        let ghost before = views(self.servers@);
                        let server = &mut self.servers[i];
                        server.name = name;
                        server.owner_id = owner_id;
                        server.icon = icon;
                        server.roles = roles;
                        assert(views(self.servers@) =~= before.update(
                            i as int,
                            self.servers@[i as int]@,
                        ));
                    },
                    None => {},
                }
            },
            Event::ServerMemberAdd(id) => {
                match position_by_id(&self.servers, id) {
                    Some(i) => {
                        let ghost before = views(self.servers@);
                        let server = &mut self.servers[i];
                        if server.member_count < u64::MAX {
                            server.member_count = server.member_count + 1;
                        }
                        assert(views(self.servers@) =~= before.update(
                            i as int,
                            self.servers@[i as int]@,
                        ));
                    },
                    None => {},
                }
            },
            Event::ServerMemberRemove(id) => {
                match position_by_id(&self.servers, id) {
                    Some(i) => {
                        let ghost before = views(self.servers@);
                        let server = &mut self.servers[i];
                        if server.member_count > 0 {
                            server.member_count = server.member_count - 1;
                        }
                        assert(views(self.servers@) =~= before.update(
                            i as int,
                            self.servers@[i as int]@,
                        ));
                    },
                    None => {},
                }
            },
            Event::ServerRoleCreate(id, role) => {
                match position_by_id(&self.servers, id) {
                    Some(i) => {
                        let ghost before = views(self.servers@);
                        let server = &mut self.servers[i];
                        append(&mut server.roles, role);
                        assert(views(self.servers@) =~= before.update(
                            i as int,
                            self.servers@[i as int]@,
                        ));
                    },
                    None => {},
                }
            },
            Event::ServerRoleUpdate(id, role) => {
                match position_by_id(&self.servers, id) {
                    Some(i) => {
                        let ghost before = views(self.servers@);
                        let server = &mut self.servers[i];
                        replace_by_id(&mut server.roles, role);
                        assert(views(self.servers@) =~= before.update(
                            i as int,
                            self.servers@[i as int]@,
                        ));
                    },
                    None => {},
                }
            },
            Event::ServerRoleDelete(id, role_id) => {
                match position_by_id(&self.servers, id) {
                    Some(i) => {
                        let ghost before = views(self.servers@);
                        let server = &mut self.servers[i];
                        remove_by_id(&mut server.roles, role_id);
                        assert(views(self.servers@) =~= before.update(
                            i as int,
                            self.servers@[i as int]@,
                        ));
                    },
                    None => {},
                }
            },
            Event::ChannelCreate(Channel::Public(channel)) => {
                match position_by_id(&self.servers, channel.server_id) {
                    Some(i) => {
                        let ghost before = views(self.servers@);
                        let server = &mut self.servers[i];
                        append(&mut server.channels, channel);
                        assert(views(self.servers@) =~= before.update(
                            i as int,
                            self.servers@[i as int]@,
                        ));
                    },
                    None => {},
                }
            },
            Event::ChannelCreate(Channel::Private(channel)) => {
                append(&mut self.private_channels, channel);
            },
            Event::ChannelCreate(Channel::Group(group)) => {
                remove_by_id(&mut self.groups, group.id);
                append(&mut self.groups, group);
            },
            Event::ChannelUpdate(Channel::Public(channel)) => {
                match position_by_id(&self.servers, channel.server_id) {
                    Some(i) => {
                        let ghost before = views(self.servers@);
                        let server = &mut self.servers[i];
                        replace_by_id(&mut server.channels, channel);
                        assert(views(self.servers@) =~= before.update(
                            i as int,
                            self.servers@[i as int]@,
                        ));
                    },
                    None => {},
                }
            },
            Event::ChannelUpdate(Channel::Private(channel)) => {
                replace_by_id(&mut self.private_channels, channel);
            },
            Event::ChannelUpdate(Channel::Group(group)) => {
                remove_by_id(&mut self.groups, group.id);
                append(&mut self.groups, group);
            },
            Event::ChannelDelete(Channel::Public(channel)) => {
                match position_by_id(&self.servers, channel.server_id) {
                    Some(i) => {
                        let ghost before = views(self.servers@);
                        let server = &mut self.servers[i];
                        remove_by_id(&mut server.channels, channel.id);
                        assert(views(self.servers@) =~= before.update(
                            i as int,
                            self.servers@[i as int]@,
                        ));
                    },
                    None => {},
                }
            },
            Event::ChannelDelete(Channel::Private(channel)) => {
                remove_by_id(&mut self.private_channels, channel.id);
            },
            Event::ChannelDelete(Channel::Group(group)) => {
                remove_by_id(&mut self.groups, group.id);
            },
            Event::MessageCreate(_) => {},
            Event::MessageUpdate { .. } => {},
            Event::MessageDelete { .. } => {},
            Event::Other => {},
        }
    }

    /// The user the bot is logged in as.
    pub fn current_user(&self) -> (res: &User)
        ensures
            res@ == self@.user,
    {
        &self.user
    }

    /// Looks a channel up by its identifier.
    pub fn find_channel(&self, id: u64) -> (res: Option<ChannelRef<'_>>)
        ensures
            points_at(self@, self@.resolve(id), res),
    {
        let ghost view = self@;
        let mut i: usize = 0;
        while i < self.servers.len()
            invariant
                i <= self.servers@.len(),
                view == self@,
                server_from(view.servers, id, 0) == server_from(view.servers, id, i as int),
            decreases self.servers@.len() - i,
        {
            match position_by_id(&self.servers[i].channels, id) {
                Some(j) => {
                    return Some(ChannelRef::Public(&self.servers[i], &self.servers[i].channels[j]));
                },
                None => {},
            }
            i = i + 1;
        }
        let mut k: usize = 0;
        while k < self.private_channels.len()
            invariant
                k <= self.private_channels@.len(),
                view == self@,
                server_from(view.servers, id, 0) >= view.servers.len(),
                first_with_key(view.private_channels, id, 0) == first_with_key(
                    view.private_channels,
                    id,
                    k as int,
                ),
            decreases self.private_channels@.len() - k,
        {
            if self.private_channels[k].id == id {
                return Some(ChannelRef::Private(&self.private_channels[k]));
            }
            k = k + 1;
        }
        let mut g: usize = self.groups.len();
        while g > 0
            invariant
                g <= self.groups@.len(),
                view == self@,
                server_from(view.servers, id, 0) >= view.servers.len(),
                first_with_key(view.private_channels, id, 0) >= view.private_channels.len(),
                group_below(view.groups, id, view.groups.len() as int) == group_below(
                    view.groups,
                    id,
                    g as int,
                ),
            decreases g,
        {
            g = g - 1;
            if self.groups[g].id == id {
                return Some(ChannelRef::Group(&self.groups[g]));
            }
        }
        None
    }
}

/// `server_from` is the least position from `from` on of a server that has
/// a channel with the identifier `id`.
pub proof fn lemma_server_from(servers: Seq<ServerView>, id: u64, from: int)
    requires
        0 <= from <= servers.len(),
    ensures
        from <= server_from(servers, id, from) <= servers.len(),
        forall|i: int, j: int|
            from <= i < server_from(servers, id, from) && 0 <= j < servers[i].channels.len() ==> (
            #[trigger] servers[i].channels[j]).id != id,
        server_from(servers, id, from) < servers.len() ==> {
            let channels = servers[server_from(servers, id, from)].channels;
            &&& 0 <= first_with_key(channels, id, 0) < channels.len()
            &&& channels[first_with_key(channels, id, 0)].id == id
        },
    decreases servers.len() - from,
{
    if from < servers.len() {
        lemma_first_with_key(servers[from].channels, id, 0);
        if first_with_key(servers[from].channels, id, 0) >= servers[from].channels.len() {
            lemma_server_from(servers, id, from + 1);
        }
    }
}

/// `group_below` is the greatest position below `below` of a group with the
/// identifier `id`, and -1 when there is none.
pub proof fn lemma_group_below(groups: Seq<GroupView>, id: u64, below: int)
    requires
        0 <= below <= groups.len(),
    ensures
        -1 <= group_below(groups, id, below) < below,
        forall|j: int| group_below(groups, id, below) < j < below ==> (#[trigger] groups[j]).id != id,
        group_below(groups, id, below) >= 0 ==> groups[group_below(groups, id, below)].id == id,
    decreases below,
{
    if below > 0 && groups[below - 1].id != id {
        lemma_group_below(groups, id, below - 1);
    }
}

/// An identifier resolves exactly when some channel of the mirror has it.
pub proof fn lemma_resolves_known_channels(mirror: MirrorView, id: u64)
    ensures
        !(mirror.resolve(id) is Unknown) <==> mirror.has_channel(id),
{
    lemma_server_from(mirror.servers, id, 0);
    lemma_first_with_key(mirror.private_channels, id, 0);
    lemma_group_below(mirror.groups, id, mirror.groups.len() as int);
}

/// Message events and ignored events leave the mirror as it is.
pub proof fn lemma_messages_leave_mirror(mirror: MirrorView, event: Event)
    requires
        event is MessageCreate || event is MessageUpdate || event is MessageDelete || event is Other,
    ensures
        mirror.folded(event) == mirror,
{
}

/// After a ready event the mirror resolves exactly the channels of that
/// event's snapshot, whatever it held before.
pub proof fn lemma_ready_replaces(before: MirrorView, snapshot: Snapshot, id: u64)
    ensures
        before.folded(Event::Ready(snapshot)) == snapshot@,
        !(before.folded(Event::Ready(snapshot)).resolve(id) is Unknown) <==> snapshot@.has_channel(id),
{
    lemma_resolves_known_channels(snapshot@, id);
}

/// After a second ready event, a channel that only the first snapshot held
/// no longer resolves, and every channel of the second one does.
pub proof fn lemma_reconnect_forgets(before: MirrorView, first: Snapshot, second: Snapshot, id: u64)
    ensures
        first@.has_channel(id) && !second@.has_channel(id) ==> before.folded(
            Event::Ready(first),
        ).folded(Event::Ready(second)).resolve(id) is Unknown,
        second@.has_channel(id) ==> !(before.folded(Event::Ready(first)).folded(
            Event::Ready(second),
        ).resolve(id) is Unknown),
{
    lemma_resolves_known_channels(second@, id);
}

} // verus!
