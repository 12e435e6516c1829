use crate::config::{HttpClient, RevoltConfig};
use crate::hooks::Context;
use crate::table::Table;
use crate::ConnectionState;
use vstd::prelude::*;

verus! {

/// A user, keyed by its globally unique id.
pub struct User {
    pub id: String,
    pub username: String,
    pub discriminator: String,
    pub display_name: Option<String>,
    pub status: Option<UserStatus>,
}

pub struct UserStatus {
    pub text: Option<String>,
    pub presence: Option<Presence>,
}

#[derive(Clone, Copy, PartialEq, Eq, Structural, Debug)]
pub enum Presence {
    Online,
    Idle,
    Focus,
    Busy,
    Invisible,
}

/// A server: an ordered list of channel ids, optionally grouped into
/// categories.
pub struct Server {
    pub id: String,
    pub name: String,
    pub channels: Vec<String>,
    pub categories: Option<Vec<Category>>,
}

pub struct Category {
    pub title: String,
    pub channels: Vec<String>,
}

/// A channel; text and voice channels reference their owning server.
pub enum Channel {
    SavedMessages { id: String },
    DirectMessage { id: String },
    Group { id: String, name: String },
    TextChannel { id: String, name: String, server: String },
    VoiceChannel { id: String, name: String, server: String },
}

impl Channel {
    pub open spec fn id_spec(&self) -> Seq<char> {
        match self {
            Channel::SavedMessages { id } => id@,
            Channel::DirectMessage { id } => id@,
            Channel::Group { id, .. } => id@,
            Channel::TextChannel { id, .. } => id@,
            Channel::VoiceChannel { id, .. } => id@,
        }
    }

    pub fn id(&self) -> (r: &String)
        ensures
            r@ == self.id_spec(),
    {
        match self {
            Channel::SavedMessages { id } => id,
            Channel::DirectMessage { id } => id,
            Channel::Group { id, .. } => id,
            Channel::TextChannel { id, .. } => id,
            Channel::VoiceChannel { id, .. } => id,
        }
    }
}

/// A member's composite key: (server id, user id).
pub struct MemberId {
    pub server: String,
    pub user: String,
}

pub struct Member {
    pub id: MemberId,
    pub nickname: Option<String>,
}

/// A display override a message may carry.
pub struct Masquerade {
    pub name: Option<String>,
}

/// A message; `user` and `member` are payloads carried only on creation
/// events so the author is resolvable the moment the message is visible.
pub struct Message {
    pub id: String,
    pub channel: String,
    pub author: String,
    pub content: Option<String>,
    pub replies: Option<Vec<String>>,
    pub masquerade: Option<Masquerade>,
    pub user: Option<User>,
    pub member: Option<Member>,
}

/// The abstract state the reducer maintains: the normalized entity tables
/// and the connection status, as maps over id character sequences.
#[verifier::ext_equal]
pub struct ModelView {
    pub users: Map<Seq<char>, User>,
    pub servers: Map<Seq<char>, Server>,
    pub members: Map<Seq<char>, Map<Seq<char>, Member>>,
    pub channels: Map<Seq<char>, Channel>,
    pub messages: Map<Seq<char>, Seq<Message>>,
    pub connection: ConnectionState,
}

/// The canonical in-memory model: normalized entity tables, the UI's
/// selection state, the hook scopes, and the outbound client description.
pub struct GlobalState {
    pub config: RevoltConfig,
    pub servers: Table<Server>,
    pub users: Table<User>,
    pub members: Table<Table<Member>>,
    pub channels: Table<Channel>,
    pub messages: Table<Vec<Message>>,
    pub current_message: String,
    pub current_message_hover: Option<String>,
    pub selected_server: Option<String>,
    pub selected_channel: Option<String>,
    pub selected_member: Option<String>,
    pub connection_state: ConnectionState,
    pub contexts: Table<Context>,
    pub http: HttpClient,
}

impl GlobalState {
    pub open spec fn wf(&self) -> bool {
        &&& self.servers.wf()
        &&& self.users.wf()
        &&& self.members.wf()
        &&& forall|k: Seq<char>|
            self.members@.contains_key(k) ==> (#[trigger] self.members@[k]).wf()
        &&& self.channels.wf()
        &&& self.messages.wf()
        &&& self.contexts.wf()
        &&& forall|k: Seq<char>|
            self.contexts@.contains_key(k) ==> (#[trigger] self.contexts@[k]).wf()
                && self.contexts@[k].name@ == k
    }

    /// The entity tables seen as maps: what the reducer's contract speaks
    /// of.
    pub open spec fn model(&self) -> ModelView {
        ModelView {
            users: self.users@,
            servers: self.servers@,
            members: self.members@.map_values(|t: Table<Member>| t@),
            channels: self.channels@,
            messages: self.messages@.map_values(|v: Vec<Message>| v@),
            connection: self.connection_state,
        }
    }

    pub fn new(base_url: String, config: RevoltConfig, token: String) -> (s: Self)
        ensures
            s.wf(),
            s.model().users == Map::<Seq<char>, User>::empty(),
            s.model().servers == Map::<Seq<char>, Server>::empty(),
            s.model().members =~= Map::<Seq<char>, Map<Seq<char>, Member>>::empty(),
            s.model().channels == Map::<Seq<char>, Channel>::empty(),
            s.model().messages =~= Map::<Seq<char>, Seq<Message>>::empty(),
            s.model().connection == ConnectionState::Disconnected,
            s.current_message@ == Seq::<char>::empty(),
            s.current_message_hover is None,
            s.selected_server is None,
            s.selected_channel is None,
            s.selected_member is None,
            s.contexts@ == Map::<Seq<char>, Context>::empty(),
            s.config == config,
            s.http == (HttpClient { base: base_url, token }),
    {
        GlobalState {
            config,
            servers: Table::new(),
            users: Table::new(),
            members: Table::new(),
            channels: Table::new(),
            messages: Table::new(),
            current_message: String::new(),
            current_message_hover: None,
            selected_server: None,
            selected_channel: None,
            selected_member: None,
            connection_state: ConnectionState::Disconnected,
            contexts: Table::new(),
            http: HttpClient::new(base_url, token),
        }
    }

    /// Everything but the hook scopes is left alone.
    pub open spec fn contexts_only_changed(a: GlobalState, b: GlobalState) -> bool {
        &&& b.config == a.config
        &&& b.servers == a.servers
        &&& b.users == a.users
        &&& b.members == a.members
        &&& b.channels == a.channels
        &&& b.messages == a.messages
        &&& b.current_message == a.current_message
        &&& b.current_message_hover == a.current_message_hover
        &&& b.selected_server == a.selected_server
        &&& b.selected_channel == a.selected_channel
        &&& b.selected_member == a.selected_member
        &&& b.connection_state == a.connection_state
        &&& b.http == a.http
    }

    /// Look up — creating it if absent — the scope a name refers to, and
    /// rewind its cursor for the new frame; its slots are kept.  Returns
    /// the scope's position, to be handed to `context_mut`.
    pub fn new_context(&mut self, name: &str) -> (i: usize)
        requires
            old(self).wf(),
        ensures
            final(self).wf(),
            GlobalState::contexts_only_changed(*old(self), *final(self)),
            i < final(self).contexts.entries@.len(),
            final(self).contexts.entries@[i as int].0@ == name@,
            final(self).contexts.entries@[i as int].1 == final(self).contexts@[name@],
            final(self).contexts@.contains_key(name@),
            final(self).contexts@ == old(self).contexts@.insert(
                name@,
                final(self).contexts@[name@],
            ),
            final(self).contexts@[name@].idx == 0,
            final(self).contexts@[name@].name@ == name@,
            old(self).contexts@.contains_key(name@)
                ==> final(self).contexts@[name@].hooks == old(self).contexts@[name@].hooks,
            !old(self).contexts@.contains_key(name@)
                ==> final(self).contexts@[name@].hooks@.len() == 0,
    {
        match self.contexts.index_of(name) {
            Some(i) => {
                let ghost old_tab = self.contexts;
                let scope = self.contexts.value_mut(i);
                scope.reset();
                proof {
                    crate::table::lemma_map_of_update(
                        old_tab.entries@,
                        i as int,
                        old_tab.entries@[i as int].0,
                        self.contexts.entries@[i as int].1,
                    );
                    assert(self.contexts@ =~= old_tab@.insert(
                        name@,
                        self.contexts.entries@[i as int].1,
                    ));
                    crate::table::lemma_map_of_index(self.contexts.entries@, i as int);
                }
                i
            }
            None => {
                let fresh = Context::new(name.to_owned());
                self.contexts.insert(name.to_owned(), fresh);
                let found = self.contexts.index_of(name);
                match found {
                    Some(i) => {
                        proof {
                            crate::table::lemma_map_of_index(self.contexts.entries@, i as int);
                        }
                        i
                    }
                    None => {
                        proof {
                            assert(false);
                        }
                        0
                    }
                }
            }
        }
    }

    /// A mutable borrow of the scope at a position, for this frame's hook
    /// calls.  Only the scope behind the borrow changes; well-formedness
    /// of the whole state follows again once the borrow is left
    /// well-formed, which every scope operation here guarantees.
    pub fn context_mut(&mut self, i: usize) -> (r: &mut Context)
        requires
            old(self).wf(),
            i < old(self).contexts.entries@.len(),
        ensures
            *r == old(self).contexts.entries@[i as int].1,
            final(self).contexts.entries@ == old(self).contexts.entries@.update(
                i as int,
                (old(self).contexts.entries@[i as int].0, *final(r)),
            ),
            GlobalState::contexts_only_changed(*old(self), *final(self)),
    {
        self.contexts.value_mut(i)
    }

    /// The channel the selection points at, or nothing: a selection whose
    /// id is absent from the channel table reads as "no channel selected",
    /// never as an error.
    pub fn selected_channel_entry(&self) -> (r: Option<&Channel>)
        requires
            self.wf(),
        ensures
            match r {
                Some(c) => self.selected_channel matches Some(id)
                    && self.model().channels.contains_key(id@)
                    && *c == self.model().channels[id@],
                None => self.selected_channel matches Some(id)
                    ==> !self.model().channels.contains_key(id@),
            },
    {
        match &self.selected_channel {
            Some(id) => self.channels.get(id.as_str()),
            None => None,
        }
    }

    /// The member table of the server the selection points at, read
    /// defensively in the same way.
    pub fn selected_server_members(&self) -> (r: Option<&Table<Member>>)
        requires
            self.wf(),
        ensures
            match r {
                Some(t) => self.selected_server matches Some(id)
                    && self.members@.contains_key(id@) && *t == self.members@[id@],
                None => self.selected_server matches Some(id)
                    ==> !self.members@.contains_key(id@),
            },
    {
        match &self.selected_server {
            Some(id) => self.members.get(id.as_str()),
            None => None,
        }
    }

    /// Whether the hover reference points at this message.  A hover id
    /// that matches no message simply never answers true.
    pub fn message_hovered(&self, message_id: &str) -> (r: bool)
        ensures
            r == (self.current_message_hover matches Some(h) && h@ == message_id@),
    {
        match &self.current_message_hover {
            Some(h) => crate::strutil::str_eq(h.as_str(), message_id),
            None => false,
        }
    }

    /// The user an id names, or nothing.
    pub fn user_of(&self, user_id: &str) -> (r: Option<&User>)
        requires
            self.wf(),
        ensures
            match r {
                Some(u) => self.model().users.contains_key(user_id@)
                    && *u == self.model().users[user_id@],
                None => !self.model().users.contains_key(user_id@),
            },
    {
        self.users.get(user_id)
    }

    /// The member a (server, user) pair names, or nothing; either id may
    /// dangle.
    pub fn member_of(&self, server_id: &str, user_id: &str) -> (r: Option<&Member>)
        requires
            self.wf(),
        ensures
            match r {
                Some(m) => self.model().members.contains_key(server_id@)
                    && self.model().members[server_id@].contains_key(user_id@)
                    && *m == self.model().members[server_id@][user_id@],
                None => !self.model().members.contains_key(server_id@)
                    || !self.model().members[server_id@].contains_key(user_id@),
            },
    {
        match self.members.get(server_id) {
            Some(t) => t.get(user_id),
            None => None,
        }
    }
}

} // verus!
