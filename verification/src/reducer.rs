use crate::events::Event;
use crate::model::{Channel, GlobalState, Member, Message, ModelView, Server, User};
use crate::table::{lemma_map_of_update, Table};
use crate::ConnectionState;
use vstd::prelude::*;

verus! {

broadcast use vstd::std_specs::vec::group_vec_axioms;

/// Create or replace a user, keyed by its id.
pub open spec fn upsert_user(m: ModelView, u: User) -> ModelView {
    ModelView { users: m.users.insert(u.id@, u), ..m }
}

/// Insert a member into its server's member table; a member whose server
/// is unknown is dropped, and must not create a table.
pub open spec fn upsert_member(m: ModelView, mem: Member) -> ModelView {
    if m.members.contains_key(mem.id.server@) {
        ModelView {
            members: m.members.insert(
                mem.id.server@,
                m.members[mem.id.server@].insert(mem.id.user@, mem),
            ),
            ..m
        }
    } else {
        m
    }
}

/// Create or replace a server and reset its member table to empty: the
/// snapshot is authoritative, stale members of an earlier connection must
/// not leak through.
pub open spec fn hydrate_server(m: ModelView, s: Server) -> ModelView {
    ModelView {
        servers: m.servers.insert(s.id@, s),
        members: m.members.insert(s.id@, Map::empty()),
        ..m
    }
}

/// Create or replace a channel and reset its message list to empty: the
/// snapshot carries no history.
pub open spec fn hydrate_channel(m: ModelView, c: Channel) -> ModelView {
    ModelView {
        channels: m.channels.insert(c.id_spec(), c),
        messages: m.messages.insert(c.id_spec(), Seq::empty()),
        ..m
    }
}

pub open spec fn hydrate_users(m: ModelView, users: Seq<User>, i: int) -> ModelView
    decreases users.len() - i,
{
    if 0 <= i < users.len() {
        hydrate_users(upsert_user(m, users[i]), users, i + 1)
    } else {
        m
    }
}

pub open spec fn hydrate_servers(m: ModelView, servers: Seq<Server>, i: int) -> ModelView
    decreases servers.len() - i,
{
    if 0 <= i < servers.len() {
        hydrate_servers(hydrate_server(m, servers[i]), servers, i + 1)
    } else {
        m
    }
}

pub open spec fn hydrate_channels(m: ModelView, channels: Seq<Channel>, i: int) -> ModelView
    decreases channels.len() - i,
{
    if 0 <= i < channels.len() {
        hydrate_channels(hydrate_channel(m, channels[i]), channels, i + 1)
    } else {
        m
    }
}

pub open spec fn hydrate_members(m: ModelView, members: Seq<Member>, i: int) -> ModelView
    decreases members.len() - i,
{
    if 0 <= i < members.len() {
        hydrate_members(upsert_member(m, members[i]), members, i + 1)
    } else {
        m
    }
}

/// The full hydration snapshot: users, then servers (member tables
/// reset), then channels (message lists reset), then members.
pub open spec fn apply_ready(
    m: ModelView,
    users: Seq<User>,
    servers: Seq<Server>,
    channels: Seq<Channel>,
    members: Seq<Member>,
) -> ModelView {
    hydrate_members(
        hydrate_channels(hydrate_servers(hydrate_users(m, users, 0), servers, 0), channels, 0),
        members,
        0,
    )
}

/// A stored message no longer carries its creation payload.
pub open spec fn strip_payload(msg: Message) -> Message {
    Message { user: None, member: None, ..msg }
}

/// A new message: its embedded user and member are upserted first, so the
/// author is resolvable the moment the message is visible; the message
/// itself is appended to its channel's list, and dropped — without a
/// dangling channel entry — if the channel is unknown.
pub open spec fn apply_message(m: ModelView, msg: Message) -> ModelView {
    let m1 = if msg.user is Some {
        upsert_user(m, msg.user->0)
    } else {
        m
    };
    let m2 = if msg.member is Some {
        upsert_member(m1, msg.member->0)
    } else {
        m1
    };
    if m2.messages.contains_key(msg.channel@) {
        ModelView {
            messages: m2.messages.insert(
                msg.channel@,
                m2.messages[msg.channel@].push(strip_payload(msg)),
            ),
            ..m2
        }
    } else {
        m2
    }
}

/// What one event does to the model.
pub open spec fn apply_event(m: ModelView, e: Event) -> ModelView
    decreases e,
{
    match e {
        Event::Bulk { v } => apply_events(m, v@, 0),
        Event::Authenticated => ModelView { connection: ConnectionState::Connected, ..m },
        Event::Logout => m,
        Event::Ready { users, servers, channels, members } => apply_ready(
            m,
            users@,
            servers@,
            channels@,
            members@,
        ),
        Event::Message(msg) => apply_message(m, msg),
        Event::Unknown { .. } => m,
    }
}

/// What the events from position `i` on do to the model, applied in
/// delivery order.
pub open spec fn apply_events(m: ModelView, s: Seq<Event>, i: int) -> ModelView
    decreases s, s.len() - i,
{
    if 0 <= i < s.len() {
        apply_events(apply_event(m, s[i]), s, i + 1)
    } else {
        m
    }
}

/// The reducer touches the entity tables and the connection state only:
/// selection, hook scopes, compose buffer and client description are the
/// UI's own.
pub open spec fn ui_unchanged(a: GlobalState, b: GlobalState) -> bool {
    &&& b.config == a.config
    &&& b.current_message == a.current_message
    &&& b.current_message_hover == a.current_message_hover
    &&& b.selected_server == a.selected_server
    &&& b.selected_channel == a.selected_channel
    &&& b.selected_member == a.selected_member
    &&& b.contexts == a.contexts
    &&& b.http == a.http
}

/// Apply one drained event to the canonical model, in FIFO order, on the
/// model's own thread.
pub fn update_state(event: Event, state: &mut GlobalState)
    requires
        old(state).wf(),
    ensures
        final(state).wf(),
        final(state).model() == apply_event(old(state).model(), event),
        ui_unchanged(*old(state), *final(state)),
    decreases event,
{
    let ghost orig_event = event;
    match event {
        Event::Bulk { v } => {
            let ghost v0 = v;
            let mut v = v;
            let ghost vs = v0@;
            let ghost m0 = old(state).model();
            proof {
                assert(v@ =~= vs.subrange(0, vs.len() as int));
            }
            while v.len() > 0
                invariant
                    state.wf(),
                    ui_unchanged(*old(state), *state),
                    vs == v0@,
                    v@.len() <= vs.len(),
                    v@ == vs.subrange(vs.len() - v@.len(), vs.len() as int),
                    apply_events(m0, vs, 0) == apply_events(
                        state.model(),
                        vs,
                        vs.len() - v@.len(),
                    ),
                    orig_event == event,
                    orig_event == (Event::Bulk { v: v0 }),
                decreases v@.len(),
            {
                let ghost k = vs.len() - v@.len();
                let e = v.remove(0);
                proof {
                    broadcast use vstd::seq::axiom_seq_index_decreases;

                    assert(e == vs[k]);
                    assert(v@ =~= vs.subrange(k + 1, vs.len() as int));
                    assert(orig_event->v == v0);
                    assert(decreases_to!(orig_event => orig_event->v));
                    assert(decreases_to!(v0 => v0@));
                    assert(0 <= k < v0@.len());
                    assert(decreases_to!(v0@ => v0@[k]));
                }
                update_state(e, state);
            }
            proof {
                assert(state.model() == apply_events(m0, vs, 0));
            }
        }
        Event::Authenticated => {
            state.connection_state = ConnectionState::Connected;
            proof {
                assert(state.model() =~= apply_event(old(state).model(), orig_event));
            }
        }
        Event::Logout => {}
        Event::Ready { users, servers, channels, members } => {
            let ghost users0 = users;
            let ghost servers0 = servers;
            let ghost channels0 = channels;
            let ghost members0 = members;
            let ghost m0 = old(state).model();
            // Users: upsert each by id, replace on conflict.
            let mut users = users;
            let ghost useq = users0@;
            proof {
                assert(users@ =~= useq.subrange(0, useq.len() as int));
            }
            while users.len() > 0
                invariant
                    state.wf(),
                    ui_unchanged(*old(state), *state),
                    users@.len() <= useq.len(),
                    users@ == useq.subrange(useq.len() - users@.len(), useq.len() as int),
                    hydrate_users(m0, useq, 0) == hydrate_users(
                        state.model(),
                        useq,
                        useq.len() - users@.len(),
                    ),
                decreases users@.len(),
            {
                let ghost k = useq.len() - users@.len();
                let ghost prev = state.model();
                let u = users.remove(0);
                proof {
                    assert(u == useq[k]);
                    assert(users@ =~= useq.subrange(k + 1, useq.len() as int));
                }
                let key = u.id.clone();
                state.users.insert(key, u);
                proof {
                    assert(state.model() =~= upsert_user(prev, useq[k]));
                }
            }
            let ghost m_users = state.model();
            proof {
                assert(m_users == hydrate_users(m0, useq, 0));
            }
            // Servers: create or replace, and reset each member table.
            let mut servers = servers;
            let ghost sseq = servers0@;
            proof {
                assert(servers@ =~= sseq.subrange(0, sseq.len() as int));
            }
            while servers.len() > 0
                invariant
                    state.wf(),
                    ui_unchanged(*old(state), *state),
                    servers@.len() <= sseq.len(),
                    servers@ == sseq.subrange(sseq.len() - servers@.len(), sseq.len() as int),
                    hydrate_servers(m_users, sseq, 0) == hydrate_servers(
                        state.model(),
                        sseq,
                        sseq.len() - servers@.len(),
                    ),
                decreases servers@.len(),
            {
                let ghost k = sseq.len() - servers@.len();
                let ghost prev = state.model();
                let s = servers.remove(0);
                proof {
                    assert(s == sseq[k]);
                    assert(servers@ =~= sseq.subrange(k + 1, sseq.len() as int));
                }
                let member_key = s.id.clone();
                state.members.insert(member_key, Table::new());
                let server_key = s.id.clone();
                state.servers.insert(server_key, s);
                proof {
                    assert(state.model().members =~= hydrate_server(prev, sseq[k]).members);
                    assert(state.model() =~= hydrate_server(prev, sseq[k]));
                }
            }
            let ghost m_servers = state.model();
            proof {
                assert(m_servers == hydrate_servers(m_users, sseq, 0));
            }
            // Channels: create or replace, and reset each message list.
            let mut channels = channels;
            let ghost cseq = channels0@;
            proof {
                assert(channels@ =~= cseq.subrange(0, cseq.len() as int));
            }
            while channels.len() > 0
                invariant
                    state.wf(),
                    ui_unchanged(*old(state), *state),
                    channels@.len() <= cseq.len(),
                    channels@ == cseq.subrange(cseq.len() - channels@.len(), cseq.len() as int),
                    hydrate_channels(m_servers, cseq, 0) == hydrate_channels(
                        state.model(),
                        cseq,
                        cseq.len() - channels@.len(),
                    ),
                decreases channels@.len(),
            {
                let ghost k = cseq.len() - channels@.len();
                let ghost prev = state.model();
                let c = channels.remove(0);
                proof {
                    assert(c == cseq[k]);
                    assert(channels@ =~= cseq.subrange(k + 1, cseq.len() as int));
                }
                let message_key = c.id().clone();
                state.messages.insert(message_key, Vec::new());
                let channel_key = c.id().clone();
                state.channels.insert(channel_key, c);
                proof {
                    assert(state.model().messages =~= hydrate_channel(prev, cseq[k]).messages);
                    assert(state.model() =~= hydrate_channel(prev, cseq[k]));
                }
            }
            let ghost m_channels = state.model();
            proof {
                assert(m_channels == hydrate_channels(m_servers, cseq, 0));
            }
            // Members: insert each into its server's table; a member of an
            // unknown server is dropped.
            let mut members = members;
            let ghost mseq = members0@;
            proof {
                assert(members@ =~= mseq.subrange(0, mseq.len() as int));
            }
            while members.len() > 0
                invariant
                    state.wf(),
                    ui_unchanged(*old(state), *state),
                    members@.len() <= mseq.len(),
                    members@ == mseq.subrange(mseq.len() - members@.len(), mseq.len() as int),
                    hydrate_members(m_channels, mseq, 0) == hydrate_members(
                        state.model(),
                        mseq,
                        mseq.len() - members@.len(),
                    ),
                decreases members@.len(),
            {
                let ghost k = mseq.len() - members@.len();
                let ghost prev = state.model();
                let mem = members.remove(0);
                proof {
                    assert(mem == mseq[k]);
                    assert(members@ =~= mseq.subrange(k + 1, mseq.len() as int));
                }
                insert_member(state, mem);
                proof {
                    assert(state.model() == upsert_member(prev, mseq[k]));
                }
            }
            proof {
                assert(state.model() == hydrate_members(m_channels, mseq, 0));
                assert(orig_event == (Event::Ready {
                    users: users0,
                    servers: servers0,
                    channels: channels0,
                    members: members0,
                }));
                assert(state.model() == apply_event(m0, orig_event));
            }
        }
        Event::Message(message) => {
            let ghost m0 = old(state).model();
            let ghost msg0 = message;
            let Message { id, channel, author, content, replies, masquerade, user, member } =
                message;
            if let Some(u) = user {
                let ghost prev = state.model();
                let key = u.id.clone();
                state.users.insert(key, u);
                proof {
                    assert(state.model() =~= upsert_user(prev, msg0.user->0));
                }
            }
            let ghost m1 = state.model();
            if let Some(mem) = member {
                insert_member(state, mem);
            }
            let ghost m2 = state.model();
            proof {
                assert(m2 == (if msg0.member is Some {
                    upsert_member(m1, msg0.member->0)
                } else {
                    m1
                }));
            }
            let idx = state.messages.index_of(channel.as_str());
            let stored = Message {
                id,
                channel,
                author,
                content,
                replies,
                masquerade,
                user: None,
                member: None,
            };
            proof {
                assert(stored == strip_payload(msg0));
            }
            match idx {
                Some(i) => {
                    let ghost old_messages = state.messages;
                    let list = state.messages.value_mut(i);
                    list.push(stored);
                    proof {
                        lemma_map_of_update(
                            old_messages.entries@,
                            i as int,
                            old_messages.entries@[i as int].0,
                            state.messages.entries@[i as int].1,
                        );
                        assert(state.messages@ =~= old_messages@.insert(
                            msg0.channel@,
                            state.messages.entries@[i as int].1,
                        ));
                        assert(state.model() =~= apply_message(m0, msg0));
                    }
                }
                None => {
                    proof {
                        assert(state.model() == apply_message(m0, msg0));
                    }
                }
            }
        }
        Event::Unknown { .. } => {}
    }
}

/// Insert a member into its server's table, dropping it if the server is
/// unknown.
fn insert_member(state: &mut GlobalState, mem: Member)
    requires
        old(state).wf(),
    ensures
        final(state).wf(),
        final(state).model() == upsert_member(old(state).model(), mem),
        ui_unchanged(*old(state), *final(state)),
{
    let ghost m0 = state.model();
    let idx = state.members.index_of(mem.id.server.as_str());
    match idx {
        Some(i) => {
            let ghost old_members = state.members;
            let key = mem.id.user.clone();
            let inner = state.members.value_mut(i);
            inner.insert(key, mem);
            proof {
                lemma_map_of_update(
                    old_members.entries@,
                    i as int,
                    old_members.entries@[i as int].0,
                    state.members.entries@[i as int].1,
                );
                assert(state.members@ =~= old_members@.insert(
                    old_members.entries@[i as int].0@,
                    state.members.entries@[i as int].1,
                ));
                assert(state.model() =~= upsert_member(m0, mem));
            }
        }
        None => {
            proof {
                assert(state.model() == upsert_member(m0, mem));
            }
        }
    }
}

} // verus!
