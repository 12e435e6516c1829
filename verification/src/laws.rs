use crate::events::Event;
use crate::model::{Channel, Member, Message, ModelView, Server, User};
use crate::reducer::{
    apply_event, apply_events, apply_message, apply_ready, hydrate_channels, hydrate_members,
    hydrate_servers, hydrate_users, strip_payload, upsert_member,
};
use vstd::prelude::*;

verus! {

/// Hydrating channels touches the channel table and the message lists
/// only.
pub proof fn lemma_hydrate_channels_frame(m: ModelView, channels: Seq<Channel>, i: int)
    ensures
        hydrate_channels(m, channels, i).users == m.users,
        hydrate_channels(m, channels, i).servers == m.servers,
        hydrate_channels(m, channels, i).members == m.members,
        hydrate_channels(m, channels, i).connection == m.connection,
    decreases channels.len() - i,
{
    if 0 <= i < channels.len() {
        lemma_hydrate_channels_frame(
            crate::reducer::hydrate_channel(m, channels[i]),
            channels,
            i + 1,
        );
    }
}

/// Hydrating members touches the member tables only, and creates none: a
/// member of an unknown server is dropped.
pub proof fn lemma_hydrate_members_frame(m: ModelView, members: Seq<Member>, i: int)
    ensures
        hydrate_members(m, members, i).users == m.users,
        hydrate_members(m, members, i).servers == m.servers,
        hydrate_members(m, members, i).channels == m.channels,
        hydrate_members(m, members, i).messages == m.messages,
        hydrate_members(m, members, i).connection == m.connection,
        hydrate_members(m, members, i).members.dom() == m.members.dom(),
    decreases members.len() - i,
{
    if 0 <= i < members.len() {
        let m1 = upsert_member(m, members[i]);
        assert(m1.members.dom() =~= m.members.dom());
        lemma_hydrate_members_frame(m1, members, i + 1);
    }
}

/// After hydrating servers, every server named in the snapshot has an
/// empty member table, whatever the model held before.
pub proof fn lemma_hydrate_servers_resets(m: ModelView, servers: Seq<Server>, i: int, sid: Seq<
    char,
>)
    requires
        0 <= i,
        exists|k: int| i <= k < servers.len() && (#[trigger] servers[k]).id@ == sid,
    ensures
        hydrate_servers(m, servers, i).members.contains_key(sid),
        hydrate_servers(m, servers, i).members[sid] == Map::<Seq<char>, Member>::empty(),
    decreases servers.len() - i,
{
    let w = choose|k: int| i <= k < servers.len() && (#[trigger] servers[k]).id@ == sid;
    assert(i < servers.len());
    let m1 = crate::reducer::hydrate_server(m, servers[i]);
    if exists|k2: int| i + 1 <= k2 < servers.len() && (#[trigger] servers[k2]).id@ == sid {
        lemma_hydrate_servers_resets(m1, servers, i + 1, sid);
    } else {
        assert(w == i);
        assert(servers[i].id@ == sid);
        lemma_hydrate_servers_keeps(m1, servers, i + 1, sid);
    }
}

/// Hydrating servers leaves the member table of a server the snapshot
/// does not name alone.
pub proof fn lemma_hydrate_servers_keeps(m: ModelView, servers: Seq<Server>, i: int, sid: Seq<
    char,
>)
    requires
        forall|k: int| i <= k < servers.len() ==> (#[trigger] servers[k]).id@ != sid,
    ensures
        hydrate_servers(m, servers, i).members.contains_key(sid) == m.members.contains_key(sid),
        m.members.contains_key(sid) ==> hydrate_servers(m, servers, i).members[sid]
            == m.members[sid],
    decreases servers.len() - i,
{
    if 0 <= i < servers.len() {
        lemma_hydrate_servers_keeps(
            crate::reducer::hydrate_server(m, servers[i]),
            servers,
            i + 1,
            sid,
        );
    }
}

/// The member table a snapshot's member list builds for one server:
/// folding the list from position `i` into an accumulated table, in list
/// order, replacing on conflict.
pub open spec fn members_of_from(
    acc: Map<Seq<char>, Member>,
    sid: Seq<char>,
    members: Seq<Member>,
    i: int,
) -> Map<Seq<char>, Member>
    decreases members.len() - i,
{
    if 0 <= i < members.len() {
        if members[i].id.server@ == sid {
            members_of_from(acc.insert(members[i].id.user@, members[i]), sid, members, i + 1)
        } else {
            members_of_from(acc, sid, members, i + 1)
        }
    } else {
        acc
    }
}

/// Hydrating members fills each known server's table by folding the list
/// over what the table held.
pub proof fn lemma_hydrate_members_fills(
    m: ModelView,
    members: Seq<Member>,
    i: int,
    sid: Seq<char>,
)
    requires
        m.members.contains_key(sid),
    ensures
        hydrate_members(m, members, i).members.contains_key(sid),
        hydrate_members(m, members, i).members[sid] == members_of_from(
            m.members[sid],
            sid,
            members,
            i,
        ),
    decreases members.len() - i,
{
    if 0 <= i < members.len() {
        let m1 = upsert_member(m, members[i]);
        assert(m1.members.contains_key(sid));
        lemma_hydrate_members_fills(m1, members, i + 1, sid);
    }
}

/// Hydration is authoritative for members: after a `Ready`, each server
/// the snapshot names holds exactly the members the snapshot lists for
/// it — never a union with members an earlier snapshot had put there.
pub proof fn lemma_ready_members_exact(
    m: ModelView,
    users: Seq<User>,
    servers: Seq<Server>,
    channels: Seq<Channel>,
    members: Seq<Member>,
    sid: Seq<char>,
)
    requires
        exists|k: int| 0 <= k < servers.len() && (#[trigger] servers[k]).id@ == sid,
    ensures
        apply_ready(m, users, servers, channels, members).members.contains_key(sid),
        apply_ready(m, users, servers, channels, members).members[sid] == members_of_from(
            Map::empty(),
            sid,
            members,
            0,
        ),
{
    let m_u = hydrate_users(m, users, 0);
    let m_s = hydrate_servers(m_u, servers, 0);
    let m_c = hydrate_channels(m_s, channels, 0);
    lemma_hydrate_servers_resets(m_u, servers, 0, sid);
    lemma_hydrate_channels_frame(m_s, channels, 0);
    lemma_hydrate_members_fills(m_c, members, 0, sid);
}

/// After hydrating channels, every channel named in the snapshot has an
/// empty message list: the snapshot carries no history.
pub proof fn lemma_hydrate_channels_resets(
    m: ModelView,
    channels: Seq<Channel>,
    i: int,
    ch: Seq<char>,
)
    requires
        0 <= i,
        exists|k: int| i <= k < channels.len() && (#[trigger] channels[k]).id_spec() == ch,
    ensures
        hydrate_channels(m, channels, i).messages.contains_key(ch),
        hydrate_channels(m, channels, i).messages[ch] == Seq::<Message>::empty(),
    decreases channels.len() - i,
{
    let w = choose|k: int| i <= k < channels.len() && (#[trigger] channels[k]).id_spec() == ch;
    assert(i < channels.len());
    let m1 = crate::reducer::hydrate_channel(m, channels[i]);
    if exists|k2: int| i + 1 <= k2 < channels.len() && (#[trigger] channels[k2]).id_spec() == ch {
        lemma_hydrate_channels_resets(m1, channels, i + 1, ch);
    } else {
        assert(w == i);
        lemma_hydrate_channels_keeps(m1, channels, i + 1, ch);
    }
}

/// Hydrating channels leaves the message list of a channel the snapshot
/// does not name alone.
pub proof fn lemma_hydrate_channels_keeps(
    m: ModelView,
    channels: Seq<Channel>,
    i: int,
    ch: Seq<char>,
)
    requires
        forall|k: int| i <= k < channels.len() ==> (#[trigger] channels[k]).id_spec() != ch,
    ensures
        hydrate_channels(m, channels, i).messages.contains_key(ch) == m.messages.contains_key(ch),
        m.messages.contains_key(ch) ==> hydrate_channels(m, channels, i).messages[ch]
            == m.messages[ch],
    decreases channels.len() - i,
{
    if 0 <= i < channels.len() {
        lemma_hydrate_channels_keeps(
            crate::reducer::hydrate_channel(m, channels[i]),
            channels,
            i + 1,
            ch,
        );
    }
}

/// The messages that a stream of `Message` events from position `i` on
/// addresses to one channel, stripped of their creation payloads, in
/// arrival order.
pub open spec fn messages_for(evs: Seq<Event>, i: int, ch: Seq<char>) -> Seq<Message>
    decreases evs.len() - i,
{
    if 0 <= i < evs.len() {
        let rest = messages_for(evs, i + 1, ch);
        match evs[i] {
            Event::Message(msg) => if msg.channel@ == ch {
                seq![strip_payload(msg)] + rest
            } else {
                rest
            },
            _ => rest,
        }
    } else {
        Seq::empty()
    }
}

/// A stream of `Message` events appends to each known channel exactly the
/// messages addressed to it, in arrival order, after what the list
/// already held; it never creates or removes a list.
pub proof fn lemma_message_stream(m: ModelView, evs: Seq<Event>, i: int, ch: Seq<char>)
    requires
        forall|j: int| i <= j < evs.len() ==> (#[trigger] evs[j]) is Message,
        m.messages.contains_key(ch),
    ensures
        apply_events(m, evs, i).messages.contains_key(ch),
        apply_events(m, evs, i).messages[ch] == m.messages[ch] + messages_for(evs, i, ch),
    decreases evs.len() - i,
{
    if 0 <= i < evs.len() {
        let m1 = apply_event(m, evs[i]);
        match evs[i] {
            Event::Message(msg) => {
                assert(m1 == apply_message(m, msg));
                assert(m1.messages.contains_key(ch));
                lemma_message_stream(m1, evs, i + 1, ch);
                if msg.channel@ == ch {
                    assert(m1.messages[ch] == m.messages[ch].push(strip_payload(msg)));
                    assert(m.messages[ch].push(strip_payload(msg)) + messages_for(evs, i + 1, ch)
                        =~= m.messages[ch] + messages_for(evs, i, ch));
                } else {
                    assert(m1.messages[ch] == m.messages[ch]);
                    assert(messages_for(evs, i, ch) == messages_for(evs, i + 1, ch));
                }
            },
            _ => {
                assert(false);
            },
        }
    } else {
        assert(m.messages[ch] + Seq::<Message>::empty() =~= m.messages[ch]);
    }
}

/// After one hydration snapshot and any stream of `Message` events, each
/// channel the snapshot names holds exactly the messages the stream
/// addressed to it, in arrival order: the list's length is the count of
/// events aimed at the channel, and its order is the delivery order.
pub proof fn lemma_ready_then_messages(
    m: ModelView,
    users: Seq<User>,
    servers: Seq<Server>,
    channels: Seq<Channel>,
    members: Seq<Member>,
    evs: Seq<Event>,
    ch: Seq<char>,
)
    requires
        forall|j: int| 0 <= j < evs.len() ==> (#[trigger] evs[j]) is Message,
        exists|k: int| 0 <= k < channels.len() && (#[trigger] channels[k]).id_spec() == ch,
    ensures
        apply_events(apply_ready(m, users, servers, channels, members), evs, 0).messages.contains_key(
            ch,
        ),
        apply_events(apply_ready(m, users, servers, channels, members), evs, 0).messages[ch]
            == messages_for(evs, 0, ch),
{
    let m_s = hydrate_servers(hydrate_users(m, users, 0), servers, 0);
    let m_c = hydrate_channels(m_s, channels, 0);
    let m_r = apply_ready(m, users, servers, channels, members);
    lemma_hydrate_channels_resets(m_s, channels, 0, ch);
    lemma_hydrate_members_frame(m_c, members, 0);
    assert(m_r.messages == m_c.messages);
    lemma_message_stream(m_r, evs, 0, ch);
    assert(Seq::<Message>::empty() + messages_for(evs, 0, ch) =~= messages_for(evs, 0, ch));
}

/// A `Message` event for an unknown channel leaves the model unchanged
/// except for its embedded author and member, which are upserted all the
/// same; in particular it creates no dangling channel entry.
pub proof fn lemma_unknown_channel_message(m: ModelView, msg: Message)
    requires
        !m.messages.contains_key(msg.channel@),
    ensures
        apply_event(m, Event::Message(msg)).messages == m.messages,
        apply_event(m, Event::Message(msg)).channels == m.channels,
        apply_event(m, Event::Message(msg)).servers == m.servers,
        apply_event(m, Event::Message(msg)).connection == m.connection,
        apply_event(m, Event::Message(msg)).users == (if msg.user is Some {
            m.users.insert(msg.user->0.id@, msg.user->0)
        } else {
            m.users
        }),
        apply_event(m, Event::Message(msg)).members == (if msg.member is Some
            && m.members.contains_key(msg.member->0.id.server@) {
            m.members.insert(
                msg.member->0.id.server@,
                m.members[msg.member->0.id.server@].insert(msg.member->0.id.user@, msg.member->0),
            )
        } else {
            m.members
        }),
{
}

/// Applying two events in turn — say two hydration snapshots — leaves
/// each server the second snapshot names with exactly that snapshot's
/// members, whatever the first event put there.
pub proof fn lemma_second_ready_wins(
    m: ModelView,
    first: Event,
    users: Vec<User>,
    servers: Vec<Server>,
    channels: Vec<Channel>,
    members: Vec<Member>,
    sid: Seq<char>,
)
    requires
        exists|k: int| 0 <= k < servers@.len() && (#[trigger] servers@[k]).id@ == sid,
    ensures
        apply_event(
            apply_event(m, first),
            Event::Ready { users, servers, channels, members },
        ).members.contains_key(sid),
        apply_event(
            apply_event(m, first),
            Event::Ready { users, servers, channels, members },
        ).members[sid] == members_of_from(Map::empty(), sid, members@, 0),
{
    lemma_ready_members_exact(
        apply_event(m, first),
        users@,
        servers@,
        channels@,
        members@,
        sid,
    );
}

} // verus!
